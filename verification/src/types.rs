//! The values that travel through the kernel: identifiers, publishes,
//! subscriptions, disconnect records and the authentication state of a session.

use vstd::prelude::*;
use crate::text::{decimal, format_u64, from_chars, to_chars};

verus! {

pub type NodeId = u64;

pub type ListenerId = u16;

pub type ClientId = String;

pub type UserName = String;

pub type TopicName = String;

pub type TopicFilter = String;

pub type SharedGroup = String;

pub type Password = Vec<u8>;

pub type TimestampMillis = i64;

pub type Superuser = bool;

pub type MsgID = u64;

pub type CleanStart = bool;

pub type ClearSubscriptions = bool;

pub type IsAdmin = bool;

/// A socket address: the textual IP address and the port.
#[derive(Debug, Clone, PartialEq, Eq, Hash)]
pub struct Addr {
    pub ip: String,
    pub port: u16,
}

/// The mathematical value of an [`Addr`].
pub struct AddrView {
    pub ip: Seq<char>,
    pub port: u16,
}

impl View for Addr {
    type V = AddrView;

    open spec fn view(&self) -> AddrView {
        AddrView { ip: self.ip@, port: self.port }
    }
}

/// The identity of a session. It does not change once the session exists.
#[derive(Debug, Clone, PartialEq, Eq, Hash)]
pub struct Id {
    pub node_id: NodeId,
    pub lid: ListenerId,
    pub local_addr: Option<Addr>,
    pub remote_addr: Option<Addr>,
    pub client_id: ClientId,
    pub username: Option<UserName>,
}

/// The mathematical value of an [`Id`].
pub struct IdView {
    pub node_id: NodeId,
    pub lid: ListenerId,
    pub local_addr: Option<AddrView>,
    pub remote_addr: Option<AddrView>,
    pub client_id: Seq<char>,
    pub username: Option<Seq<char>>,
}

/// The value of an optional address.
pub open spec fn addr_opt_view(a: Option<Addr>) -> Option<AddrView> {
    match a {
        Some(a) => Some(a@),
        None => None,
    }
}

/// The value of an optional string.
pub open spec fn string_opt_view(s: Option<String>) -> Option<Seq<char>> {
    match s {
        Some(s) => Some(s@),
        None => None,
    }
}

impl View for Id {
    type V = IdView;

    open spec fn view(&self) -> IdView {
        IdView {
            node_id: self.node_id,
            lid: self.lid,
            local_addr: addr_opt_view(self.local_addr),
            remote_addr: addr_opt_view(self.remote_addr),
            client_id: self.client_id@,
            username: string_opt_view(self.username),
        }
    }
}

impl Addr {
    /// A copy of this address.
    pub fn duplicate(&self) -> (r: Addr)
        ensures
            r == *self,
    {
        Addr { ip: self.ip.clone(), port: self.port }
    }
}

/// A copy of an optional string.
pub fn duplicate_string_opt(s: &Option<String>) -> (r: Option<String>)
    ensures
        r == *s,
{
    match s {
        Some(s) => Some(s.clone()),
        None => None,
    }
}

/// A copy of an optional address.
pub fn duplicate_addr_opt(a: &Option<Addr>) -> (r: Option<Addr>)
    ensures
        r == *a,
{
    match a {
        Some(a) => Some(a.duplicate()),
        None => None,
    }
}

impl Id {
    /// A copy of this identifier.
    pub fn duplicate(&self) -> (r: Id)
        ensures
            r == *self,
    {
        Id {
            node_id: self.node_id,
            lid: self.lid,
            local_addr: duplicate_addr_opt(&self.local_addr),
            remote_addr: duplicate_addr_opt(&self.remote_addr),
            client_id: self.client_id.clone(),
            username: duplicate_string_opt(&self.username),
        }
    }
}

/// Delivery guarantee of a publish or a subscription.
#[derive(Debug, Clone, Copy, PartialEq, Eq, Hash, Structural)]
pub enum QoS {
    AtMostOnce,
    AtLeastOnce,
    ExactlyOnce,
}

/// An application message.
#[derive(Debug, Clone, PartialEq, Eq)]
pub struct Publish {
    pub topic: TopicName,
    pub payload: Vec<u8>,
    pub qos: QoS,
    pub retain: bool,
    pub dup: bool,
    pub packet_id: Option<u16>,
    pub create_time: TimestampMillis,
}

/// Where a publish came from.
#[derive(Debug, Clone, Copy, PartialEq, Eq, Hash, Structural)]
pub enum FromType {
    Custom,
    Admin,
    System,
    LastWill,
    Bridge,
}

/// The origin of a publish: the kind of sender and its identity.
#[derive(Debug, Clone, PartialEq, Eq)]
pub struct From {
    pub typ: FromType,
    pub id: Id,
}

/// The destination of a publish.
pub type To = Id;

/// One topic filter that a client asks to subscribe to.
#[derive(Debug, Clone, PartialEq, Eq)]
pub struct Subscribe {
    pub topic_filter: TopicFilter,
    pub qos: QoS,
    pub shared_group: Option<SharedGroup>,
}

/// One topic filter that a client asks to leave.
#[derive(Debug, Clone, PartialEq, Eq)]
pub struct Unsubscribe {
    pub topic_filter: TopicFilter,
    pub shared_group: Option<SharedGroup>,
}

/// A subscription that the broker accepted.
#[derive(Debug, Clone, PartialEq, Eq)]
pub struct Subscribed {
    pub topic_filter: TopicFilter,
    pub qos: QoS,
    pub shared_group: Option<SharedGroup>,
}

/// The reason code on a subscribe acknowledgement that refuses the filter.
#[derive(Debug, Clone, Copy, PartialEq, Eq, Hash, Structural)]
pub enum SubscribeAckReason {
    NotAuthorized,
    UnspecifiedError,
    TopicFilterInvalid,
    QuotaExceeded,
}

/// The answer to a CONNECT.
#[derive(Debug, Clone, Copy, PartialEq, Eq, Hash, Structural)]
pub enum ConnectAckReason {
    Success,
    BadUserNameOrPassword,
    NotAuthorized,
    ServerUnavailable,
}

/// What a DISCONNECT packet, if any, said.
#[derive(Debug, Clone, PartialEq, Eq)]
pub enum Disconnect {
    /// A protocol-level disconnect carrying the session expiry the client asked for, in seconds.
    Mqtt(Option<u32>),
    /// Any other cause, described in words.
    Other(String),
}

/// Why a connection or a session ended.
#[derive(Debug, Clone, PartialEq, Eq)]
pub enum Reason {
    ConnectDisconnect(Option<Disconnect>),
    ConnectKicked(IsAdmin),
    ConnectKeepaliveTimeout,
    SessionExpiration,
    MessageExpiration,
    MessageQueueFull,
    Error(String),
    Unknown,
}

impl Reason {
    /// Whether the connection was displaced by another one. With `admin_opt` set,
    /// only a displacement ordered by an administrator counts.
    pub fn is_kicked(&self, admin_opt: bool) -> (r: bool)
        ensures
            r == (match *self {
                Reason::ConnectKicked(is_admin) => !admin_opt || is_admin,
                _ => false,
            }),
    {
        match self {
            Reason::ConnectKicked(is_admin) => !admin_opt || *is_admin,
            _ => false,
        }
    }
}

/// What is known of a session that went offline.
#[derive(Debug, Clone, PartialEq, Eq)]
pub struct DisconnectInfo {
    /// When the connection ended, in milliseconds; zero or less when unknown.
    pub disconnected_at: TimestampMillis,
    pub reasons: Vec<Reason>,
    pub mqtt_disconnect: Option<Disconnect>,
}

impl DisconnectInfo {
    /// A record that only knows when the connection ended.
    pub fn new(disconnected_at: TimestampMillis) -> (r: DisconnectInfo)
        ensures
            r.disconnected_at == disconnected_at,
            r.reasons@ == Seq::<Reason>::empty(),
            r.mqtt_disconnect is None,
    {
        DisconnectInfo { disconnected_at, reasons: Vec::new(), mqtt_disconnect: None }
    }
}

/// What a CONNECT packet carried.
#[derive(Debug, Clone, PartialEq, Eq)]
pub struct ConnectInfo {
    pub id: Id,
    /// Protocol level: 3, 4 or 5.
    pub proto_ver: u8,
    pub password: Option<Password>,
    pub keepalive: u16,
    pub clean_start: bool,
}

impl ConnectInfo {
    pub fn id(&self) -> (r: &Id)
        ensures
            *r == self.id,
    {
        &self.id
    }

    pub fn proto_ver(&self) -> (r: u8)
        ensures
            r == self.proto_ver,
    {
        self.proto_ver
    }
}


/// Whether a rule grants or refuses.
#[derive(Debug, Clone, Copy, PartialEq, Eq, Hash, Structural)]
pub enum RuleAccess {
    Allow,
    Deny,
}

/// The operations a rule speaks of.
#[derive(Debug, Clone, Copy, PartialEq, Eq, Hash, Structural)]
pub enum RuleAction {
    Subscribe,
    Publish,
    All,
}

/// One access rule: an outcome for an operation on the topics that its filters cover.
#[derive(Debug, Clone, PartialEq, Eq)]
pub struct Rule {
    pub access: RuleAccess,
    pub action: RuleAction,
    pub topics: Vec<TopicFilter>,
}

/// What a successful authentication leaves on the session.
#[derive(Debug, Clone, PartialEq, Eq)]
pub struct AuthInfo {
    pub superuser: Superuser,
    /// The instant, in seconds since the epoch, from which the authentication no longer holds.
    pub expire_at: Option<u64>,
    pub rules: Vec<Rule>,
}

impl AuthInfo {
    /// Whether the authentication has run out at `now_secs`: an expiry is set and has been reached.
    pub open spec fn expired_at(&self, now_secs: u64) -> bool {
        match self.expire_at {
            Some(at) => now_secs >= at,
            None => false,
        }
    }

    /// Whether the authentication has run out at `now_secs` (seconds since the epoch).
    pub fn is_expired(&self, now_secs: u64) -> (r: bool)
        ensures
            r == self.expired_at(now_secs),
    {
        match self.expire_at {
            Some(at) => now_secs >= at,
            None => false,
        }
    }
}

/// What handlers read of a session.
#[derive(Debug, Clone, PartialEq, Eq)]
pub struct Session {
    pub id: Id,
    pub auth_info: Option<AuthInfo>,
    /// The protocol level, where the connection has told it.
    pub protocol: Option<u8>,
    /// How many offline messages the listener lets a session keep.
    pub max_mqueue_len: usize,
}

/// A message that was sent to a subscriber and not yet acknowledged.
#[derive(Debug, Clone, PartialEq, Eq)]
pub struct OutInflightMessage {
    pub from: From,
    pub publish: Publish,
    pub update_time: TimestampMillis,
}

/// A copy of some bytes.
pub fn duplicate_bytes(bytes: &Vec<u8>) -> (r: Vec<u8>)
    ensures
        r@ == bytes@,
{
    let mut out: Vec<u8> = Vec::new();
    let mut i: usize = 0;
    while i < bytes.len()
        invariant
            i <= bytes.len(),
            out@ == bytes@.take(i as int),
        decreases bytes.len() - i,
    {
        out.push(bytes[i]);
        assert(bytes@.take(i + 1) =~= bytes@.take(i as int).push(bytes@[i as int]));
        i = i + 1;
    }
    assert(bytes@.take(bytes.len() as int) =~= bytes@);
    out
}

/// Whether two publishes say the same: the same topic, payload and flags.
pub open spec fn same_publish(a: Publish, b: Publish) -> bool {
    &&& a.topic@ == b.topic@
    &&& a.payload@ == b.payload@
    &&& a.qos == b.qos
    &&& a.retain == b.retain
    &&& a.dup == b.dup
    &&& a.packet_id == b.packet_id
    &&& a.create_time == b.create_time
}

impl Publish {
    /// A copy of this publish.
    pub fn duplicate(&self) -> (r: Publish)
        ensures
            same_publish(r, *self),
    {
        Publish {
            topic: self.topic.clone(),
            payload: duplicate_bytes(&self.payload),
            qos: self.qos,
            retain: self.retain,
            dup: self.dup,
            packet_id: self.packet_id,
            create_time: self.create_time,
        }
    }
}

impl From {
    /// A copy of this origin.
    pub fn duplicate(&self) -> (r: From)
        ensures
            r == *self,
    {
        From { typ: self.typ, id: self.id.duplicate() }
    }
}

/// Whether two messages in flight say the same.
pub open spec fn same_inflight(a: OutInflightMessage, b: OutInflightMessage) -> bool {
    a.from == b.from && same_publish(a.publish, b.publish) && a.update_time == b.update_time
}

impl OutInflightMessage {
    /// A copy of this message.
    pub fn duplicate(&self) -> (r: OutInflightMessage)
        ensures
            same_inflight(r, *self),
    {
        OutInflightMessage {
            from: self.from.duplicate(),
            publish: self.publish.duplicate(),
            update_time: self.update_time,
        }
    }
}

/// What a component needs to know of the broker it runs in.
#[derive(Debug, Clone, Copy, PartialEq, Eq, Structural)]
pub struct ServerContext {
    /// The identifier of this node.
    pub node_id: NodeId,
    /// Whether the broker runs as one node of a cluster.
    pub cluster: bool,
}

/// The seconds since the epoch of an instant given in milliseconds.
pub open spec fn seconds_of(now: TimestampMillis) -> u64 {
    if now < 0 {
        0
    } else {
        (now / 1000) as u64
    }
}

/// The seconds since the epoch of an instant given in milliseconds.
pub fn to_seconds(now: TimestampMillis) -> (r: u64)
    ensures
        r == seconds_of(now),
{
    if now < 0 {
        0
    } else {
        (now / 1000) as u64
    }
}

/// The messages that wait to be delivered to a session: a queue of bounded
/// length that hands out what came first, and refuses what comes when it is full.
#[derive(Debug, Clone, PartialEq, Eq)]
pub struct DeliverQueue {
    pub items: Vec<(From, Publish)>,
    /// How many messages the queue takes.
    pub capacity: usize,
}

impl DeliverQueue {
    /// The queue holds no more than it takes.
    pub open spec fn wf(&self) -> bool {
        self.items@.len() <= self.capacity
    }

    /// An empty queue that takes `capacity` messages.
    pub fn new(capacity: usize) -> (queue: DeliverQueue)
        ensures
            queue.wf(),
            queue.items@.len() == 0,
            queue.capacity == capacity,
    {
        DeliverQueue { items: Vec::new(), capacity }
    }

    pub fn len(&self) -> (n: usize)
        ensures
            n == self.items@.len(),
    {
        self.items.len()
    }

    /// Puts a message at the end of the queue. A full queue hands the message
    /// back and stays as it is.
    pub fn push(&mut self, item: (From, Publish)) -> (r: Result<(), (From, Publish)>)
        ensures
            final(self).capacity == old(self).capacity,
            old(self).wf() ==> final(self).wf(),
            if old(self).items@.len() < old(self).capacity {
                r is Ok && final(self).items@ == old(self).items@.push(item)
            } else {
                r == Err::<(), (From, Publish)>(item) && final(self).items@ == old(self).items@
            },
    {
        if self.items.len() < self.capacity {
            self.items.push(item);
            Ok(())
        } else {
            Err(item)
        }
    }

    /// Takes the message that has waited longest.
    pub fn pop(&mut self) -> (r: Option<(From, Publish)>)
        ensures
            final(self).capacity == old(self).capacity,
            old(self).wf() ==> final(self).wf(),
            if old(self).items@.len() > 0 {
                r == Some(old(self).items@[0]) && final(self).items@ == old(self).items@.drop_first()
            } else {
                r is None && final(self).items@ == old(self).items@
            },
    {
        if self.items.len() > 0 {
            let first = self.items.remove(0);
            assert(self.items@ =~= old(self).items@.drop_first());
            Some(first)
        } else {
            None
        }
    }
}

/// An address as text: the IP address, a colon, the port; empty where the
/// address is not known.
pub open spec fn addr_text(addr: Option<AddrView>) -> Seq<char> {
    match addr {
        Some(a) => a.ip + seq![':'] + decimal(a.port as nat),
        None => Seq::empty(),
    }
}

/// An identifier as text: the node, `@`, the local address, `/`, the remote
/// address, `/`, the client identifier, `/`, the user name; what is not known
/// is left empty.
pub open spec fn id_text(id: IdView) -> Seq<char> {
    decimal(id.node_id as nat) + seq!['@'] + addr_text(id.local_addr) + seq!['/'] + addr_text(
        id.remote_addr,
    ) + seq!['/'] + id.client_id + seq!['/'] + (match id.username {
        Some(name) => name,
        None => Seq::empty(),
    })
}

fn push_text(out: &mut Vec<char>, text: &str)
    ensures
        final(out)@ == old(out)@ + text@,
{
    let chars = to_chars(text);
    let mut i: usize = 0;
    while i < chars.len()
        invariant
            i <= chars.len(),
            chars@ == text@,
            out@ == old(out)@ + chars@.take(i as int),
        decreases chars.len() - i,
    {
        out.push(chars[i]);
        assert(chars@.take(i + 1) =~= chars@.take(i as int).push(chars@[i as int]));
        i = i + 1;
    }
    assert(chars@.take(chars.len() as int) =~= chars@);
}

fn push_addr(out: &mut Vec<char>, addr: &Option<Addr>)
    ensures
        final(out)@ == old(out)@ + addr_text(addr_opt_view(*addr)),
{
    match addr {
        Some(a) => {
            push_text(out, a.ip.as_str());
            out.push(':');
            let port = format_u64(a.port as u64);
            push_text(out, port.as_str());
            assert(out@ =~= old(out)@ + addr_text(addr_opt_view(*addr)));
        },
        None => {
            assert(out@ =~= old(out)@ + addr_text(addr_opt_view(*addr)));
        },
    }
}

impl Id {
    /// This identifier as text.
    pub fn to_text(&self) -> (r: String)
        ensures
            r@ == id_text(self@),
    {
        let mut out: Vec<char> = Vec::new();
        let node = format_u64(self.node_id);
        push_text(&mut out, node.as_str());
        out.push('@');
        push_addr(&mut out, &self.local_addr);
        out.push('/');
        push_addr(&mut out, &self.remote_addr);
        out.push('/');
        push_text(&mut out, self.client_id.as_str());
        out.push('/');
        match &self.username {
            Some(name) => {
                push_text(&mut out, name.as_str());
            },
            None => {},
        }
        assert(out@ =~= id_text(self@));
        from_chars(&out)
    }
}

} // verus!
