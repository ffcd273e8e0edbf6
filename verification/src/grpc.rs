//! The messages that broker nodes exchange, and how a node routes and answers them.

use vstd::prelude::*;
use crate::codec::{MessageModel, MessageReplyModel};
use crate::hook::HookResult;
use crate::types::{
    CleanStart, ClearSubscriptions, ClientId, From, Id, IsAdmin, MsgID, NodeId, Publish, QoS,
    ServerContext, SharedGroup, TopicFilter, TopicName,
};
use crate::wire::Wire;

verus! {

/// The code that says which subsystem a message is for. Codes below 1000 are reserved.
pub type MessageType = u64;

/// The message type of a request for the stored messages of a client.
pub const MESSAGE_TYPE_MESSAGE_GET: u64 = 22;

/// The message types below this one are reserved for the broker itself.
pub const RESERVED_MESSAGE_TYPES: u64 = 1000;

/// One subscriber that a forwarded publish is to reach.
#[derive(Debug, Clone, PartialEq, Eq)]
pub struct SubRelation {
    pub topic_filter: TopicFilter,
    pub client_id: ClientId,
    pub qos: QoS,
    pub group: Option<SharedGroup>,
}

pub type SubRelations = Vec<SubRelation>;

/// The subscribers of a publish by node. Every node stands in it once.
pub type SubRelationsMap = Vec<(NodeId, SubRelations)>;

/// Whether every node stands once among the subscribers by node.
pub open spec fn nodes_once(map: Seq<(NodeId, SubRelations)>) -> bool {
    forall|i: int, j: int| 0 <= i < j < map.len() ==> map[i].0 != map[j].0
}

/// Whether every node stands once among the subscribers by node. What is
/// read from bytes is a sequence as the bytes give it; this tells whether it
/// is a map.
pub fn stands_once(map: &SubRelationsMap) -> (r: bool)
    ensures
        r == nodes_once(map@),
{
    let mut j: usize = 0;
    while j < map.len()
        invariant
            j <= map.len(),
            forall|a: int, b: int| 0 <= a < b < j ==> map@[a].0 != map@[b].0,
        decreases map.len() - j,
    {
        let mut i: usize = 0;
        while i < j
            invariant
                i <= j < map.len(),
                forall|a: int, b: int| 0 <= a < b < j ==> map@[a].0 != map@[b].0,
                forall|a: int| 0 <= a < i ==> map@[a].0 != map@[j as int].0,
            decreases j - i,
        {
            if map[i].0 == map[j].0 {
                return false;
            }
            i = i + 1;
        }
        j = j + 1;
    }
    true
}

pub type SubscriptionClientIds = Option<Vec<ClientId>>;

/// The filter of a subscription search.
#[derive(Debug, Clone, PartialEq, Eq)]
pub struct SubsSearchParams {
    pub limit: usize,
    pub client_id: Option<ClientId>,
    pub topic: Option<TopicFilter>,
    pub share: Option<SharedGroup>,
}

/// One subscription found by a search.
#[derive(Debug, Clone, PartialEq, Eq)]
pub struct SubsSearchResult {
    pub node_id: NodeId,
    pub client_id: ClientId,
    pub topic: TopicFilter,
    pub qos: QoS,
    pub share: Option<SharedGroup>,
}

/// A route: a topic filter and a node that has subscribers for it.
#[derive(Debug, Clone, PartialEq, Eq)]
pub struct Route {
    pub node_id: NodeId,
    pub topic: TopicFilter,
}

/// A retained message.
#[derive(Debug, Clone, PartialEq, Eq)]
pub struct Retain {
    pub msg_id: Option<MsgID>,
    pub from: From,
    pub publish: Publish,
}

/// Whether a client is known to a node, and connected.
#[derive(Debug, Clone, PartialEq, Eq)]
pub struct SessionStatus {
    pub id: Id,
    pub online: bool,
    pub handshaking: bool,
}

/// The last state of a session that another node displaced.
#[derive(Debug, Clone, PartialEq, Eq)]
pub enum OfflineSession {
    /// The node held the session; the state is there unless the session was cleared.
    Exist(Option<OfflineInfo>),
    NotExist,
}

/// What a displaced session hands over.
#[derive(Debug, Clone, PartialEq, Eq)]
pub struct OfflineInfo {
    pub id: Id,
    pub subscriptions: Vec<SubRelation>,
    pub offline_messages: Vec<(From, Publish)>,
}

/// A request from one node to another. The order of the variants is part of the wire format.
#[derive(Debug, Clone, PartialEq, Eq)]
pub enum Message {
    Forwards(From, Publish),
    ForwardsTo(From, Publish, SubRelations),
    Kick(Id, CleanStart, ClearSubscriptions, IsAdmin),
    GetRetains(TopicFilter),
    SubscriptionsSearch(SubsSearchParams),
    SubscriptionsGet(ClientId),
    RoutesGet(usize),
    RoutesGetBy(TopicFilter),
    NumberOfClients,
    NumberOfSessions,
    Online(ClientId),
    SessionStatus(ClientId),
    MessageGet(ClientId, TopicFilter, Option<SharedGroup>),
    Data(Vec<u8>),
}

/// The answer to a [`Message`]. `Error` carries a failure in words.
#[derive(Debug, Clone, PartialEq, Eq)]
pub enum MessageReply {
    Success,
    Forwards(SubRelationsMap, SubscriptionClientIds),
    Error(String),
    Kick(OfflineSession),
    GetRetains(Vec<(TopicName, Retain)>),
    SubscriptionsSearch(Vec<SubsSearchResult>),
    SubscriptionsGet(Option<Vec<SubsSearchResult>>),
    RoutesGet(Vec<Route>),
    RoutesGetBy(Vec<Route>),
    NumberOfClients(usize),
    NumberOfSessions(usize),
    Online(bool),
    SessionStatus(Option<SessionStatus>),
    MessageGet(Vec<(MsgID, From, Publish)>),
    Data(Vec<u8>),
}

/// Why a request between nodes fails.
#[derive(Debug, Clone, Copy, PartialEq, Eq, Hash, Structural)]
pub enum GrpcError {
    /// The bytes are no envelope.
    Decode,
    /// The network failed.
    Transport,
    /// The deadline passed before the answer came.
    Timeout,
    /// The peer answered, and the answer does not count as a success.
    Rejected,
}

/// How many requests may wait to be handled.
pub const RECV_QUEUE_CAPACITY: usize = 300_000;

/// The largest frame that is sent or taken, in bytes: four mebibytes.
pub const MAX_FRAME_SIZE: usize = 4_194_304;

/// The size from which a payload is sent in chunks, in bytes: two mebibytes.
pub const CHUNK_SIZE: usize = 2_097_152;

/// How many requests may wait in a client's mailbox.
pub const MAILBOX_CAPACITY: usize = 100_000;

/// For how many seconds the server waits before it binds again after the
/// transport has failed.
pub const REBIND_DELAY_SECS: u64 = 3;

/// The bytes of a request: the message type in eight bytes, then the message.
pub open spec fn request_bytes(typ: MessageType, message: MessageModel) -> Seq<u8> {
    <(u64, Message) as Wire>::wire((typ, message))
}

/// The request at the front of some bytes. What follows it is not looked at.
pub open spec fn request_parsed(bytes: Seq<u8>) -> Option<(MessageType, MessageModel)> {
    match <(u64, Message) as Wire>::parse(bytes) {
        Some((request, _)) => Some(request),
        None => None,
    }
}

/// The answer at the front of some bytes. What follows it is not looked at.
pub open spec fn reply_parsed(bytes: Seq<u8>) -> Option<MessageReplyModel> {
    match <MessageReply as Wire>::parse(bytes) {
        Some((reply, _)) => Some(reply),
        None => None,
    }
}

impl Message {
    /// The bytes of this message under the message type `typ`.
    pub fn encode(&self, typ: MessageType) -> (r: Result<Vec<u8>, GrpcError>)
        ensures
            r matches Ok(bytes) && bytes@ == request_bytes(typ, self.deep_view()),
            <Message as Wire>::fits(self.deep_view()),
    {
        let mut out: Vec<u8> = Vec::new();
        typ.encode(&mut out);
        Wire::encode(self, &mut out);
        assert(out@ =~= request_bytes(typ, self.deep_view()));
        Ok(out)
    }

    /// The message type and the message that the bytes hold.
    pub fn decode(data: &[u8]) -> (r: Result<(MessageType, Message), GrpcError>)
        ensures
            match r {
                Ok((typ, message)) => request_parsed(data@) == Some((typ, message.deep_view())),
                Err(e) => e == GrpcError::Decode && request_parsed(data@) is None,
            },
    {
        assert(data@.skip(0) =~= data@);
        match <(u64, Message) as Wire>::decode(data, 0) {
            Some(((typ, message), _)) => Ok((typ, message)),
            None => Err(GrpcError::Decode),
        }
    }
}

impl MessageReply {
    /// The bytes of this answer.
    pub fn encode(&self) -> (r: Result<Vec<u8>, GrpcError>)
        ensures
            r matches Ok(bytes) && bytes@ == <MessageReply as Wire>::wire(self.deep_view()),
            <MessageReply as Wire>::fits(self.deep_view()),
    {
        let mut out: Vec<u8> = Vec::new();
        Wire::encode(self, &mut out);
        assert(out@ =~= <MessageReply as Wire>::wire(self.deep_view()));
        Ok(out)
    }

    /// The answer that the bytes hold.
    pub fn decode(data: &[u8]) -> (r: Result<MessageReply, GrpcError>)
        ensures
            match r {
                Ok(reply) => reply_parsed(data@) == Some(reply.deep_view()),
                Err(e) => e == GrpcError::Decode && reply_parsed(data@) is None,
            },
    {
        assert(data@.skip(0) =~= data@);
        match <MessageReply as Wire>::decode(data, 0) {
            Some((reply, _)) => Ok(reply),
            None => Err(GrpcError::Decode),
        }
    }
}

/// A request that was written is read back: the same message type and the
/// same message, variant by variant and field by field.
pub proof fn law_message_round_trip(typ: MessageType, message: MessageModel)
    requires
        <Message as Wire>::fits(message),
    ensures
        request_parsed(request_bytes(typ, message)) == Some((typ, message)),
{
    <(u64, Message) as Wire>::round_trip((typ, message), Seq::empty());
    assert(request_bytes(typ, message) + Seq::<u8>::empty() =~= request_bytes(typ, message));
}

/// An answer that was written is read back, variant by variant and field by field.
pub proof fn law_reply_round_trip(reply: MessageReplyModel)
    requires
        <MessageReply as Wire>::fits(reply),
    ensures
        reply_parsed(<MessageReply as Wire>::wire(reply)) == Some(reply),
{
    <MessageReply as Wire>::round_trip(reply, Seq::empty());
    assert(<MessageReply as Wire>::wire(reply) + Seq::<u8>::empty() =~= <MessageReply as Wire>::wire(
        reply,
    ));
}

/// Where a request goes.
#[derive(Debug, PartialEq, Eq)]
pub enum Routed {
    /// To the message manager: the stored messages of a client for a topic
    /// filter and, where given, a shared group.
    MessageGet(ClientId, TopicFilter, Option<SharedGroup>),
    /// To the hook bus, as a message received from another node.
    Hook(MessageType, Message),
}

/// What the server is told by its transport.
#[derive(Debug, Clone, PartialEq, Eq)]
pub enum ServerEvent {
    /// A request arrived; the flag says whether the sender waits for an answer.
    Received(Vec<u8>, bool),
    /// The transport failed.
    TransportFailed,
    /// The queue of requests was closed.
    Closed,
}

/// What the server does next.
#[derive(Debug, Clone, PartialEq, Eq)]
pub enum ServerAction {
    /// Handle the request on the executor; answer where the flag is set.
    Handle(Vec<u8>, bool),
    /// Wait this many seconds, then bind again.
    Rebind(u64),
    /// Stop receiving.
    Stop,
}

/// The server side of the cluster layer.
#[derive(Debug, Clone, Copy, PartialEq, Eq, Structural)]
pub struct GrpcServer {
    pub scx: ServerContext,
}

impl GrpcServer {
    pub fn new(scx: ServerContext) -> (server: GrpcServer)
        ensures
            server.scx == scx,
    {
        GrpcServer { scx }
    }

    /// What the server does with what its transport tells it: a request is
    /// handled, a failure of the transport is followed by a pause and a new
    /// bind, and a closed queue ends the receiving.
    pub fn listen_and_serve(&self, event: ServerEvent) -> (action: ServerAction)
        ensures
            action == (match event {
                ServerEvent::Received(data, wants_reply) => ServerAction::Handle(data, wants_reply),
                ServerEvent::TransportFailed => ServerAction::Rebind(3),
                ServerEvent::Closed => ServerAction::Stop,
            }),
    {
        match event {
            ServerEvent::Received(data, wants_reply) => ServerAction::Handle(data, wants_reply),
            ServerEvent::TransportFailed => ServerAction::Rebind(REBIND_DELAY_SECS),
            ServerEvent::Closed => ServerAction::Stop,
        }
    }

    /// Where a request goes: a `MessageGet` under its own message type goes
    /// to the message manager, everything else to the hook bus.
    pub open spec fn routed(typ: MessageType, message: Message) -> Routed {
        match message {
            Message::MessageGet(client_id, topic_filter, group) if typ == 22 => Routed::MessageGet(
                client_id,
                topic_filter,
                group,
            ),
            _ => Routed::Hook(typ, message),
        }
    }

    /// Routes a request.
    pub fn grpc_message_received(&self, typ: MessageType, message: Message) -> (r: Routed)
        ensures
            r == Self::routed(typ, message),
    {
        if typ == MESSAGE_TYPE_MESSAGE_GET {
            match message {
                Message::MessageGet(client_id, topic_filter, group) => Routed::MessageGet(
                    client_id,
                    topic_filter,
                    group,
                ),
                other => Routed::Hook(typ, other),
            }
        } else {
            Routed::Hook(typ, message)
        }
    }

    /// Reads a request and routes it. Bytes that are no request are an error.
    pub fn on_recv_message(&self, req: &[u8]) -> (r: Result<Routed, GrpcError>)
        ensures
            match r {
                Ok(routed) => exists|typ: MessageType, message: Message|
                    request_parsed(req@) == Some((typ, message.deep_view())) && routed
                        == #[trigger] Self::routed(typ, message),
                Err(e) => e == GrpcError::Decode && request_parsed(req@) is None,
            },
    {
        match Message::decode(req) {
            Ok((typ, message)) => {
                let ghost given = message;
                let routed = self.grpc_message_received(typ, message);
                assert(request_parsed(req@) == Some((typ, given.deep_view())));
                Ok(routed)
            },
            Err(e) => Err(e),
        }
    }

    /// The answer of the message manager as a reply: the messages it found,
    /// or its failure in words.
    pub fn message_get_reply(found: Result<Vec<(MsgID, From, Publish)>, String>) -> (reply: MessageReply)
        ensures
            reply == (match found {
                Ok(messages) => MessageReply::MessageGet(messages),
                Err(words) => MessageReply::Error(words),
            }),
    {
        match found {
            Ok(messages) => MessageReply::MessageGet(messages),
            Err(words) => MessageReply::Error(words),
        }
    }

    /// The reply that the accumulator of the hook chain stands for: the reply
    /// or the failure that a handler committed; success where no handler
    /// committed one.
    pub fn hook_reply(acc: Option<HookResult>) -> (r: Result<MessageReply, String>)
        ensures
            r == (match acc {
                Some(HookResult::GrpcMessageReply(reply)) => reply,
                _ => Ok(MessageReply::Success),
            }),
    {
        match acc {
            Some(HookResult::GrpcMessageReply(reply)) => reply,
            _ => Ok(MessageReply::Success),
        }
    }

    /// The bytes that answer a request, where its sender waits for them: the
    /// bytes of the reply; no bytes where there is no reply.
    pub fn reply_bytes(reply: Option<&MessageReply>) -> (r: Result<Vec<u8>, GrpcError>)
        ensures
            r matches Ok(bytes) && bytes@ == (match reply {
                Some(reply) => <MessageReply as Wire>::wire(reply.deep_view()),
                None => Seq::<u8>::empty(),
            }),
    {
        match reply {
            Some(reply) => reply.encode(),
            None => Ok(Vec::new()),
        }
    }
}

/// A count of the requests that are under way.
#[derive(Debug, Clone, Copy, PartialEq, Eq, Structural)]
pub struct Counter {
    pub current: usize,
    /// The most that were under way at once.
    pub max: usize,
}

impl Counter {
    pub fn new() -> (c: Counter)
        ensures
            c.current == 0,
            c.max == 0,
    {
        Counter { current: 0, max: 0 }
    }

    /// One more is under way. The count stays at the largest number there is.
    pub fn inc(&mut self)
        ensures
            final(self).current == if old(self).current < usize::MAX {
                old(self).current + 1
            } else {
                usize::MAX as int
            },
            final(self).max == if final(self).current > old(self).max {
                final(self).current
            } else {
                old(self).max
            },
    {
        if self.current < usize::MAX {
            self.current = self.current + 1;
        }
        if self.current > self.max {
            self.max = self.current;
        }
    }

    /// One less is under way. The count does not go below zero.
    pub fn dec(&mut self)
        ensures
            final(self).current == if old(self).current > 0 {
                old(self).current - 1
            } else {
                0
            },
            final(self).max == old(self).max,
    {
        if self.current > 0 {
            self.current = self.current - 1;
        }
    }

    pub fn count(&self) -> (n: usize)
        ensures
            n == self.current,
    {
        self.current
    }
}

/// How a request to a peer ended.
#[derive(Debug, Clone, PartialEq, Eq)]
pub enum Outcome {
    /// The peer answered with these bytes.
    Replied(Vec<u8>),
    /// The network failed.
    Failed,
    /// The deadline passed.
    TimedOut,
}

/// The client side of the cluster layer, for one peer.
#[derive(Debug, Clone, Copy, PartialEq, Eq, Structural)]
pub struct GrpcClient {
    pub active_tasks: Counter,
}

impl GrpcClient {
    pub fn new() -> (client: GrpcClient)
        ensures
            client.active_tasks.current == 0,
    {
        GrpcClient { active_tasks: Counter::new() }
    }

    /// The count of the requests that are under way.
    pub fn active_tasks(&self) -> (c: &Counter)
        ensures
            *c == self.active_tasks,
    {
        &self.active_tasks
    }

    /// Begins a request that waits for an answer: counts it as under way and
    /// returns the bytes to send. How it ended goes to `received`.
    pub fn send_message(&mut self, typ: MessageType, message: &Message) -> (r: Result<Vec<u8>, GrpcError>)
        ensures
            r matches Ok(bytes) && bytes@ == request_bytes(typ, message.deep_view()),
            final(self).active_tasks.current == if old(self).active_tasks.current < usize::MAX {
                old(self).active_tasks.current + 1
            } else {
                usize::MAX as int
            },
    {
        self.active_tasks.inc();
        message.encode(typ)
    }

    /// Ends a request that waited for an answer, however it ended: it no
    /// longer counts as under way. An answer is read; a failure or a passed
    /// deadline is the error.
    pub fn received(&mut self, outcome: Outcome) -> (r: Result<MessageReply, GrpcError>)
        ensures
            final(self).active_tasks.current == if old(self).active_tasks.current > 0 {
                old(self).active_tasks.current - 1
            } else {
                0
            },
            match outcome {
                Outcome::Replied(bytes) => match r {
                    Ok(reply) => reply_parsed(bytes@) == Some(reply.deep_view()),
                    Err(e) => e == GrpcError::Decode && reply_parsed(bytes@) is None,
                },
                Outcome::Failed => r == Err::<MessageReply, GrpcError>(GrpcError::Transport),
                Outcome::TimedOut => r == Err::<MessageReply, GrpcError>(GrpcError::Timeout),
            },
    {
        self.active_tasks.dec();
        match outcome {
            Outcome::Replied(bytes) => MessageReply::decode(bytes.as_slice()),
            Outcome::Failed => Err(GrpcError::Transport),
            Outcome::TimedOut => Err(GrpcError::Timeout),
        }
    }

    /// Begins a request that waits for no answer. How it ended goes to `notified`.
    pub fn notify(&mut self, typ: MessageType, message: &Message) -> (r: Result<Vec<u8>, GrpcError>)
        ensures
            r matches Ok(bytes) && bytes@ == request_bytes(typ, message.deep_view()),
            final(self).active_tasks.current == if old(self).active_tasks.current < usize::MAX {
                old(self).active_tasks.current + 1
            } else {
                usize::MAX as int
            },
    {
        self.active_tasks.inc();
        message.encode(typ)
    }

    /// Ends a request that waited for no answer, however it ended.
    pub fn notified(&mut self, outcome: Outcome) -> (r: Result<(), GrpcError>)
        ensures
            final(self).active_tasks.current == if old(self).active_tasks.current > 0 {
                old(self).active_tasks.current - 1
            } else {
                0
            },
            r == (match outcome {
                Outcome::Replied(_) => Ok::<(), GrpcError>(()),
                Outcome::Failed => Err(GrpcError::Transport),
                Outcome::TimedOut => Err(GrpcError::Timeout),
            }),
    {
        self.active_tasks.dec();
        match outcome {
            Outcome::Replied(_) => Ok(()),
            Outcome::Failed => Err(GrpcError::Transport),
            Outcome::TimedOut => Err(GrpcError::Timeout),
        }
    }
}

/// A request that is counted when it begins is no longer counted when it has
/// ended, whether it was answered, failed or ran out of time.
pub proof fn law_request_leaves_count(current: usize)
    requires
        current < usize::MAX,
    ensures
        ({
            let begun = current + 1;
            let ended = if begun > 0 {
                begun - 1
            } else {
                0
            };
            ended == current
        }),
{
}

/// The position of the first success, or the number of outcomes where none
/// is a success.
pub open spec fn first_ok<R>(outcomes: Seq<Result<R, GrpcError>>) -> nat
    decreases outcomes.len(),
{
    if outcomes.len() == 0 || outcomes[0] is Ok {
        0
    } else {
        1 + first_ok(outcomes.drop_first())
    }
}

/// What a selection over the outcomes of the peers returns, the outcomes
/// taken in the order in which the peers answered: the first success; where
/// there is none, the last failure.
pub open spec fn selected<R>(outcomes: Seq<Result<R, GrpcError>>) -> Result<R, GrpcError> {
    if first_ok(outcomes) < outcomes.len() {
        outcomes[first_ok(outcomes) as int]
    } else {
        outcomes.last()
    }
}

/// One message for many peers.
#[derive(Debug, Clone, PartialEq, Eq)]
pub struct MessageBroadcaster {
    /// The peers, by node.
    pub nodes: Vec<NodeId>,
    pub msg_type: MessageType,
    pub msg: Message,
    /// The deadline of each request, in milliseconds.
    pub timeout: Option<u64>,
}

impl MessageBroadcaster {
    /// There is a peer, and every peer stands once among the nodes.
    pub open spec fn wf(&self) -> bool {
        self.nodes@.len() > 0 && self.nodes@.no_duplicates()
    }

    /// A broadcast to at least one peer, each peer named once.
    pub fn new(nodes: Vec<NodeId>, msg_type: MessageType, msg: Message, timeout: Option<u64>) -> (r:
        MessageBroadcaster)
        requires
            nodes@.len() > 0,
            nodes@.no_duplicates(),
        ensures
            r.wf(),
            r == (MessageBroadcaster { nodes, msg_type, msg, timeout }),
    {
        MessageBroadcaster { nodes, msg_type, msg, timeout }
    }

    /// The bytes to send to every peer.
    pub fn request(&self) -> (r: Result<Vec<u8>, GrpcError>)
        ensures
            r matches Ok(bytes) && bytes@ == request_bytes(self.msg_type, self.msg.deep_view()),
    {
        self.msg.encode(self.msg_type)
    }

    /// The outcome of every peer, each with its node, in the order in which
    /// the peers answered. `completed` holds, in that order, the position of
    /// each peer among the nodes and how its request ended.
    pub fn join_all(self, completed: Vec<(usize, Result<MessageReply, GrpcError>)>) -> (r: Vec<
        (NodeId, Result<MessageReply, GrpcError>),
    >)
        requires
            forall|i: int| 0 <= i < completed@.len() ==> (#[trigger] completed@[i]).0 < self.nodes@.len(),
        ensures
            r@.len() == completed@.len(),
            forall|i: int|
                0 <= i < r@.len() ==> (#[trigger] r@[i]).0 == self.nodes@[completed@[i].0 as int]
                    && r@[i].1 == completed@[i].1,
    {
        let mut joined: Vec<(NodeId, Result<MessageReply, GrpcError>)> = Vec::new();
        let ghost all = completed@;
        for answer in it: completed
            invariant
                all == completed@,
                forall|i: int| 0 <= i < all.len() ==> (#[trigger] all[i]).0 < self.nodes@.len(),
                joined@.len() == it.index@,
                forall|i: int|
                    0 <= i < it.index@ ==> (#[trigger] joined@[i]).0 == self.nodes@[all[i].0 as int]
                        && joined@[i].1 == all[i].1,
        {
            assert(answer == all[it.index@]);
            let (peer, outcome) = answer;
            joined.push((self.nodes[peer], outcome));
        }
        joined
    }

    /// The result of a race between the peers whose outcomes were already
    /// judged, taken in the order in which the peers answered: the first
    /// success; where there is none, the last failure.
    pub fn first_success<R>(outcomes: Vec<Result<R, GrpcError>>) -> (r: Result<R, GrpcError>)
        requires
            outcomes@.len() > 0,
        ensures
            r == selected(outcomes@),
    {
        let ghost all = outcomes@;
        let mut last: Option<GrpcError> = None;
        assert(all.skip(0) =~= all);
        for outcome in it: outcomes
            invariant
                all == outcomes@,
                all.len() > 0,
                first_ok(all) == it.index@ + first_ok(all.skip(it.index@)),
                it.index@ > 0 ==> last is Some && all[it.index@ - 1] == Err::<R, GrpcError>(last->0),
        {
            let ghost k = it.index@;
            assert(all.skip(k)[0] == all[k]);
            assert(all.skip(k).drop_first() =~= all.skip(k + 1));
            match outcome {
                Ok(value) => {
                    return Ok(value);
                },
                Err(e) => {
                    last = Some(e);
                },
            }
        }
        assert(all.skip(all.len() as int).len() == 0);
        match last {
            Some(e) => Err(e),
            None => Err(GrpcError::Rejected),
        }
    }

    /// The result of a race between the peers. `outcomes` are the outcomes
    /// of the peers, in the order in which they answered. Each reply is
    /// judged by `check_fn` as it comes: the first that it accepts wins, and
    /// what follows is dropped unjudged. Where no peer succeeds, the last
    /// failure is returned.
    pub fn select_ok<R, F>(outcomes: Vec<Result<MessageReply, GrpcError>>, check_fn: F) -> (r: Result<
        R,
        GrpcError,
    >) where F: Fn(MessageReply) -> Result<R, GrpcError>
        requires
            outcomes@.len() > 0,
            forall|reply: MessageReply| call_requires(check_fn, (reply,)),
        ensures
            exists|judgements: Seq<Result<R, GrpcError>>|
                {
                    &&& 0 < judgements.len() <= outcomes@.len()
                    &&& judged_all(check_fn, outcomes@, judgements)
                    &&& judgements.len() < outcomes@.len() ==> judgements.last() is Ok
                    &&& r == #[trigger] selected(judgements)
                },
    {
        let ghost all = outcomes@;
        let ghost mut judgements: Seq<Result<R, GrpcError>> = Seq::empty();
        let mut last: Option<GrpcError> = None;
        for outcome in it: outcomes
            invariant
                all == outcomes@,
                all.len() > 0,
                forall|reply: MessageReply| call_requires(check_fn, (reply,)),
                judgements.len() == it.index@,
                judged_all(check_fn, all, judgements),
                forall|i: int| 0 <= i < judgements.len() ==> (#[trigger] judgements[i]) is Err,
                it.index@ > 0 ==> last is Some && judgements.last() == Err::<R, GrpcError>(last->0),
        {
            assert(outcome == all[it.index@]);
            let judgement = match outcome {
                Ok(reply) => check_fn(reply),
                Err(e) => Err(e),
            };
            proof {
                lemma_first_ok_of_failures(judgements);
                lemma_first_ok_after_failures(judgements, judgement);
                judgements = judgements.push(judgement);
            }
            match judgement {
                Ok(value) => {
                    assert(selected(judgements) == Ok::<R, GrpcError>(value));
                    return Ok(value);
                },
                Err(e) => {
                    last = Some(e);
                },
            }
        }
        proof {
            lemma_first_ok_of_failures(judgements);
            assert(selected(judgements) == judgements.last());
        }
        match last {
            Some(e) => Err(e),
            None => Err(GrpcError::Rejected),
        }
    }
}

/// A race between the peers that is judged reply by reply, as the peers answer.
pub struct Race<R> {
    /// What the check made of the outcomes so far, in the order in which the
    /// peers answered. Only the last of them can be a success.
    pub judgements: Vec<Result<R, GrpcError>>,
}

impl<R> Race<R> {
    /// Only the last judgement can be a success.
    pub open spec fn wf(&self) -> bool {
        forall|i: int| 0 <= i < self.judgements@.len() - 1 ==> (#[trigger] self.judgements@[i]) is Err
    }

    /// Whether a peer has won the race.
    pub open spec fn is_settled(&self) -> bool {
        self.judgements@.len() > 0 && self.judgements@.last() is Ok
    }

    /// A race in which no peer has answered yet.
    pub fn new() -> (race: Race<R>)
        ensures
            race.wf(),
            race.judgements@.len() == 0,
    {
        Race { judgements: Vec::new() }
    }

    /// Whether a peer has won the race.
    pub fn settled(&self) -> (r: bool)
        ensures
            r == self.is_settled(),
    {
        let n = self.judgements.len();
        n > 0 && self.judgements[n - 1].is_ok()
    }

    /// Takes the outcome of the peer that answered next. While no peer has
    /// won, the outcome is judged: a reply by `check_fn`, a failure as the
    /// failure it is. Once a peer has won, what follows is dropped
    /// unjudged. Says whether the race is settled, so that the other peers
    /// need not be waited for.
    pub fn take<F>(&mut self, outcome: Result<MessageReply, GrpcError>, check_fn: F) -> (settled:
        bool) where F: Fn(MessageReply) -> Result<R, GrpcError>
        requires
            old(self).wf(),
            forall|reply: MessageReply| call_requires(check_fn, (reply,)),
        ensures
            final(self).wf(),
            settled == final(self).is_settled(),
            if old(self).is_settled() {
                final(self).judgements@ == old(self).judgements@
            } else {
                &&& final(self).judgements@.len() == old(self).judgements@.len() + 1
                &&& final(self).judgements@.drop_last() == old(self).judgements@
                &&& judged(check_fn, outcome, final(self).judgements@.last())
            },
    {
        if self.settled() {
            return true;
        }
        let judgement = match outcome {
            Ok(reply) => check_fn(reply),
            Err(e) => Err(e),
        };
        let won = judgement.is_ok();
        self.judgements.push(judgement);
        assert(self.judgements@.drop_last() =~= old(self).judgements@);
        won
    }

    /// The result of the race: the reply that won; where no peer won, the
    /// last failure.
    pub fn finish(self) -> (r: Result<R, GrpcError>)
        requires
            self.judgements@.len() > 0,
        ensures
            r == selected(self.judgements@),
    {
        MessageBroadcaster::first_success(self.judgements)
    }
}

/// Whether `judgement` is what the check makes of an outcome: a reply is
/// judged by the check; a failure stays the failure it is.
pub open spec fn judged<R, F: Fn(MessageReply) -> Result<R, GrpcError>>(
    check_fn: F,
    outcome: Result<MessageReply, GrpcError>,
    judgement: Result<R, GrpcError>,
) -> bool {
    match outcome {
        Ok(reply) => call_ensures(check_fn, (reply,), judgement),
        Err(e) => judgement == Err::<R, GrpcError>(e),
    }
}

/// Whether `judgements` are what the check makes of the first outcomes, one by one.
pub open spec fn judged_all<R, F: Fn(MessageReply) -> Result<R, GrpcError>>(
    check_fn: F,
    outcomes: Seq<Result<MessageReply, GrpcError>>,
    judgements: Seq<Result<R, GrpcError>>,
) -> bool {
    &&& judgements.len() <= outcomes.len()
    &&& forall|i: int|
        0 <= i < judgements.len() ==> judged(check_fn, outcomes[i], #[trigger] judgements[i])
}

proof fn lemma_first_ok_of_failures<R>(outcomes: Seq<Result<R, GrpcError>>)
    requires
        forall|i: int| 0 <= i < outcomes.len() ==> (#[trigger] outcomes[i]) is Err,
    ensures
        first_ok(outcomes) == outcomes.len(),
    decreases outcomes.len(),
{
    if outcomes.len() != 0 {
        assert(outcomes[0] is Err);
        assert forall|i: int| 0 <= i < outcomes.drop_first().len() implies (
        #[trigger] outcomes.drop_first()[i]) is Err by {
            assert(outcomes.drop_first()[i] == outcomes[i + 1]);
        }
        lemma_first_ok_of_failures(outcomes.drop_first());
    }
}

proof fn lemma_first_ok_after_failures<R>(failures: Seq<Result<R, GrpcError>>, next: Result<R, GrpcError>)
    requires
        forall|i: int| 0 <= i < failures.len() ==> (#[trigger] failures[i]) is Err,
    ensures
        next is Ok ==> first_ok(failures.push(next)) == failures.len(),
    decreases failures.len(),
{
    if failures.len() != 0 {
        assert(failures[0] is Err);
        assert(failures.push(next)[0] == failures[0]);
        assert(failures.push(next).drop_first() =~= failures.drop_first().push(next));
        assert forall|i: int| 0 <= i < failures.drop_first().len() implies (
        #[trigger] failures.drop_first()[i]) is Err by {
            assert(failures.drop_first()[i] == failures[i + 1]);
        }
        lemma_first_ok_after_failures(failures.drop_first(), next);
    } else {
        assert(failures.push(next)[0] == next);
    }
}

} // verus!
