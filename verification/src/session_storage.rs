//! Offline sessions: how their records are named in the store, which of them
//! are brought back when the broker starts, and what is written while a
//! session is offline.

use vstd::prelude::*;
use vstd::slice::{slice_subrange, slice_to_vec};
use crate::hook::{Handler, HookResult, Parameter, ReturnType, Type};
use crate::json::Json;
use crate::text::{bytes_eq, decimal, format_u64, has_prefix, starts_with, str_eq};
use crate::types::{
    same_inflight, same_publish, ClientId, ConnectInfo, DeliverQueue, Disconnect, DisconnectInfo,
    From, Id,
    ListenerId, OutInflightMessage, Publish, Subscribe, TimestampMillis,
};

verus! {

/// The name of a record in the store.
pub type StoredKey = Vec<u8>;

/// One element of a session's list of offline messages.
pub type OfflineMessageOptionType = Option<(ClientId, From, Publish)>;

/// The subscriptions of a session.
pub type SessionSubMap = Vec<Subscribe>;

/// The bytes of `map-`, which begin the name of a session's map record.
pub open spec fn map_prefix() -> Seq<u8> {
    seq![0x6du8, 0x61u8, 0x70u8, 0x2du8]
}

/// The bytes of `list-`, which begin the name of a session's list record.
pub open spec fn list_prefix() -> Seq<u8> {
    seq![0x6cu8, 0x69u8, 0x73u8, 0x74u8, 0x2du8]
}

/// A record name without the prefix, or the name itself where it does not
/// begin with the prefix.
pub open spec fn stripped(name: Seq<u8>, prefix: Seq<u8>) -> Seq<u8> {
    if has_prefix(name, prefix) {
        name.skip(prefix.len() as int)
    } else {
        name
    }
}

/// The name of the map record of the session with this identifier.
pub fn make_map_stored_key(id: &[u8]) -> (key: StoredKey)
    ensures
        key@ == map_prefix() + id@,
{
    let mut key: Vec<u8> = Vec::new();
    key.push(0x6du8);
    key.push(0x61u8);
    key.push(0x70u8);
    key.push(0x2du8);
    assert(key@ =~= map_prefix());
    append_bytes(&mut key, id);
    key
}

/// The name of the list record of the session with this identifier.
pub fn make_list_stored_key(id: &[u8]) -> (key: StoredKey)
    ensures
        key@ == list_prefix() + id@,
{
    let mut key: Vec<u8> = Vec::new();
    key.push(0x6cu8);
    key.push(0x69u8);
    key.push(0x73u8);
    key.push(0x74u8);
    key.push(0x2du8);
    assert(key@ =~= list_prefix());
    append_bytes(&mut key, id);
    key
}

fn append_bytes(out: &mut Vec<u8>, bytes: &[u8])
    ensures
        final(out)@ == old(out)@ + bytes@,
{
    let mut i: usize = 0;
    while i < bytes.len()
        invariant
            i <= bytes.len(),
            out@ == old(out)@ + bytes@.take(i as int),
        decreases bytes.len() - i,
    {
        out.push(bytes[i]);
        assert(bytes@.take(i + 1) =~= bytes@.take(i as int).push(bytes@[i as int]));
        i = i + 1;
    }
    assert(bytes@.take(bytes.len() as int) =~= bytes@);
}

/// The session identifier in the name of a map record.
pub fn map_stored_key_to_id_bytes(stored_key: &[u8]) -> (id: &[u8])
    ensures
        id@ == stripped(stored_key@, map_prefix()),
{
    let prefix: [u8; 4] = [0x6du8, 0x61u8, 0x70u8, 0x2du8];
    assert(prefix@ =~= map_prefix());
    if starts_with(stored_key, prefix.as_slice()) {
        slice_subrange(stored_key, 4, stored_key.len())
    } else {
        stored_key
    }
}

/// The session identifier in the name of a list record.
pub fn list_stored_key_to_id_bytes(stored_key: &[u8]) -> (id: &[u8])
    ensures
        id@ == stripped(stored_key@, list_prefix()),
{
    let prefix: [u8; 5] = [0x6cu8, 0x69u8, 0x73u8, 0x74u8, 0x2du8];
    assert(prefix@ =~= list_prefix());
    if starts_with(stored_key, prefix.as_slice()) {
        slice_subrange(stored_key, 5, stored_key.len())
    } else {
        stored_key
    }
}

/// The identifier that was put into a record name is the one read back from it.
pub proof fn law_stored_key_round_trip(id: Seq<u8>)
    ensures
        stripped(map_prefix() + id, map_prefix()) == id,
        stripped(list_prefix() + id, list_prefix()) == id,
{
    assert((map_prefix() + id).subrange(0, 4) =~= map_prefix());
    assert((map_prefix() + id).skip(4) =~= id);
    assert((list_prefix() + id).subrange(0, 5) =~= list_prefix());
    assert((list_prefix() + id).skip(5) =~= id);
}

/// The bounds that a listener sets for its sessions.
#[derive(Debug, Clone, Copy, PartialEq, Eq)]
pub struct Fitter {
    /// For how long an offline session is kept, in milliseconds.
    pub session_expiry_interval: u64,
    /// How many messages may be on their way to the client at once.
    pub max_inflight: u16,
    /// How many messages may wait for an offline client.
    pub max_mqueue_len: usize,
}

impl Fitter {
    /// For how long the session is kept, in milliseconds: what the client's
    /// DISCONNECT asked for, in seconds, where it named an expiry, else the
    /// listener's setting.
    pub open spec fn expiry_for(&self, disconnect: Option<Disconnect>) -> int {
        match disconnect {
            Some(Disconnect::Mqtt(Some(secs))) => secs * 1000,
            _ => self.session_expiry_interval as int,
        }
    }

    /// For how long the session is kept, in milliseconds.
    pub fn session_expiry_interval(&self, disconnect: Option<&Disconnect>) -> (r: u64)
        ensures
            r == self.expiry_for(
                match disconnect {
                    Some(d) => Some(*d),
                    None => None,
                },
            ),
    {
        match disconnect {
            Some(Disconnect::Mqtt(Some(secs))) => {
                let secs: u64 = *secs as u64;
                secs * 1000
            },
            _ => self.session_expiry_interval,
        }
    }
}

/// The instant from which a session counts as offline: when it disconnected,
/// or when it was last seen where that is not known.
pub open spec fn offline_since(disconnect_info: Option<DisconnectInfo>, last_time: TimestampMillis)
    -> TimestampMillis {
    match disconnect_info {
        Some(info) => if info.disconnected_at <= 0 {
            last_time
        } else {
            info.disconnected_at
        },
        None => last_time,
    }
}

/// How long an offline session still has to live at `now`, in milliseconds:
/// the time it is kept less the time it has been offline.
pub open spec fn expiry_left(
    keep: int,
    disconnect_info: Option<DisconnectInfo>,
    last_time: TimestampMillis,
    now: TimestampMillis,
) -> int {
    keep - (now - offline_since(disconnect_info, last_time))
}

/// A number held to the range of `i64`.
pub open spec fn clamped(n: int) -> i64 {
    if n < i64::MIN {
        i64::MIN
    } else if n > i64::MAX {
        i64::MAX
    } else {
        n as i64
    }
}

/// How long an offline session still has to live at `now`, in milliseconds,
/// held to the range of `i64`. The session has expired where this is not positive.
pub fn session_expiry_interval(
    keep: u64,
    disconnect_info: Option<&DisconnectInfo>,
    last_time: TimestampMillis,
    now: TimestampMillis,
) -> (r: TimestampMillis)
    ensures
        r == clamped(
            expiry_left(
                keep as int,
                match disconnect_info {
                    Some(d) => Some(*d),
                    None => None,
                },
                last_time,
                now,
            ),
        ),
{
    let disconnected_at = match disconnect_info {
        Some(info) => info.disconnected_at,
        None => 0,
    };
    let since = if disconnected_at <= 0 {
        last_time
    } else {
        disconnected_at
    };
    let left: i128 = keep as i128 - (now as i128 - since as i128);
    if left < i64::MIN as i128 {
        i64::MIN
    } else if left > i64::MAX as i128 {
        i64::MAX
    } else {
        left as i64
    }
}

/// Who a stored session belongs to, and when it came to be.
#[derive(Debug, Clone, PartialEq, Eq)]
pub struct Basic {
    pub id: Id,
    pub conn_info: ConnectInfo,
    pub created_at: TimestampMillis,
    pub connected_at: TimestampMillis,
}

/// What the store gave for one field of a record.
#[derive(Debug, Clone, PartialEq, Eq)]
pub enum Loaded<T> {
    Value(T),
    /// The field is not there.
    Missing,
    /// The field is there and could not be read.
    Failed,
}

impl<T> Loaded<T> {
    /// The value, where one was read.
    pub open spec fn value(self) -> Option<T> {
        match self {
            Loaded::Value(v) => Some(v),
            _ => None,
        }
    }

    /// The value, where one was read.
    pub fn into_value(self) -> (r: Option<T>)
        ensures
            r == self.value(),
    {
        match self {
            Loaded::Value(v) => Some(v),
            _ => None,
        }
    }
}

/// The map record of one session, as the store gave it.
#[derive(Debug, Clone, PartialEq, Eq)]
pub struct MapRecord {
    pub name: StoredKey,
    pub basic: Loaded<Basic>,
    pub last_time: Loaded<TimestampMillis>,
    pub subs: Loaded<SessionSubMap>,
    pub disconnect_info: Loaded<DisconnectInfo>,
    pub inflight_messages: Loaded<Vec<OutInflightMessage>>,
}

/// The list record of one session, as the store gave it.
#[derive(Debug, Clone, PartialEq, Eq)]
pub struct ListRecord {
    pub name: StoredKey,
    /// The offline messages, or nothing where the list could not be read.
    pub messages: Option<Vec<OfflineMessageOptionType>>,
}

/// A record that is to leave the store.
#[derive(Debug, Clone, PartialEq, Eq)]
pub enum Purge {
    /// The map record of this name.
    SessionMap(StoredKey),
    /// The list record of this name.
    SessionList(StoredKey),
}

/// The value of a [`Purge`].
pub enum PurgeView {
    SessionMap(Seq<u8>),
    SessionList(Seq<u8>),
}

impl View for Purge {
    type V = PurgeView;

    open spec fn view(&self) -> PurgeView {
        match *self {
            Purge::SessionMap(name) => PurgeView::SessionMap(name@),
            Purge::SessionList(name) => PurgeView::SessionList(name@),
        }
    }
}

/// The values of a list of purges.
pub open spec fn purge_views(purges: Seq<Purge>) -> Seq<PurgeView> {
    Seq::new(purges.len(), |i: int| purges[i]@)
}

/// What is known of one offline session.
#[derive(Debug, Clone, PartialEq, Eq)]
pub struct StoredSessionInfo {
    /// The name of the map record that the session was read from.
    pub name: StoredKey,
    pub basic: Basic,
    /// When the session was last seen; zero where the record does not say.
    pub last_time: TimestampMillis,
    pub subs: Option<SessionSubMap>,
    pub disconnect_info: Option<DisconnectInfo>,
    /// The session's list of offline messages, once its list record is attached.
    pub offline_messages: Option<Vec<OfflineMessageOptionType>>,
    pub inflight_messages: Option<Vec<OutInflightMessage>>,
}

/// The session that a map record describes. A record without readable
/// `BASIC` describes none; the other fields may be missing or unreadable.
pub open spec fn info_of(record: MapRecord) -> Option<StoredSessionInfo> {
    match record.basic {
        Loaded::Value(basic) => Some(
            StoredSessionInfo {
                name: record.name,
                basic,
                last_time: match record.last_time {
                    Loaded::Value(t) => t,
                    _ => 0,
                },
                subs: record.subs.value(),
                disconnect_info: record.disconnect_info.value(),
                offline_messages: None,
                inflight_messages: record.inflight_messages.value(),
            },
        ),
        _ => None,
    }
}

impl StoredSessionInfo {
    /// The identifier under which the session is stored: the name of its map
    /// record without `map-`.
    pub open spec fn id_key(&self) -> Seq<u8> {
        stripped(self.name@, map_prefix())
    }

    /// The session that a map record describes, or the purge of a record
    /// that describes none.
    pub fn from_record(record: MapRecord) -> (r: Result<StoredSessionInfo, Purge>)
        ensures
            r == (match info_of(record) {
                Some(info) => Ok::<StoredSessionInfo, Purge>(info),
                None => Err(Purge::SessionMap(record.name)),
            }),
    {
        match record.basic {
            Loaded::Value(basic) => Ok(
                StoredSessionInfo {
                    name: record.name,
                    basic,
                    last_time: match record.last_time {
                        Loaded::Value(t) => t,
                        _ => 0,
                    },
                    subs: record.subs.into_value(),
                    disconnect_info: record.disconnect_info.into_value(),
                    offline_messages: None,
                    inflight_messages: record.inflight_messages.into_value(),
                },
            ),
            _ => Err(Purge::SessionMap(record.name)),
        }
    }
}

/// The sessions that the map records describe, in the order of the records.
pub open spec fn loaded(maps: Seq<MapRecord>) -> Seq<StoredSessionInfo>
    decreases maps.len(),
{
    if maps.len() == 0 {
        Seq::empty()
    } else {
        match info_of(maps.last()) {
            Some(info) => loaded(maps.drop_last()).push(info),
            None => loaded(maps.drop_last()),
        }
    }
}

/// The purges of the map records that describe no session, in the order of the records.
pub open spec fn map_purges(maps: Seq<MapRecord>) -> Seq<PurgeView>
    decreases maps.len(),
{
    if maps.len() == 0 {
        Seq::empty()
    } else {
        match info_of(maps.last()) {
            Some(_) => map_purges(maps.drop_last()),
            None => map_purges(maps.drop_last()).push(PurgeView::SessionMap(maps.last().name@)),
        }
    }
}

/// The position of the first session stored under `id_key`, or the number of
/// sessions where there is none.
pub open spec fn position(infos: Seq<StoredSessionInfo>, id_key: Seq<u8>) -> nat
    decreases infos.len(),
{
    if infos.len() == 0 || infos[0].id_key() == id_key {
        0
    } else {
        1 + position(infos.drop_first(), id_key)
    }
}

/// A session with its list of offline messages attached.
pub open spec fn with_messages(info: StoredSessionInfo, messages: Vec<OfflineMessageOptionType>)
    -> StoredSessionInfo {
    StoredSessionInfo { offline_messages: Some(messages), ..info }
}

/// The sessions after a list record was attached: the first session stored
/// under the identifier in the record's name gets the messages. A list that
/// could not be read, or that belongs to no session, changes nothing.
pub open spec fn attach_one(infos: Seq<StoredSessionInfo>, list: ListRecord) -> Seq<StoredSessionInfo> {
    let at = position(infos, stripped(list.name@, list_prefix()));
    match list.messages {
        Some(messages) if at < infos.len() => infos.update(
            at as int,
            with_messages(infos[at as int], messages),
        ),
        _ => infos,
    }
}

/// Whether a list record is to leave the store: it could not be read, or it
/// belongs to no session.
pub open spec fn list_is_orphan(infos: Seq<StoredSessionInfo>, list: ListRecord) -> bool {
    list.messages is None || position(infos, stripped(list.name@, list_prefix())) >= infos.len()
}

/// The sessions after the list records were attached, in the order of the records.
pub open spec fn attached(infos: Seq<StoredSessionInfo>, lists: Seq<ListRecord>) -> Seq<
    StoredSessionInfo,
>
    decreases lists.len(),
{
    if lists.len() == 0 {
        infos
    } else {
        attach_one(attached(infos, lists.drop_last()), lists.last())
    }
}

/// The purges of the list records that could not be attached, in the order of the records.
pub open spec fn list_purges(infos: Seq<StoredSessionInfo>, lists: Seq<ListRecord>) -> Seq<PurgeView>
    decreases lists.len(),
{
    if lists.len() == 0 {
        Seq::empty()
    } else if list_is_orphan(attached(infos, lists.drop_last()), lists.last()) {
        list_purges(infos, lists.drop_last()).push(PurgeView::SessionList(lists.last().name@))
    } else {
        list_purges(infos, lists.drop_last())
    }
}

/// Whether two stored sessions belong to the same client.
pub open spec fn same_client(a: StoredSessionInfo, b: StoredSessionInfo) -> bool {
    a.basic.id.client_id@ == b.basic.id.client_id@
}

/// Whether the session at `i` is the latest of its client: no other session of
/// the client was seen later, and of those seen at the same time it stands first.
pub open spec fn is_latest(infos: Seq<StoredSessionInfo>, i: int) -> bool {
    forall|j: int|
        0 <= j < infos.len() && same_client(#[trigger] infos[j], infos[i]) ==> infos[j].last_time
            < infos[i].last_time || (infos[j].last_time == infos[i].last_time && j >= i)
}

/// The positions among the first `k` sessions of those that are the latest of
/// their client, in rising order.
pub open spec fn latest_upto(infos: Seq<StoredSessionInfo>, k: nat) -> Seq<int>
    decreases k,
{
    if k == 0 {
        Seq::empty()
    } else if is_latest(infos, k - 1) {
        latest_upto(infos, (k - 1) as nat).push(k - 1)
    } else {
        latest_upto(infos, (k - 1) as nat)
    }
}

/// The positions among the first `k` sessions of those that are not the
/// latest of their client, in rising order.
pub open spec fn outdated_upto(infos: Seq<StoredSessionInfo>, k: nat) -> Seq<int>
    decreases k,
{
    if k == 0 {
        Seq::empty()
    } else if is_latest(infos, k - 1) {
        outdated_upto(infos, (k - 1) as nat)
    } else {
        outdated_upto(infos, (k - 1) as nat).push(k - 1)
    }
}

/// The sessions that stay when only the latest of each client is kept.
pub open spec fn retained(infos: Seq<StoredSessionInfo>) -> Seq<StoredSessionInfo> {
    latest_upto(infos, infos.len()).map_values(|i: int| infos[i])
}

/// The identifiers of the sessions that leave when only the latest of each
/// client is kept.
pub open spec fn removed_keys(infos: Seq<StoredSessionInfo>) -> Seq<Seq<u8>> {
    outdated_upto(infos, infos.len()).map_values(|i: int| infos[i].id_key())
}

/// The contents of each key.
pub open spec fn key_views(keys: Seq<StoredKey>) -> Seq<Seq<u8>> {
    Seq::new(keys.len(), |i: int| keys[i]@)
}

/// Whether no client has two sessions.
pub open spec fn one_per_client(infos: Seq<StoredSessionInfo>) -> bool {
    forall|a: int, b: int| 0 <= a < b < infos.len() ==> !same_client(infos[a], infos[b])
}

/// The offline sessions that were read from the store. Once only the latest
/// of each client is kept, no client has two.
pub struct StoredSessionInfos {
    pub infos: Vec<StoredSessionInfo>,
}

impl StoredSessionInfos {
    pub fn new() -> (r: StoredSessionInfos)
        ensures
            r.infos@.len() == 0,
    {
        StoredSessionInfos { infos: Vec::new() }
    }

    pub fn len(&self) -> (n: usize)
        ensures
            n == self.infos@.len(),
    {
        self.infos.len()
    }

    /// Adds a session behind those that are there.
    pub fn add(&mut self, info: StoredSessionInfo)
        ensures
            final(self).infos@ == old(self).infos@.push(info),
    {
        self.infos.push(info);
    }

    /// Where the first session stored under `id_key` stands.
    pub fn find(&self, id_key: &[u8]) -> (r: Option<usize>)
        ensures
            match r {
                Some(i) => i == position(self.infos@, id_key@) && i < self.infos@.len(),
                None => position(self.infos@, id_key@) >= self.infos@.len(),
            },
    {
        let mut i: usize = 0;
        assert(self.infos@.skip(0) =~= self.infos@);
        while i < self.infos.len()
            invariant
                i <= self.infos.len(),
                position(self.infos@, id_key@) == i + position(self.infos@.skip(i as int), id_key@),
            decreases self.infos.len() - i,
        {
            assert(self.infos@.skip(i as int)[0] == self.infos@[i as int]);
            if bytes_eq(map_stored_key_to_id_bytes(self.infos[i].name.as_slice()), id_key) {
                return Some(i);
            }
            assert(self.infos@.skip(i as int).drop_first() =~= self.infos@.skip(i + 1));
            i = i + 1;
        }
        None
    }

    /// Gives the first session stored under `id_key` its offline messages.
    /// Says whether there is such a session.
    pub fn set_offline_messages(&mut self, id_key: &[u8], messages: Vec<OfflineMessageOptionType>) -> (ok:
        bool)
        ensures
            ok == (position(old(self).infos@, id_key@) < old(self).infos@.len()),
            ok ==> final(self).infos@ == old(self).infos@.update(
                position(old(self).infos@, id_key@) as int,
                with_messages(old(self).infos@[position(old(self).infos@, id_key@) as int], messages),
            ),
            !ok ==> final(self).infos@ == old(self).infos@,
    {
        match self.find(id_key) {
            Some(i) => {
                let mut info = self.infos.remove(i);
                info.offline_messages = Some(messages);
                self.infos.insert(i, info);
                assert(self.infos@ =~= old(self).infos@.update(
                    i as int,
                    with_messages(old(self).infos@[i as int], messages),
                ));
                true
            },
            None => false,
        }
    }

    /// Whether the session at `i` is the latest of its client.
    pub fn latest_at(&self, i: usize) -> (r: bool)
        requires
            i < self.infos@.len(),
        ensures
            r == is_latest(self.infos@, i as int),
    {
        let mut j: usize = 0;
        while j < self.infos.len()
            invariant
                j <= self.infos.len(),
                i < self.infos@.len(),
                forall|k: int|
                    0 <= k < j && same_client(#[trigger] self.infos@[k], self.infos@[i as int])
                        ==> self.infos@[k].last_time < self.infos@[i as int].last_time || (
                    self.infos@[k].last_time == self.infos@[i as int].last_time && k >= i),
            decreases self.infos.len() - j,
        {
            let later = self.infos[j].last_time > self.infos[i].last_time || (
            self.infos[j].last_time == self.infos[i].last_time && j < i);
            if later && str_eq(
                self.infos[j].basic.id.client_id.as_str(),
                self.infos[i].basic.id.client_id.as_str(),
            ) {
                return false;
            }
            j = j + 1;
        }
        true
    }

    /// Keeps, of each client, only the session that was seen last. Returns the
    /// identifiers of the sessions that left, in the order in which they stood.
    pub fn retain_latests(&mut self) -> (removed: Vec<StoredKey>)
        ensures
            final(self).infos@ == retained(old(self).infos@),
            key_views(removed@) == removed_keys(old(self).infos@),
            one_per_client(final(self).infos@),
    {
        let mut flags: Vec<bool> = Vec::new();
        let mut i: usize = 0;
        while i < self.infos.len()
            invariant
                i <= self.infos.len(),
                *self == *old(self),
                flags@.len() == i,
                forall|k: int| 0 <= k < i ==> flags@[k] == is_latest(self.infos@, k),
            decreases self.infos.len() - i,
        {
            let flag = self.latest_at(i);
            flags.push(flag);
            i = i + 1;
        }
        let mut all: Vec<StoredSessionInfo> = Vec::new();
        std::mem::swap(&mut all, &mut self.infos);
        let ghost before = all@;
        let mut kept: Vec<StoredSessionInfo> = Vec::new();
        let mut removed: Vec<StoredKey> = Vec::new();
        let mut at: usize = 0;
        for info in it: all
            invariant
                at == it.index@,
                at <= before.len(),
                before == old(self).infos@,
                before == all@,
                flags@.len() == before.len(),
                forall|k: int| 0 <= k < before.len() ==> flags@[k] == is_latest(before, k),
                kept@ == latest_upto(before, it.index@ as nat).map_values(|i: int| before[i]),
                key_views(removed@) == outdated_upto(before, it.index@ as nat).map_values(
                    |i: int| before[i].id_key(),
                ),
        {
            let ghost k = it.index@;
            let total = flags.len();
            assert(at < total);
            if flags[at] {
                kept.push(info);
                assert(kept@ =~= latest_upto(before, (k + 1) as nat).map_values(|i: int| before[i]));
                assert(outdated_upto(before, (k + 1) as nat) == outdated_upto(before, k as nat));
            } else {
                let ghost earlier = removed@;
                assert(info == before[k]);
                removed.push(slice_to_vec(map_stored_key_to_id_bytes(info.name.as_slice())));
                assert(key_views(removed@) =~= key_views(earlier).push(before[k].id_key()));
                assert(outdated_upto(before, (k + 1) as nat) == outdated_upto(before, k as nat).push(k));
                assert(key_views(removed@) =~= outdated_upto(before, (k + 1) as nat).map_values(
                    |i: int| before[i].id_key(),
                ));
                assert(latest_upto(before, (k + 1) as nat) == latest_upto(before, k as nat));
            }
            at = at + 1;
        }
        self.infos = kept;
        proof {
            assert forall|a: int, b: int| 0 <= a < b < self.infos@.len() implies !same_client(
                self.infos@[a],
                self.infos@[b],
            ) by {
                law_retained_one_per_client(before, a, b);
            }
        }
        removed
    }
}

/// The purges of the records of the sessions that were stored under these
/// identifiers: for each, its map record and its list record.
pub open spec fn key_purges(keys: Seq<Seq<u8>>) -> Seq<PurgeView>
    decreases keys.len(),
{
    if keys.len() == 0 {
        Seq::empty()
    } else {
        key_purges(keys.drop_last()).push(PurgeView::SessionMap(map_prefix() + keys.last())).push(
            PurgeView::SessionList(list_prefix() + keys.last()),
        )
    }
}

impl StoredSessionInfos {
    /// Takes in what the store holds of offline sessions. Every map record
    /// with a readable `BASIC` becomes a session; the other map records are
    /// purged. Every list record is attached to the session it belongs to;
    /// one that cannot be read or belongs to none is purged. Then only the
    /// latest session of each client stays, and the records of the others are
    /// purged. Returns the purges, in this order.
    pub fn load_offline_session_infos(&mut self, maps: Vec<MapRecord>, lists: Vec<ListRecord>) -> (purges:
        Vec<Purge>)
        ensures
            final(self).infos@ == retained(attached(old(self).infos@ + loaded(maps@), lists@)),
            one_per_client(final(self).infos@),
            purge_views(purges@) == map_purges(maps@) + list_purges(
                old(self).infos@ + loaded(maps@),
                lists@,
            ) + key_purges(removed_keys(attached(old(self).infos@ + loaded(maps@), lists@))),
    {
        let mut purges: Vec<Purge> = Vec::new();
        let ghost all_maps = maps@;
        let ghost all_lists = lists@;
        assert(self.infos@ + loaded(all_maps.take(0)) =~= self.infos@);
        assert(purge_views(purges@) =~= map_purges(all_maps.take(0)));
        for record in it: maps
            invariant
                all_maps == maps@,
                self.infos@ == old(self).infos@ + loaded(all_maps.take(it.index@)),
                purge_views(purges@) == map_purges(all_maps.take(it.index@)),
        {
            let ghost k = it.index@;
            assert(all_maps.take(k + 1).drop_last() =~= all_maps.take(k));
            assert(all_maps.take(k + 1).last() == record);
            let ghost infos_before = self.infos@;
            let ghost purges_before = purges@;
            match StoredSessionInfo::from_record(record) {
                Ok(info) => {
                    self.add(info);
                    assert(self.infos@ =~= old(self).infos@ + loaded(all_maps.take(k + 1)));
                },
                Err(purge) => {
                    purges.push(purge);
                    assert(purge_views(purges@) =~= purge_views(purges_before).push(purge@));
                },
            }
        }
        assert(all_maps.take(all_maps.len() as int) =~= all_maps);
        let ghost base = self.infos@;
        let ghost first = purges@;
        assert(purge_views(first) + list_purges(base, all_lists.take(0)) =~= purge_views(first));
        for list in it: lists
            invariant
                all_lists == lists@,
                base == old(self).infos@ + loaded(all_maps),
                purge_views(first) == map_purges(all_maps),
                self.infos@ == attached(base, all_lists.take(it.index@)),
                purge_views(purges@) == purge_views(first) + list_purges(
                    base,
                    all_lists.take(it.index@),
                ),
        {
            let ghost k = it.index@;
            assert(all_lists.take(k + 1).drop_last() =~= all_lists.take(k));
            assert(all_lists.take(k + 1).last() == list);
            let ghost purges_before = purges@;
            let ListRecord { name, messages } = list;
            let orphan = match messages {
                Some(messages) => {
                    let ok = self.set_offline_messages(
                        list_stored_key_to_id_bytes(name.as_slice()),
                        messages,
                    );
                    !ok
                },
                None => true,
            };
            if orphan {
                let purge = Purge::SessionList(name);
                purges.push(purge);
                assert(purge_views(purges@) =~= purge_views(purges_before).push(purge@));
                assert(purge_views(purges@) =~= purge_views(first) + list_purges(
                    base,
                    all_lists.take(k + 1),
                ));
            }
        }
        assert(all_lists.take(all_lists.len() as int) =~= all_lists);
        let ghost second = purges@;
        let ghost full = self.infos@;
        let removed = self.retain_latests();
        let mut i: usize = 0;
        assert(key_views(removed@).take(0) =~= Seq::<Seq<u8>>::empty());
        assert(purge_views(second) + key_purges(Seq::<Seq<u8>>::empty()) =~= purge_views(second));
        while i < removed.len()
            invariant
                i <= removed.len(),
                purge_views(purges@) == purge_views(second) + key_purges(
                    key_views(removed@).take(i as int),
                ),
            decreases removed.len() - i,
        {
            let ghost purges_before = purges@;
            assert(key_views(removed@).take(i + 1).drop_last() =~= key_views(removed@).take(i as int));
            assert(key_views(removed@).take(i + 1).last() == removed@[i as int]@);
            let map_purge = Purge::SessionMap(make_map_stored_key(removed[i].as_slice()));
            let list_purge = Purge::SessionList(make_list_stored_key(removed[i].as_slice()));
            purges.push(map_purge);
            purges.push(list_purge);
            assert(purge_views(purges@) =~= purge_views(purges_before).push(map_purge@).push(
                list_purge@,
            ));
            assert(purge_views(purges@) =~= purge_views(second) + key_purges(
                key_views(removed@).take(i + 1),
            ));
            i = i + 1;
        }
        assert(key_views(removed@).take(removed.len() as int) =~= key_views(removed@));
        purges
    }
}

/// What `latest_upto` holds: positions below `k`, in rising order, of
/// sessions that are the latest of their client, and all of those.
pub proof fn lemma_latest_upto(infos: Seq<StoredSessionInfo>, k: nat)
    requires
        k <= infos.len(),
    ensures
        forall|a: int|
            0 <= a < latest_upto(infos, k).len() ==> 0 <= (#[trigger] latest_upto(infos, k)[a]) < k
                && is_latest(infos, latest_upto(infos, k)[a]),
        forall|a: int, b: int|
            0 <= a < b < latest_upto(infos, k).len() ==> latest_upto(infos, k)[a] < latest_upto(
                infos,
                k,
            )[b],
        forall|i: int|
            0 <= i < k && is_latest(infos, i) ==> latest_upto(infos, k).contains(i),
        latest_upto(infos, k).len() <= k,
    decreases k,
{
    if k > 0 {
        lemma_latest_upto(infos, (k - 1) as nat);
        let before = latest_upto(infos, (k - 1) as nat);
        let now = latest_upto(infos, k);
        if is_latest(infos, k - 1) {
            assert(now == before.push(k - 1));
            assert(now[now.len() - 1] == k - 1);
            assert forall|i: int| 0 <= i < k && is_latest(infos, i) implies now.contains(i) by {
                if i < k - 1 {
                    let a = choose|a: int| 0 <= a < before.len() && before[a] == i;
                    assert(now[a] == i);
                }
            }
        } else {
            assert(now == before);
        }
    }
}

/// When only the latest session of each client is kept, no client is left
/// with two sessions.
pub proof fn law_retained_one_per_client(infos: Seq<StoredSessionInfo>, a: int, b: int)
    requires
        0 <= a < b < retained(infos).len(),
    ensures
        !same_client(retained(infos)[a], retained(infos)[b]),
{
    lemma_latest_upto(infos, infos.len());
    let positions = latest_upto(infos, infos.len());
    let ia = positions[a];
    let ib = positions[b];
    assert(is_latest(infos, ia) && is_latest(infos, ib));
    assert(ia < ib);
    if same_client(infos[ia], infos[ib]) {
        assert(same_client(infos[ib], infos[ia]));
    }
}

/// Keeping the latest session of each client a second time changes nothing:
/// what the first time kept is kept again, in the same order.
pub proof fn law_retain_twice_is_once(infos: Seq<StoredSessionInfo>)
    ensures
        retained(retained(infos)) == retained(infos),
{
    let once = retained(infos);
    assert forall|i: int| 0 <= i < once.len() implies is_latest(once, i) by {
        assert forall|j: int| 0 <= j < once.len() && same_client(#[trigger] once[j], once[i]) implies
            once[j].last_time < once[i].last_time || (once[j].last_time == once[i].last_time && j
            >= i) by {
            if j < i {
                law_retained_one_per_client(infos, j, i);
            } else if i < j {
                law_retained_one_per_client(infos, i, j);
            }
        }
    }
    lemma_all_latest(once, once.len());
    assert(retained(once) =~= once);
}

proof fn lemma_all_latest(infos: Seq<StoredSessionInfo>, k: nat)
    requires
        k <= infos.len(),
        forall|i: int| 0 <= i < infos.len() ==> is_latest(infos, i),
    ensures
        latest_upto(infos, k) == Seq::new(k, |i: int| i),
    decreases k,
{
    if k > 0 {
        lemma_all_latest(infos, (k - 1) as nat);
        assert(latest_upto(infos, k) =~= Seq::new(k, |i: int| i));
    } else {
        assert(latest_upto(infos, k) =~= Seq::new(k, |i: int| i));
    }
}

/// The session of the client of `infos[i]` that wins among the first `k`
/// sessions and `infos[i]` itself.
pub open spec fn champion(infos: Seq<StoredSessionInfo>, i: int, k: nat) -> int
    decreases k,
{
    if k == 0 {
        i
    } else {
        let c = champion(infos, i, (k - 1) as nat);
        if same_client(infos[k - 1], infos[i]) && (infos[k - 1].last_time > infos[c].last_time || (
        infos[k - 1].last_time == infos[c].last_time && k - 1 < c)) {
            k - 1
        } else {
            c
        }
    }
}

proof fn lemma_champion(infos: Seq<StoredSessionInfo>, i: int, k: nat)
    requires
        0 <= i < infos.len(),
        k <= infos.len(),
    ensures
        0 <= champion(infos, i, k) < infos.len(),
        same_client(infos[champion(infos, i, k)], infos[i]),
        infos[champion(infos, i, k)].last_time >= infos[i].last_time,
        infos[champion(infos, i, k)].last_time == infos[i].last_time ==> champion(infos, i, k) <= i,
        forall|j: int|
            0 <= j < k && same_client(#[trigger] infos[j], infos[i]) ==> infos[j].last_time
                < infos[champion(infos, i, k)].last_time || (infos[j].last_time
                == infos[champion(infos, i, k)].last_time && j >= champion(infos, i, k)),
    decreases k,
{
    if k > 0 {
        lemma_champion(infos, i, (k - 1) as nat);
    }
}

/// Latest wins: of every client that has a session, a session is kept, and
/// none of the client's sessions was seen later than the one that is kept.
pub proof fn law_latest_wins(infos: Seq<StoredSessionInfo>, i: int)
    requires
        0 <= i < infos.len(),
    ensures
        exists|a: int|
            0 <= a < retained(infos).len() && same_client(#[trigger] retained(infos)[a], infos[i])
                && retained(infos)[a].last_time >= infos[i].last_time,
{
    lemma_champion(infos, i, infos.len());
    let c = champion(infos, i, infos.len());
    assert(is_latest(infos, c)) by {
        assert forall|j: int| 0 <= j < infos.len() && same_client(#[trigger] infos[j], infos[c]) implies
            infos[j].last_time < infos[c].last_time || (infos[j].last_time == infos[c].last_time && j
            >= c) by {
            assert(same_client(infos[j], infos[i]));
        }
    }
    lemma_latest_upto(infos, infos.len());
    let positions = latest_upto(infos, infos.len());
    assert(positions.contains(c));
    let a = choose|a: int| 0 <= a < positions.len() && positions[a] == c;
    assert(retained(infos)[a] == infos[c]);
}

/// A listener and the bounds it sets.
#[derive(Debug, Clone, Copy, PartialEq, Eq)]
pub struct ListenCfg {
    pub lid: ListenerId,
    pub fitter: Fitter,
}

/// The position of the first listener with this identifier, or the number of
/// listeners where there is none.
pub open spec fn listener_index(cfgs: Seq<ListenCfg>, lid: ListenerId) -> nat
    decreases cfgs.len(),
{
    if cfgs.len() == 0 || cfgs[0].lid == lid {
        0
    } else {
        1 + listener_index(cfgs.drop_first(), lid)
    }
}

/// The bounds of the listener with this identifier.
pub open spec fn fitter_of(cfgs: Seq<ListenCfg>, lid: ListenerId) -> Option<Fitter> {
    if listener_index(cfgs, lid) < cfgs.len() {
        Some(cfgs[listener_index(cfgs, lid) as int].fitter)
    } else {
        None
    }
}

/// The bounds of the listener with this identifier.
pub fn find_fitter(cfgs: &Vec<ListenCfg>, lid: ListenerId) -> (r: Option<Fitter>)
    ensures
        r == fitter_of(cfgs@, lid),
{
    let mut i: usize = 0;
    assert(cfgs@.skip(0) =~= cfgs@);
    while i < cfgs.len()
        invariant
            i <= cfgs.len(),
            listener_index(cfgs@, lid) == i + listener_index(cfgs@.skip(i as int), lid),
        decreases cfgs.len() - i,
    {
        assert(cfgs@.skip(i as int)[0] == cfgs@[i as int]);
        if cfgs[i].lid == lid {
            return Some(cfgs[i].fitter);
        }
        assert(cfgs@.skip(i as int).drop_first() =~= cfgs@.skip(i + 1));
        i = i + 1;
    }
    None
}

/// What the session's DISCONNECT said, where there was one.
pub open spec fn mqtt_disconnect_of(info: StoredSessionInfo) -> Option<Disconnect> {
    match info.disconnect_info {
        Some(d) => d.mqtt_disconnect,
        None => None,
    }
}

/// How long a stored session still has to live at `now` under these bounds.
pub open spec fn time_left(info: StoredSessionInfo, fitter: Fitter, now: TimestampMillis) -> i64 {
    clamped(
        expiry_left(
            fitter.expiry_for(mqtt_disconnect_of(info)),
            info.disconnect_info,
            info.last_time,
            now,
        ),
    )
}

/// What becomes of a stored session when the broker starts.
pub enum Fate {
    /// Its listener is not configured: it is passed over.
    Unlisted,
    /// Its time has run out: its records are purged.
    Expired,
    /// It is brought back.
    Restored,
}

/// What becomes of a stored session at `now`.
pub open spec fn fate(info: StoredSessionInfo, cfgs: Seq<ListenCfg>, now: TimestampMillis) -> Fate {
    match fitter_of(cfgs, info.basic.id.lid) {
        None => Fate::Unlisted,
        Some(fitter) => if time_left(info, fitter, now) <= 0 {
            Fate::Expired
        } else {
            Fate::Restored
        },
    }
}

/// The messages that a delivery queue of the given length takes from a list
/// of offline messages: in order, as long as there is room; what comes when
/// the queue is full is dropped.
pub open spec fn queued(messages: Seq<OfflineMessageOptionType>, limit: nat) -> Seq<(From, Publish)>
    decreases messages.len(),
{
    if messages.len() == 0 {
        Seq::empty()
    } else {
        let earlier = queued(messages.drop_last(), limit);
        match messages.last() {
            Some((_, from, publish)) if earlier.len() < limit => earlier.push((from, publish)),
            _ => earlier,
        }
    }
}

/// Fills a delivery queue of the given length from a list of offline messages.
pub fn fill_queue(messages: Vec<OfflineMessageOptionType>, limit: usize) -> (queue: DeliverQueue)
    ensures
        queue.wf(),
        queue.capacity == limit,
        queue.items@ == queued(messages@, limit as nat),
{
    let mut queue = DeliverQueue::new(limit);
    let ghost all = messages@;
    for message in it: messages
        invariant
            all == messages@,
            queue.wf(),
            queue.capacity == limit,
            queue.items@ == queued(all.take(it.index@), limit as nat),
    {
        assert(all.take(it.index@ + 1).drop_last() =~= all.take(it.index@));
        assert(all.take(it.index@ + 1).last() == message);
        if let Some((_, from, publish)) = message {
            let _ = queue.push((from, publish));
        }
    }
    assert(all.take(all.len() as int) =~= all);
    queue
}

/// A session that is to be brought back.
#[derive(Debug, Clone, PartialEq, Eq)]
pub struct RebuildSession {
    pub id: Id,
    pub conn_info: ConnectInfo,
    pub created_at: TimestampMillis,
    pub connected_at: TimestampMillis,
    pub max_mqueue_len: usize,
    pub max_inflight: u16,
    pub subs: SessionSubMap,
    pub disconnect_info: DisconnectInfo,
    /// The offline messages that wait for the client.
    pub deliver_queue: DeliverQueue,
    /// The messages that were on their way when the session went offline.
    pub out_inflight: Vec<OutInflightMessage>,
    /// How long the session still has to live, in milliseconds.
    pub session_expiry_interval: u64,
}

/// Whether `session` is the stored session `info` brought back under the
/// bounds `fitter` with `left` milliseconds to live: identity and times as
/// stored, the subscriptions restored, the delivery queue filled with the
/// offline messages, the messages in flight as stored. A session without a
/// disconnect record gets one that dates from when it was last seen.
pub open spec fn restores(session: RebuildSession, info: StoredSessionInfo, fitter: Fitter, left: i64)
    -> bool {
    &&& session.id == info.basic.id
    &&& session.conn_info == info.basic.conn_info
    &&& session.created_at == info.basic.created_at
    &&& session.connected_at == info.basic.connected_at
    &&& session.max_mqueue_len == fitter.max_mqueue_len
    &&& session.max_inflight == fitter.max_inflight
    &&& session.subs@ == (match info.subs {
        Some(subs) => subs@,
        None => Seq::empty(),
    })
    &&& match info.disconnect_info {
        Some(d) => session.disconnect_info == d,
        None => session.disconnect_info.disconnected_at == info.last_time
            && session.disconnect_info.reasons@.len() == 0 && session.disconnect_info.mqtt_disconnect
            is None,
    }
    &&& session.deliver_queue.capacity == fitter.max_mqueue_len
    &&& session.deliver_queue.items@ == queued(
        match info.offline_messages {
            Some(messages) => messages@,
            None => Seq::empty(),
        },
        fitter.max_mqueue_len as nat,
    )
    &&& session.out_inflight@ == (match info.inflight_messages {
        Some(messages) => messages@,
        None => Seq::empty(),
    })
    &&& session.session_expiry_interval == left
}

/// The positions among the first `k` stored sessions of those that are
/// brought back at `now`, in rising order.
pub open spec fn restored_upto(
    infos: Seq<StoredSessionInfo>,
    cfgs: Seq<ListenCfg>,
    now: TimestampMillis,
    k: nat,
) -> Seq<int>
    decreases k,
{
    if k == 0 {
        Seq::empty()
    } else if fate(infos[k - 1], cfgs, now) is Restored {
        restored_upto(infos, cfgs, now, (k - 1) as nat).push(k - 1)
    } else {
        restored_upto(infos, cfgs, now, (k - 1) as nat)
    }
}

/// The identifiers of those among the first `k` stored sessions whose time
/// has run out at `now`, in the order in which they stand.
pub open spec fn expired_upto(
    infos: Seq<StoredSessionInfo>,
    cfgs: Seq<ListenCfg>,
    now: TimestampMillis,
    k: nat,
) -> Seq<Seq<u8>>
    decreases k,
{
    if k == 0 {
        Seq::empty()
    } else if fate(infos[k - 1], cfgs, now) is Expired {
        expired_upto(infos, cfgs, now, (k - 1) as nat).push(infos[k - 1].id_key())
    } else {
        expired_upto(infos, cfgs, now, (k - 1) as nat)
    }
}

/// Whether `sessions` are the stored sessions at `positions` brought back at `now`.
pub open spec fn all_restore(
    sessions: Seq<RebuildSession>,
    positions: Seq<int>,
    infos: Seq<StoredSessionInfo>,
    cfgs: Seq<ListenCfg>,
    now: TimestampMillis,
) -> bool {
    &&& sessions.len() == positions.len()
    &&& forall|a: int|
        #![trigger positions[a]]
        0 <= a < sessions.len() ==> fitter_of(cfgs, infos[positions[a]].basic.id.lid) is Some
            && restores(
            sessions[a],
            infos[positions[a]],
            fitter_of(cfgs, infos[positions[a]].basic.id.lid)->0,
            time_left(
                infos[positions[a]],
                fitter_of(cfgs, infos[positions[a]].basic.id.lid)->0,
                now,
            ),
        )
}

impl StoredSessionInfo {
    /// Brings this session back under the bounds `fitter` with `left`
    /// milliseconds to live.
    fn restore(self, fitter: Fitter, left: i64) -> (session: RebuildSession)
        requires
            left > 0,
        ensures
            restores(session, self, fitter, left),
    {
        let StoredSessionInfo {
            name,
            basic,
            last_time,
            subs,
            disconnect_info,
            offline_messages,
            inflight_messages,
        } = self;
        let disconnect_info = match disconnect_info {
            Some(d) => d,
            None => DisconnectInfo::new(last_time),
        };
        let deliver_queue = match offline_messages {
            Some(messages) => fill_queue(messages, fitter.max_mqueue_len),
            None => {
                let empty = DeliverQueue::new(fitter.max_mqueue_len);
                assert(empty.items@ =~= Seq::<(From, Publish)>::empty());
                empty
            },
        };
        RebuildSession {
            id: basic.id,
            conn_info: basic.conn_info,
            created_at: basic.created_at,
            connected_at: basic.connected_at,
            max_mqueue_len: fitter.max_mqueue_len,
            max_inflight: fitter.max_inflight,
            subs: match subs {
                Some(subs) => subs,
                None => Vec::new(),
            },
            disconnect_info,
            deliver_queue,
            out_inflight: match inflight_messages {
                Some(messages) => messages,
                None => Vec::new(),
            },
            session_expiry_interval: left as u64,
        }
    }

    /// How long this session still has to live at `now` under these bounds.
    pub fn time_left(&self, fitter: &Fitter, now: TimestampMillis) -> (left: i64)
        ensures
            left == time_left(*self, *fitter, now),
    {
        let keep = fitter.session_expiry_interval(
            match &self.disconnect_info {
                Some(d) => d.mqtt_disconnect.as_ref(),
                None => None,
            },
        );
        session_expiry_interval(keep, self.disconnect_info.as_ref(), self.last_time, now)
    }
}

impl StoredSessionInfos {
    /// Decides at `now` what becomes of every stored session. A session whose
    /// listener is not configured is passed over. A session whose time has
    /// run out is dropped and its map and list records are purged. Every
    /// other session is brought back. Returns the sessions to bring back and
    /// the purges, each in the order of the stored sessions.
    pub fn rebuild_offline_sessions(self, listen_cfgs: &Vec<ListenCfg>, now: TimestampMillis) -> (r: (
        Vec<RebuildSession>,
        Vec<Purge>,
    ))
        ensures
            all_restore(
                r.0@,
                restored_upto(self.infos@, listen_cfgs@, now, self.infos@.len()),
                self.infos@,
                listen_cfgs@,
                now,
            ),
            purge_views(r.1@) == key_purges(
                expired_upto(self.infos@, listen_cfgs@, now, self.infos@.len()),
            ),
    {
        let mut sessions: Vec<RebuildSession> = Vec::new();
        let mut purges: Vec<Purge> = Vec::new();
        let ghost infos = self.infos@;
        let ghost cfgs = listen_cfgs@;
        assert(purge_views(purges@) =~= key_purges(expired_upto(infos, cfgs, now, 0)));
        for info in it: self.infos
            invariant
                infos == self.infos@,
                cfgs == listen_cfgs@,
                all_restore(sessions@, restored_upto(infos, cfgs, now, it.index@ as nat), infos, cfgs, now),
                purge_views(purges@) == key_purges(expired_upto(infos, cfgs, now, it.index@ as nat)),
        {
            let ghost k = it.index@;
            assert(info == infos[k]);
            let ghost purges_before = purges@;
            let ghost sessions_before = sessions@;
            match find_fitter(listen_cfgs, info.basic.id.lid) {
                None => {
                    assert(fate(infos[k], cfgs, now) is Unlisted);
                    assert(restored_upto(infos, cfgs, now, (k + 1) as nat) == restored_upto(
                        infos,
                        cfgs,
                        now,
                        k as nat,
                    ));
                    assert(expired_upto(infos, cfgs, now, (k + 1) as nat) == expired_upto(
                        infos,
                        cfgs,
                        now,
                        k as nat,
                    ));
                },
                Some(fitter) => {
                    let left = info.time_left(&fitter, now);
                    if left <= 0 {
                        assert(fate(infos[k], cfgs, now) is Expired);
                        assert(restored_upto(infos, cfgs, now, (k + 1) as nat) == restored_upto(
                            infos,
                            cfgs,
                            now,
                            k as nat,
                        ));
                        let id_key = map_stored_key_to_id_bytes(info.name.as_slice());
                        let map_purge = Purge::SessionMap(make_map_stored_key(id_key));
                        let list_purge = Purge::SessionList(make_list_stored_key(id_key));
                        purges.push(map_purge);
                        purges.push(list_purge);
                        assert(purge_views(purges@) =~= purge_views(purges_before).push(
                            map_purge@,
                        ).push(list_purge@));
                        assert(expired_upto(infos, cfgs, now, (k + 1) as nat).drop_last()
                            =~= expired_upto(infos, cfgs, now, k as nat));
                        } else {
                        let session = info.restore(fitter, left);
                        sessions.push(session);
                        assert(fate(infos[k], cfgs, now) is Restored);
                        assert(expired_upto(infos, cfgs, now, (k + 1) as nat) == expired_upto(
                            infos,
                            cfgs,
                            now,
                            k as nat,
                        ));
                        proof {
                            let earlier = restored_upto(infos, cfgs, now, k as nat);
                            let positions = restored_upto(infos, cfgs, now, (k + 1) as nat);
                            assert(positions == earlier.push(k));
                            assert forall|a: int|
                                #![trigger positions[a]]
                                0 <= a < sessions@.len() implies fitter_of(
                                cfgs,
                                infos[positions[a]].basic.id.lid,
                            ) is Some && restores(
                                sessions@[a],
                                infos[positions[a]],
                                fitter_of(cfgs, infos[positions[a]].basic.id.lid)->0,
                                time_left(
                                    infos[positions[a]],
                                    fitter_of(cfgs, infos[positions[a]].basic.id.lid)->0,
                                    now,
                                ),
                            ) by {
                                if a < sessions_before.len() {
                                    assert(sessions@[a] == sessions_before[a]);
                                    assert(positions[a] == earlier[a]);
                                }
                            }
                        }
                    }
                },
            }
        }
        (sessions, purges)
    }
}

/// What is to be written to the store while a session is offline. The writes
/// are not waited for; a write that fails is logged and forgotten.
#[derive(Debug, Clone, PartialEq, Eq)]
pub enum StorageAction {
    /// Append `item` to the list record `key`. The list holds at most `limit`
    /// elements: where it is full, its oldest element gives way.
    PushOffline { key: StoredKey, item: OfflineMessageOptionType, limit: usize },
    /// Put `messages` in the field `INFLIGHT_MESSAGES` of the map record
    /// `key`, in place of what is there.
    StoreInflight { key: StoredKey, messages: Vec<OutInflightMessage> },
}

/// The bytes of a client identifier, as they stand in record names.
pub open spec fn client_key(client_id: Seq<char>) -> Seq<u8> {
    vstd::utf8::encode_utf8(client_id)
}

/// Whether `action` is the write that the parameter calls for: an offline
/// message is appended to the session's list, bounded by the listener's queue
/// length; the messages in flight replace those in the session's map. Any
/// other parameter calls for none.
pub open spec fn action_described(param: Parameter, action: Option<StorageAction>) -> bool {
    match param {
        Parameter::OfflineMessage(session, from, publish) => {
            &&& action matches Some(StorageAction::PushOffline { key, item, limit })
            &&& key@ == list_prefix() + client_key(session.id.client_id@)
            &&& limit == session.max_mqueue_len
            &&& item matches Some((client_id, f, p))
            &&& client_id@ == session.id.client_id@
            &&& f == from
            &&& same_publish(p, publish)
        },
        Parameter::OfflineInflightMessages(session, inflight) => {
            &&& action matches Some(StorageAction::StoreInflight { key, messages })
            &&& key@ == map_prefix() + client_key(session.id.client_id@)
            &&& messages@.len() == inflight@.len()
            &&& forall|i: int|
                0 <= i < inflight@.len() ==> same_inflight(#[trigger] messages@[i], inflight@[i])
        },
        _ => action is None,
    }
}

/// The handler that keeps the store up to date while sessions are offline.
pub struct OfflineMessageHandler {}

impl OfflineMessageHandler {
    pub fn new() -> OfflineMessageHandler {
        OfflineMessageHandler {  }
    }

    /// The write that the parameter calls for.
    pub fn storage_action(&self, param: &Parameter) -> (action: Option<StorageAction>)
        ensures
            action_described(*param, action),
    {
        match param {
            Parameter::OfflineMessage(session, from, publish) => {
                let key = make_list_stored_key(session.id.client_id.as_str().as_bytes());
                let item = Some((session.id.client_id.clone(), from.duplicate(), publish.duplicate()));
                Some(StorageAction::PushOffline { key, item, limit: session.max_mqueue_len })
            },
            Parameter::OfflineInflightMessages(session, inflight) => {
                let key = make_map_stored_key(session.id.client_id.as_str().as_bytes());
                let mut messages: Vec<OutInflightMessage> = Vec::new();
                let mut i: usize = 0;
                while i < inflight.len()
                    invariant
                        i <= inflight.len(),
                        messages@.len() == i,
                        forall|k: int|
                            0 <= k < i ==> same_inflight(#[trigger] messages@[k], inflight@[k]),
                    decreases inflight.len() - i,
                {
                    messages.push(inflight[i].duplicate());
                    i = i + 1;
                }
                Some(StorageAction::StoreInflight { key, messages })
            },
            _ => None,
        }
    }
}

impl Handler for OfflineMessageHandler {
    /// The chain always goes on, with the accumulator as it was.
    open spec fn outcome(&self, param: &Parameter, acc: Option<HookResult>) -> ReturnType {
        (true, acc)
    }

    fn hook(&self, param: &Parameter, acc: Option<HookResult>) -> (r: ReturnType) {
        (true, acc)
    }
}

/// The handler that brings the offline sessions back before the broker opens
/// its listeners.
pub struct StorageHandler {}

impl StorageHandler {
    pub fn new() -> StorageHandler {
        StorageHandler {  }
    }

    /// Whether the parameter calls for the offline sessions to be rebuilt:
    /// the one that fires before startup does.
    pub fn rebuilds(&self, param: &Parameter) -> (r: bool)
        ensures
            r == (*param is BeforeStartup),
    {
        match param {
            Parameter::BeforeStartup => true,
            _ => false,
        }
    }
}

impl Handler for StorageHandler {
    /// The chain always goes on, with the accumulator as it was.
    open spec fn outcome(&self, param: &Parameter, acc: Option<HookResult>) -> ReturnType {
        (true, acc)
    }

    fn hook(&self, param: &Parameter, acc: Option<HookResult>) -> (r: ReturnType) {
        (true, acc)
    }
}

/// What the rebuild executor is handed.
#[derive(Debug, Clone, PartialEq, Eq)]
pub enum RebuildChanType {
    /// A session to bring back.
    Session(RebuildSession),
    /// The last message: everything before it has been handed over.
    Done,
}

/// What the rebuild executor does with what it is handed.
#[derive(Debug, Clone, PartialEq, Eq)]
pub enum RebuildAction {
    /// Restart the session offline and put it into the session table.
    Restart(RebuildSession),
    /// Wait for the restarts that are under way, then tell the caller that
    /// the rebuild is complete.
    Finish,
}

/// What the rebuild executor is handed for these sessions: each session in
/// order, and behind the last of them the message that ends the rebuild.
pub fn rebuild_messages(sessions: Vec<RebuildSession>) -> (messages: Vec<RebuildChanType>)
    ensures
        messages@.len() == sessions@.len() + 1,
        forall|i: int|
            0 <= i < sessions@.len() ==> #[trigger] messages@[i] == RebuildChanType::Session(
                sessions@[i],
            ),
        messages@[sessions@.len() as int] == RebuildChanType::Done,
{
    let mut messages: Vec<RebuildChanType> = Vec::new();
    let ghost all = sessions@;
    for session in it: sessions
        invariant
            all == sessions@,
            messages@.len() == it.index@,
            forall|i: int|
                0 <= i < it.index@ ==> #[trigger] messages@[i] == RebuildChanType::Session(all[i]),
    {
        assert(session == all[it.index@]);
        messages.push(RebuildChanType::Session(session));
    }
    messages.push(RebuildChanType::Done);
    messages
}

/// How many sessions may wait to be brought back.
pub const REBUILD_QUEUE_CAPACITY: usize = 100_000;

/// After how many sessions the rebuild reports its progress.
pub const REBUILD_REPORT_EVERY: u64 = 5000;

/// What the rebuild executor does with a message.
pub fn rebuild_step(message: RebuildChanType) -> (action: RebuildAction)
    ensures
        action == (match message {
            RebuildChanType::Session(session) => RebuildAction::Restart(session),
            RebuildChanType::Done => RebuildAction::Finish,
        }),
{
    match message {
        RebuildChanType::Session(session) => RebuildAction::Restart(session),
        RebuildChanType::Done => RebuildAction::Finish,
    }
}

/// Whether progress is reported once `completed` sessions are back: at every
/// five thousandth.
pub fn rebuild_report_due(completed: u64) -> (r: bool)
    ensures
        r == (completed > 0 && completed % 5000 == 0),
{
    completed > 0 && completed % REBUILD_REPORT_EVERY == 0
}

/// A count that stops at the statistics limit.
#[derive(Debug, Clone, Copy, PartialEq, Eq)]
pub struct Tally {
    pub count: usize,
}

impl Tally {
    pub fn new() -> (r: Tally)
        ensures
            r.count == 0,
    {
        Tally { count: 0 }
    }

    /// Counts one more record, unless the limit is reached. Says whether the
    /// limit is reached, after which nothing more is counted.
    pub fn observe(&mut self) -> (full: bool)
        ensures
            final(self).count == if old(self).count < 1000 {
                old(self).count + 1
            } else {
                old(self).count as int
            },
            full == (final(self).count >= 1000),
    {
        if self.count < STATS_LIMIT {
            self.count = self.count + 1;
        }
        self.count >= STATS_LIMIT
    }

    /// The count as it is shown: the number, followed by `+` where the limit
    /// was reached and there may be more.
    pub open spec fn shown(&self) -> Seq<char> {
        if self.count >= 1000 {
            decimal(self.count as nat).push('+')
        } else {
            decimal(self.count as nat)
        }
    }

    /// The count as it is shown.
    pub fn label(&self) -> (r: String)
        ensures
            r@ == self.shown(),
    {
        let mut text = format_u64(self.count as u64);
        if self.count >= STATS_LIMIT {
            text.push('+');
        }
        text
    }
}

/// Up to how many records the statistics count.
pub const STATS_LIMIT: usize = 1000;

/// After how many seconds the count for the statistics is given up.
pub const STATS_TIMEOUT_SECS: u64 = 1;

/// Whether a member of a JSON object has this name and is this text.
pub open spec fn text_member(member: (String, Json), name: Seq<char>, text: Seq<char>) -> bool {
    member.0@ == name && (member.1 matches Json::Str(s) && s@ == text)
}

/// Whether `json` is what is told of the store: the number of sessions, of
/// sessions with offline messages and of offline messages, each as it is
/// shown, and what the store tells of itself. Where the count was given up,
/// each number is `Elapsed` and the rest is null.
pub open spec fn attrs_described(stats: Option<(Tally, Tally, Tally, Json)>, json: Json) -> bool {
    &&& json matches Json::Object(members)
    &&& members@.len() == 4
    &&& match stats {
        Some((sessions, offline_sessions, offline_messages, storage_info)) => {
            &&& text_member(members@[0], "session_count"@, sessions.shown())
            &&& text_member(members@[1], "offline_session_count"@, offline_sessions.shown())
            &&& text_member(members@[2], "offline_message_count"@, offline_messages.shown())
            &&& members@[3].0@ == "storage_info"@ && members@[3].1 == storage_info
        },
        None => {
            &&& text_member(members@[0], "session_count"@, "Elapsed"@)
            &&& text_member(members@[1], "offline_session_count"@, "Elapsed"@)
            &&& text_member(members@[2], "offline_message_count"@, "Elapsed"@)
            &&& members@[3].0@ == "storage_info"@ && members@[3].1 is Null
        },
    }
}

/// What is told of the store, from the counts that were taken, or from
/// nothing where the count was given up.
pub fn attrs(stats: Option<(Tally, Tally, Tally, Json)>) -> (json: Json)
    ensures
        attrs_described(stats, json),
{
    let mut members: Vec<(String, Json)> = Vec::new();
    match stats {
        Some((sessions, offline_sessions, offline_messages, storage_info)) => {
            members.push((String::from_str("session_count"), Json::Str(sessions.label())));
            members.push(
                (String::from_str("offline_session_count"), Json::Str(offline_sessions.label())),
            );
            members.push(
                (String::from_str("offline_message_count"), Json::Str(offline_messages.label())),
            );
            members.push((String::from_str("storage_info"), storage_info));
        },
        None => {
            members.push(
                (String::from_str("session_count"), Json::Str(String::from_str("Elapsed"))),
            );
            members.push(
                (String::from_str("offline_session_count"), Json::Str(String::from_str("Elapsed"))),
            );
            members.push(
                (String::from_str("offline_message_count"), Json::Str(String::from_str("Elapsed"))),
            );
            members.push((String::from_str("storage_info"), Json::Null));
        },
    }
    Json::Object(members)
}

/// The hooks for which the storage registers its handlers, each with its priority.
pub fn hooks() -> (r: Vec<(Type, i32)>)
    ensures
        r@ == seq![
            (Type::BeforeStartup, 0i32),
            (Type::OfflineMessage, 0i32),
            (Type::OfflineInflightMessages, 0i32),
        ],
{
    let mut r: Vec<(Type, i32)> = Vec::new();
    r.push((Type::BeforeStartup, 0));
    r.push((Type::OfflineMessage, 0));
    r.push((Type::OfflineInflightMessages, 0));
    r
}

} // verus!
