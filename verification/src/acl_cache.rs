//! The cache of publish verdicts: for a session and a topic, the verdict that
//! the HTTP backend gave and the instant until which it may be served.

use vstd::prelude::*;
use dashmap::DashMap;
use std::collections::BTreeMap;
use crate::types::{
    addr_opt_view, duplicate_string_opt, string_opt_view, Addr, AddrView, Id, IdView, Superuser,
    TimestampMillis, TopicName,
};

verus! {

/// The three-valued outcome of an authentication or an access check.
#[derive(Debug, Clone, Copy, PartialEq, Eq, Hash, Structural)]
pub enum Permission {
    Allow(Superuser),
    Deny,
    /// No opinion: the next handler decides.
    Ignore,
}

/// `dashmap::DashMap`, a hash map that is shared between threads.
#[verifier::external_type_specification]
#[verifier::external_body]
#[verifier::reject_recursive_types(K)]
#[verifier::reject_recursive_types(V)]
#[verifier::reject_recursive_types(S)]
pub struct ExDashMap<K, V, S>(DashMap<K, V, S>);

/// A session's identity as the key of the map: the fields of its [`Id`], in
/// the order in which they are declared, an address as text and port.
pub type IdKey = (u64, u16, Option<(String, u16)>, Option<(String, u16)>, String, Option<String>);

/// The concurrent map behind the cache: per session, the verdicts by topic.
pub type CacheMap = DashMap<IdKey, BTreeMap<TopicName, (Permission, TimestampMillis)>>;

/// The address that a key holds.
pub open spec fn key_addr(addr: Option<(String, u16)>) -> Option<AddrView> {
    match addr {
        Some((ip, port)) => Some(AddrView { ip: ip@, port }),
        None => None,
    }
}

/// The identity that a key stands for.
pub open spec fn key_view(key: IdKey) -> IdView {
    IdView {
        node_id: key.0,
        lid: key.1,
        local_addr: key_addr(key.2),
        remote_addr: key_addr(key.3),
        client_id: key.4@,
        username: string_opt_view(key.5),
    }
}

fn addr_key(addr: &Option<Addr>) -> (r: Option<(String, u16)>)
    ensures
        key_addr(r) == addr_opt_view(*addr),
{
    match addr {
        Some(a) => Some((a.ip.clone(), a.port)),
        None => None,
    }
}

impl Id {
    /// This identity as the key of the map.
    pub fn key(&self) -> (key: IdKey)
        ensures
            key_view(key) == self@,
    {
        (
            self.node_id,
            self.lid,
            addr_key(&self.local_addr),
            addr_key(&self.remote_addr),
            self.client_id.clone(),
            duplicate_string_opt(&self.username),
        )
    }
}

/// What the map holds: the verdict and expiry stored for a session and a topic.
pub uninterp spec fn cache_entries(map: CacheMap) -> Map<
    (IdView, Seq<char>),
    (Permission, TimestampMillis),
>;

/// `DashMap::new`: a map that holds nothing.
#[verifier::external_body]
fn map_new() -> (fresh: CacheMap)
    ensures
        cache_entries(fresh).dom() == Set::<(IdView, Seq<char>)>::empty(),
{
    DashMap::new()
}

/// `DashMap::entry`, then `or_default` and `BTreeMap::insert` on the session's
/// topics: the pair is stored under the session and the topic, replacing what
/// was there; nothing else changes.
#[verifier::external_body]
fn map_store(
    map: &mut CacheMap,
    key: IdKey,
    topic: TopicName,
    perm: Permission,
    expire: TimestampMillis,
)
    ensures
        cache_entries(*final(map)) == cache_entries(*old(map)).insert(
            (key_view(key), topic@),
            (perm, expire),
        ),
{
    map.entry(key).or_default().insert(topic, (perm, expire));
}

/// `DashMap::get`, then `BTreeMap::get` on the session's topics: the pair stored
/// under the session and the topic, if there is one.
#[verifier::external_body]
fn map_fetch(map: &CacheMap, key: &IdKey, topic: &TopicName) -> (r: Option<
    (Permission, TimestampMillis),
>)
    ensures
        r == if cache_entries(*map).contains_key((key_view(*key), topic@)) {
            Some(cache_entries(*map)[(key_view(*key), topic@)])
        } else {
            None
        },
{
    map.get(key).and_then(|topics| topics.get(topic).map(|entry| (entry.0, entry.1)))
}

/// `DashMap::remove`: everything stored under the session leaves; the other
/// sessions keep what they have.
#[verifier::external_body]
fn map_forget(map: &mut CacheMap, key: &IdKey)
    ensures
        cache_entries(*final(map)) == cache_entries(*old(map)).restrict(
            Set::new(|entry: (IdView, Seq<char>)| entry.0 != key_view(*key)),
        ),
{
    map.remove(key);
}

/// `DashMap::get_mut`, then `BTreeMap::remove` on the session's topics: the pair
/// stored under the session and the topic leaves, if there is one.
#[verifier::external_body]
fn map_evict(map: &mut CacheMap, key: &IdKey, topic: &TopicName)
    ensures
        cache_entries(*final(map)) == cache_entries(*old(map)).remove((key_view(*key), topic@)),
{
    if let Some(mut topics) = map.get_mut(key) {
        topics.remove(topic);
    }
}

/// Whether an entry that expires at `expire` may be served at `now`: a negative
/// expiry never runs out, any other runs out when `now` reaches it.
pub open spec fn is_fresh(expire: TimestampMillis, now: TimestampMillis) -> bool {
    expire < 0 || now < expire
}

/// What a lookup at `now` serves from `entries`.
pub open spec fn served(
    entries: Map<(IdView, Seq<char>), (Permission, TimestampMillis)>,
    id: IdView,
    topic: Seq<char>,
    now: TimestampMillis,
) -> Option<(Permission, TimestampMillis)> {
    if entries.contains_key((id, topic)) && is_fresh(entries[(id, topic)].1, now) {
        Some(entries[(id, topic)])
    } else {
        None
    }
}

/// What is left of `entries` when the session `id` disconnects.
pub open spec fn without_session(
    entries: Map<(IdView, Seq<char>), (Permission, TimestampMillis)>,
    id: IdView,
) -> Map<(IdView, Seq<char>), (Permission, TimestampMillis)> {
    entries.restrict(Set::new(|key: (IdView, Seq<char>)| key.0 != id))
}

/// The cache of publish verdicts.
pub struct AclCache {
    pub map: CacheMap,
}

impl AclCache {
    /// The entries of the cache.
    pub open spec fn entries(&self) -> Map<(IdView, Seq<char>), (Permission, TimestampMillis)> {
        cache_entries(self.map)
    }

    /// An empty cache.
    pub fn new() -> (cache: AclCache)
        ensures
            cache.entries() =~= Map::<(IdView, Seq<char>), (Permission, TimestampMillis)>::empty(),
    {
        AclCache { map: map_new() }
    }

    /// Stores a verdict for the session and the topic, with the instant in
    /// milliseconds at which it runs out; a negative instant means never.
    pub fn cache_set(&mut self, id: Id, topic: TopicName, perm: Permission, expire: TimestampMillis)
        ensures
            final(self).entries() == old(self).entries().insert((id@, topic@), (perm, expire)),
    {
        map_store(&mut self.map, id.key(), topic, perm, expire);
    }

    /// The verdict and expiry that the cache serves at `now` for the session
    /// and the topic: what is stored, unless it has run out.
    pub fn cache_get(&self, id: &Id, topic: &TopicName, now: TimestampMillis) -> (r: Option<
        (Permission, TimestampMillis),
    >)
        ensures
            r == served(self.entries(), id@, topic@, now),
    {
        match map_fetch(&self.map, &id.key(), topic) {
            Some((perm, expire)) => {
                if expire < 0 || now < expire {
                    Some((perm, expire))
                } else {
                    None
                }
            },
            None => None,
        }
    }

    /// What is stored for the session and the topic, whether it may still be
    /// served or not. This tells what the cache holds, not what it answers.
    pub fn stored(&self, id: &Id, topic: &TopicName) -> (r: Option<(Permission, TimestampMillis)>)
        ensures
            r == if self.entries().contains_key((id@, topic@)) {
                Some(self.entries()[(id@, topic@)])
            } else {
                None
            },
    {
        map_fetch(&self.map, &id.key(), topic)
    }

    /// Drops everything stored for the session.
    pub fn cache_remove(&mut self, id: &Id)
        ensures
            final(self).entries() == without_session(old(self).entries(), id@),
    {
        map_forget(&mut self.map, &id.key());
    }

    /// The verdict to serve at `now` for the session and the topic. A stale
    /// entry is never served; it is dropped from the cache on this access.
    pub fn lookup(&mut self, id: &Id, topic: &TopicName, now: TimestampMillis) -> (r: Option<
        (Permission, TimestampMillis),
    >)
        ensures
            r == served(old(self).entries(), id@, topic@, now),
            final(self).entries() == if old(self).entries().contains_key((id@, topic@)) && r is None {
                old(self).entries().remove((id@, topic@))
            } else {
                old(self).entries()
            },
    {
        let key = id.key();
        match map_fetch(&self.map, &key, topic) {
            Some((perm, expire)) => {
                if expire < 0 || now < expire {
                    Some((perm, expire))
                } else {
                    map_evict(&mut self.map, &key, topic);
                    None
                }
            },
            None => None,
        }
    }
}

/// After a verdict is stored with a positive expiry `e`, a lookup for the same
/// session and topic serves it as long as the clock is before `e`, and serves
/// nothing once the clock has reached `e`.
pub proof fn law_set_then_lookup(
    entries: Map<(IdView, Seq<char>), (Permission, TimestampMillis)>,
    id: IdView,
    topic: Seq<char>,
    perm: Permission,
    expire: TimestampMillis,
    now: TimestampMillis,
)
    requires
        expire > 0,
    ensures
        now < expire ==> served(entries.insert((id, topic), (perm, expire)), id, topic, now) == Some(
            (perm, expire),
        ),
        now >= expire ==> served(entries.insert((id, topic), (perm, expire)), id, topic, now)
            is None,
{
}

/// No lookup serves an entry whose expiry is positive and lies before the clock.
pub proof fn law_never_serves_stale(
    entries: Map<(IdView, Seq<char>), (Permission, TimestampMillis)>,
    id: IdView,
    topic: Seq<char>,
    now: TimestampMillis,
)
    ensures
        served(entries, id, topic, now) matches Some(entry) ==> !(entry.1 > 0 && entry.1 < now),
{
}

/// Once a session has disconnected, nothing is stored for it under any topic,
/// and nothing is served for it at any time.
pub proof fn law_disconnect_clears_session(
    entries: Map<(IdView, Seq<char>), (Permission, TimestampMillis)>,
    id: IdView,
    topic: Seq<char>,
    now: TimestampMillis,
)
    ensures
        !without_session(entries, id).contains_key((id, topic)),
        served(without_session(entries, id), id, topic, now) is None,
{
}

/// A disconnect leaves the entries of every other session as they were.
pub proof fn law_disconnect_keeps_others(
    entries: Map<(IdView, Seq<char>), (Permission, TimestampMillis)>,
    id: IdView,
    other: IdView,
    topic: Seq<char>,
    now: TimestampMillis,
)
    requires
        other != id,
    ensures
        served(without_session(entries, id), other, topic, now) == served(entries, other, topic, now),
{
}

} // verus!
