//! The keeper of retained messages: which backends can serve a cluster, which
//! need an expiry sweep, and what is told of the keeper's state.

use vstd::prelude::*;
use crate::hook::{Handler, HookResult, Parameter, ReturnType, Type};
use crate::json::{Json, JsonNumber};
use crate::types::ServerContext;

verus! {

/// Why retained messages are switched off in a cluster.
pub const ERR_NOT_SUPPORTED: &'static str =
    "The storage engine of the 'rmqtt-retainer' plugin does not support cluster mode!";

/// Every how many seconds expired messages are swept.
pub const SWEEP_INTERVAL_SECS: u64 = 10;

/// Where retained messages are kept.
#[derive(Debug, Clone, Copy, PartialEq, Eq, Hash, Structural)]
pub enum StorageType {
    /// In memory, in a tree by topic.
    Ram,
    /// In an embedded store on disk.
    Sled,
    /// In a remote store.
    Redis,
}

impl StorageType {
    /// Whether every node of a cluster sees what is kept: only a remote store
    /// is shared.
    pub fn support_cluster(&self) -> (r: bool)
        ensures
            r == (*self is Redis),
    {
        match self {
            StorageType::Redis => true,
            _ => false,
        }
    }
}

/// The handler that decides, before the broker starts, whether retained
/// messages are served.
#[derive(Debug, Clone, Copy, PartialEq, Eq, Structural)]
pub struct RetainHandler {
    pub scx: ServerContext,
    pub support_cluster: bool,
}

impl RetainHandler {
    pub fn new(scx: ServerContext, support_cluster: bool) -> (r: RetainHandler)
        ensures
            r.scx == scx,
            r.support_cluster == support_cluster,
    {
        RetainHandler { scx, support_cluster }
    }

    /// Whether retained messages are served: always on a single node; in a
    /// cluster only where the backend is shared between the nodes.
    pub fn retain_enable(&self) -> (r: bool)
        ensures
            r == !(self.scx.cluster && !self.support_cluster),
    {
        !(self.scx.cluster && !self.support_cluster)
    }

    /// Whether the parameter is the one on which the decision is taken: the
    /// one that fires before startup.
    pub fn decides(&self, param: &Parameter) -> (r: bool)
        ensures
            r == (*param is BeforeStartup),
    {
        match param {
            Parameter::BeforeStartup => true,
            _ => false,
        }
    }
}

impl Handler for RetainHandler {
    /// The chain always goes on, with the accumulator as it was.
    open spec fn outcome(&self, param: &Parameter, acc: Option<HookResult>) -> ReturnType {
        (true, acc)
    }

    fn hook(&self, param: &Parameter, acc: Option<HookResult>) -> (r: ReturnType) {
        (true, acc)
    }
}

/// The counters of the in-memory keeper.
#[derive(Debug, Clone, Copy, PartialEq, Eq, Structural)]
pub struct RamStats {
    pub max: u64,
    pub count: u64,
    pub topic_nodes: u64,
    pub topic_values: u64,
}

/// The state of a keeper.
#[derive(Debug)]
pub enum Retainer {
    /// The in-memory keeper, with its counters and the number of messages
    /// that its latest sweep removed.
    Ram(RamStats, usize),
    /// A keeper in a store: the largest and the current number of messages,
    /// the number of writes that wait, and what the store tells of itself.
    Storage(u64, u64, u64, Json),
}

/// Whether a JSON value is this number.
pub open spec fn is_number(json: Json, n: u64) -> bool {
    json == Json::Number(JsonNumber::Unsigned(n))
}

/// Whether a member has this name.
pub open spec fn named(member: (String, Json), name: Seq<char>) -> bool {
    member.0@ == name
}

impl Retainer {
    /// How many expired messages the latest sweep removed. A store expires
    /// its messages itself, so a sweep of it removes none.
    pub fn remove_expired_messages(&self) -> (removed: usize)
        ensures
            removed == (match *self {
                Retainer::Ram(_, swept) => swept,
                Retainer::Storage(..) => 0,
            }),
    {
        match self {
            Retainer::Ram(_, swept) => *swept,
            Retainer::Storage(..) => 0,
        }
    }

    /// Whether `json` is what is told of this keeper.
    pub open spec fn info_described(self, json: Json) -> bool {
        match self {
            Retainer::Ram(stats, _) => {
                &&& json matches Json::Object(members)
                &&& members@.len() == 2
                &&& named(members@[0], "storage_engine"@)
                &&& members@[0].1 matches Json::Str(engine)
                &&& engine@ == "Ram"@
                &&& named(members@[1], "message"@)
                &&& members@[1].1 matches Json::Object(message)
                &&& message@.len() == 4
                &&& named(message@[0], "max"@) && is_number(message@[0].1, stats.max)
                &&& named(message@[1], "count"@) && is_number(message@[1].1, stats.count)
                &&& named(message@[2], "topic_nodes"@) && is_number(message@[2].1, stats.topic_nodes)
                &&& named(message@[3], "topic_values"@) && is_number(
                    message@[3].1,
                    stats.topic_values,
                )
            },
            Retainer::Storage(max, count, msg_queue_count, storage_info) => {
                &&& json matches Json::Object(members)
                &&& members@.len() == 3
                &&& named(members@[0], "storage_info"@) && members@[0].1 == storage_info
                &&& named(members@[1], "msg_queue_count"@) && is_number(
                    members@[1].1,
                    msg_queue_count,
                )
                &&& named(members@[2], "message"@)
                &&& members@[2].1 matches Json::Object(message)
                &&& message@.len() == 2
                &&& named(message@[0], "max"@) && is_number(message@[0].1, max)
                &&& named(message@[1], "count"@) && is_number(message@[1].1, count)
            },
        }
    }

    /// What is told of this keeper, as a JSON object.
    pub fn info(self) -> (json: Json)
        ensures
            self.info_described(json),
    {
        match self {
            Retainer::Ram(stats, _) => {
                let mut message: Vec<(String, Json)> = Vec::new();
                message.push((String::from_str("max"), Json::Number(JsonNumber::Unsigned(stats.max))));
                message.push(
                    (String::from_str("count"), Json::Number(JsonNumber::Unsigned(stats.count))),
                );
                message.push(
                    (
                        String::from_str("topic_nodes"),
                        Json::Number(JsonNumber::Unsigned(stats.topic_nodes)),
                    ),
                );
                message.push(
                    (
                        String::from_str("topic_values"),
                        Json::Number(JsonNumber::Unsigned(stats.topic_values)),
                    ),
                );
                let mut members: Vec<(String, Json)> = Vec::new();
                members.push(
                    (String::from_str("storage_engine"), Json::Str(String::from_str("Ram"))),
                );
                members.push((String::from_str("message"), Json::Object(message)));
                Json::Object(members)
            },
            Retainer::Storage(max, count, msg_queue_count, storage_info) => {
                let mut message: Vec<(String, Json)> = Vec::new();
                message.push((String::from_str("max"), Json::Number(JsonNumber::Unsigned(max))));
                message.push((String::from_str("count"), Json::Number(JsonNumber::Unsigned(count))));
                let mut members: Vec<(String, Json)> = Vec::new();
                members.push((String::from_str("storage_info"), storage_info));
                members.push(
                    (
                        String::from_str("msg_queue_count"),
                        Json::Number(JsonNumber::Unsigned(msg_queue_count)),
                    ),
                );
                members.push((String::from_str("message"), Json::Object(message)));
                Json::Object(members)
            },
        }
    }
}

/// The hooks for which the keeper registers its handler, each with its
/// priority: the one that fires before startup.
pub fn hooks() -> (r: Vec<(Type, i32)>)
    ensures
        r@ == seq![(Type::BeforeStartup, 0i32)],
{
    let mut r: Vec<(Type, i32)> = Vec::new();
    r.push((Type::BeforeStartup, 0));
    r
}

} // verus!
