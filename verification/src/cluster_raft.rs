//! The cluster handler: what a node proposes to the consensus group when a
//! client leaves, and how it answers the requests of its peers.

use vstd::prelude::*;
use crate::grpc::{
    Message, MessageReply, MessageType, OfflineSession, SubsSearchResult,
};
use crate::hook::{HookResult, Parameter, ReturnType};
use crate::types::{Id, NodeId};
use crate::wire::Wire;

verus! {

/// A request that travels in the `Data` of a message between nodes.
#[derive(Debug, Clone, Copy, PartialEq, Eq, Hash, Structural)]
pub enum RaftGrpcMessage {
    GetRaftStatus,
}

/// The answer to a [`RaftGrpcMessage`].
#[derive(Debug, Clone, PartialEq, Eq)]
pub enum RaftGrpcMessageReply {
    /// The status of the consensus group, as the group writes it.
    GetRaftStatus(Vec<u8>),
}

/// What a node proposes to the consensus group.
#[derive(Debug, Clone, PartialEq, Eq)]
pub enum Proposal {
    /// The client of this session is gone.
    Disconnected(Id),
    /// This session has ended.
    SessionTerminated(Id),
}

/// What the handler does next.
#[derive(Debug, PartialEq, Eq)]
pub enum ClusterStep {
    /// The hook is answered.
    Done(ReturnType),
    /// The hook is answered, and the proposal goes to the consensus group.
    /// It is not waited for; where it fails it is tried again.
    Propose(Proposal, ReturnType),
    /// The hook is answered, and the publish of the request is handed to the
    /// subscribers on this node. What cannot be delivered is reported as dropped.
    Forward(ReturnType),
    /// The session named in the request is to be displaced; how that ended
    /// goes to `kicked`.
    Kick,
    /// The subscriptions of this session are to be looked up; what was found
    /// goes to `subscriptions`.
    Subscriptions(Id),
    /// The status of the consensus group is to be asked; what it said goes
    /// to `raft_status`.
    RaftStatus,
}

/// The words with which a request that cannot be read is answered.
pub open spec fn decode_failure() -> Seq<char> {
    "the request cannot be read"@
}

/// The handler of the cluster plugin on one node.
#[derive(Debug, Clone, Copy, PartialEq, Eq, Structural)]
pub struct HookHandler {
    /// The message type under which the peers address this plugin.
    pub message_type: MessageType,
    /// The identifier of this node.
    pub node_id: NodeId,
}

/// The identifier under which a client is looked up on a node.
pub open spec fn lookup_id(node_id: NodeId, client_id: Seq<char>, id: Id) -> bool {
    &&& id.node_id == node_id
    &&& id.lid == 0
    &&& id.local_addr is None
    &&& id.remote_addr is None
    &&& id.client_id@ == client_id
    &&& id.username is None
}

impl HookHandler {
    pub fn new(message_type: MessageType, node_id: NodeId) -> (r: HookHandler)
        ensures
            r.message_type == message_type,
            r.node_id == node_id,
    {
        HookHandler { message_type, node_id }
    }

    /// Whether the parameter is a request for retained messages addressed to
    /// this plugin. The plugin serves none: the request must not reach it.
    pub open spec fn misdirected(&self, param: &Parameter) -> bool {
        *param matches Parameter::GrpcMessageReceived(typ, Message::GetRetains(_)) && typ
            == self.message_type
    }

    /// What the handler does when a hook fires.
    pub open spec fn hook_described(&self, param: &Parameter, acc: Option<HookResult>, step: ClusterStep)
        -> bool {
        match *param {
            Parameter::ClientDisconnected(session, reason) => if reason is ConnectKicked {
                step == ClusterStep::Done((true, acc))
            } else {
                step == ClusterStep::Propose(Proposal::Disconnected(session.id), (true, acc))
            },
            Parameter::SessionTerminated(session, _) => step == ClusterStep::Propose(
                Proposal::SessionTerminated(session.id),
                (true, acc),
            ),
            Parameter::GrpcMessageReceived(typ, message) => if typ != self.message_type {
                step == ClusterStep::Done((true, acc))
            } else {
                match message {
                    Message::ForwardsTo(..) => step == ClusterStep::Forward((false, acc)),
                    Message::Kick(..) => step == ClusterStep::Kick,
                    Message::SubscriptionsGet(client_id) => step matches ClusterStep::Subscriptions(
                        id,
                    ) && lookup_id(self.node_id, client_id@, id),
                    Message::Data(data) => match <RaftGrpcMessage as Wire>::parse(data@) {
                        Some(_) => step == ClusterStep::RaftStatus,
                        None => step matches ClusterStep::Done(
                            (false, Some(HookResult::GrpcMessageReply(Ok(MessageReply::Error(words))))),
                        ) && words@ == decode_failure(),
                    },
                    _ => step == ClusterStep::Done((true, acc)),
                }
            },
            _ => step == ClusterStep::Done((true, acc)),
        }
    }

    /// Handles a hook. A client that leaves without having been displaced,
    /// and a session that ends, are proposed to the consensus group. A request
    /// of a peer under this plugin's message type is served; any other
    /// request, and any other hook, is passed on.
    pub fn hook(&self, param: &Parameter, acc: Option<HookResult>) -> (step: ClusterStep)
        requires
            !self.misdirected(param),
        ensures
            self.hook_described(param, acc, step),
    {
        match param {
            Parameter::ClientDisconnected(session, reason) => {
                if !reason.is_kicked(false) {
                    ClusterStep::Propose(Proposal::Disconnected(session.id.duplicate()), (true, acc))
                } else {
                    ClusterStep::Done((true, acc))
                }
            },
            Parameter::SessionTerminated(session, _) => ClusterStep::Propose(
                Proposal::SessionTerminated(session.id.duplicate()),
                (true, acc),
            ),
            Parameter::GrpcMessageReceived(typ, message) => {
                if self.message_type != *typ {
                    return ClusterStep::Done((true, acc));
                }
                match message {
                    Message::ForwardsTo(..) => ClusterStep::Forward((false, acc)),
                    Message::Kick(..) => ClusterStep::Kick,
                    Message::SubscriptionsGet(client_id) => ClusterStep::Subscriptions(
                        Id {
                            node_id: self.node_id,
                            lid: 0,
                            local_addr: None,
                            remote_addr: None,
                            client_id: client_id.clone(),
                            username: None,
                        },
                    ),
                    Message::Data(data) => {
                        assert(data@.skip(0) =~= data@);
                        match <RaftGrpcMessage as Wire>::decode(data.as_slice(), 0) {
                            Some(_) => ClusterStep::RaftStatus,
                            None => ClusterStep::Done(
                                (
                                    false,
                                    Some(
                                        HookResult::GrpcMessageReply(
                                            Ok(
                                                MessageReply::Error(
                                                    String::from_str("the request cannot be read"),
                                                ),
                                            ),
                                        ),
                                    ),
                                ),
                            ),
                        }
                    },
                    _ => ClusterStep::Done((true, acc)),
                }
            },
            _ => ClusterStep::Done((true, acc)),
        }
    }

    /// The answer to a request to displace a session: the last state of the
    /// session, or why it could not be displaced.
    pub fn kicked(result: Result<OfflineSession, String>) -> (ret: ReturnType)
        ensures
            ret == (
                false,
                Some(
                    HookResult::GrpcMessageReply(
                        match result {
                            Ok(session) => Ok(MessageReply::Kick(session)),
                            Err(words) => Err(words),
                        },
                    ),
                ),
            ),
    {
        match result {
            Ok(session) => (false, Some(HookResult::GrpcMessageReply(Ok(MessageReply::Kick(session))))),
            Err(words) => (false, Some(HookResult::GrpcMessageReply(Err(words)))),
        }
    }

    /// The answer to a request for the subscriptions of a client.
    pub fn subscriptions(found: Option<Vec<SubsSearchResult>>) -> (ret: ReturnType)
        ensures
            ret == (
                false,
                Some(HookResult::GrpcMessageReply(Ok(MessageReply::SubscriptionsGet(found)))),
            ),
    {
        (false, Some(HookResult::GrpcMessageReply(Ok(MessageReply::SubscriptionsGet(found)))))
    }

    /// The answer to a request for the status of the consensus group: the
    /// status, written as the answer of the inner request, or the failure of
    /// the group in words.
    pub fn raft_status(status: Result<Vec<u8>, String>) -> (ret: ReturnType)
        ensures
            ret.0 == false,
            match status {
                Ok(bytes) => ret.1 matches Some(
                    HookResult::GrpcMessageReply(Ok(MessageReply::Data(written))),
                ) && written@ == <RaftGrpcMessageReply as Wire>::wire(
                    crate::codec::RaftGrpcMessageReplyModel::GetRaftStatus(bytes.deep_view()),
                ),
                Err(words) => ret.1 == Some(
                    HookResult::GrpcMessageReply(Ok(MessageReply::Error(words))),
                ),
            },
    {
        match status {
            Ok(bytes) => {
                let reply = RaftGrpcMessageReply::GetRaftStatus(bytes);
                let mut written: Vec<u8> = Vec::new();
                reply.encode(&mut written);
                assert(written@ =~= <RaftGrpcMessageReply as Wire>::wire(reply.deep_view()));
                (false, Some(HookResult::GrpcMessageReply(Ok(MessageReply::Data(written)))))
            },
            Err(words) => (false, Some(HookResult::GrpcMessageReply(Ok(MessageReply::Error(words))))),
        }
    }
}

/// How a proposal that the consensus group did not take is tried again.
#[derive(Debug, Clone, Copy, PartialEq, Eq, Structural)]
pub struct Backoff {
    /// How often a proposal is made at most.
    pub attempts: u32,
    /// For how many milliseconds the first pause lasts. Every pause after it
    /// lasts twice as long as the one before.
    pub first_pause: u64,
}

/// A pause doubled so many times, held at the longest pause there is.
pub open spec fn doubled(pause: u64, times: nat) -> u64
    decreases times,
{
    if times == 0 {
        pause
    } else if doubled(pause, (times - 1) as nat) > u64::MAX / 2 {
        u64::MAX
    } else {
        (doubled(pause, (times - 1) as nat) * 2) as u64
    }
}

impl Backoff {
    /// The way in which proposals are tried again: five attempts, the
    /// first pause ten milliseconds long.
    pub fn proposals() -> (r: Backoff)
        ensures
            r == (Backoff { attempts: 5, first_pause: 10 }),
    {
        Backoff { attempts: 5, first_pause: 10 }
    }

    /// What follows the failure of an attempt, `failed` attempts having
    /// failed by now: the pause before the next attempt, in milliseconds, or
    /// nothing where no attempt is left and the proposal is given up.
    pub open spec fn pause_after(&self, failed: u32) -> Option<u64> {
        if failed == 0 || failed >= self.attempts {
            None
        } else {
            Some(doubled(self.first_pause, (failed - 1) as nat))
        }
    }

    /// The pause before the next attempt, or nothing where the proposal is
    /// given up. Before the first attempt there is no pause.
    pub fn retry(&self, failed: u32) -> (r: Option<u64>)
        ensures
            r == self.pause_after(failed),
    {
        if failed == 0 || failed >= self.attempts {
            return None;
        }
        let mut pause = self.first_pause;
        let mut times: u32 = 0;
        while times < failed - 1
            invariant
                times <= failed - 1,
                failed >= 1,
                pause == doubled(self.first_pause, times as nat),
            decreases failed - 1 - times,
        {
            pause = if pause > u64::MAX / 2 {
                u64::MAX
            } else {
                pause * 2
            };
            times = times + 1;
        }
        Some(pause)
    }
}

} // verus!
