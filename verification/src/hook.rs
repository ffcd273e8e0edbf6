//! The hook bus: handlers registered for a hook type are called in descending
//! priority, each receiving the accumulator that the one before it left, until
//! one of them ends the chain.

use vstd::prelude::*;
use crate::grpc::{Message, MessageReply, MessageType};
use crate::types::{
    AuthInfo, ConnectAckReason, ConnectInfo, From, OutInflightMessage, Publish, QoS, Reason,
    Session, Subscribe, SubscribeAckReason, Subscribed, Superuser, To, Unsubscribe,
};

verus! {

pub type Exit = bool;

pub type Disconnect = bool;

pub type Deny = bool;

pub type MessageExpiry = bool;

/// What a handler returns: whether the chain goes on, and the accumulator it leaves.
pub type ReturnType = (bool, Option<HookResult>);

/// The extension points of the broker.
#[derive(Debug, Clone, Copy, PartialEq, Eq, Hash, Structural)]
pub enum Type {
    BeforeStartup,
    SessionCreated,
    SessionTerminated,
    SessionSubscribed,
    SessionUnsubscribed,
    ClientAuthenticate,
    ClientConnect,
    ClientConnack,
    ClientConnected,
    ClientDisconnected,
    ClientSubscribe,
    ClientUnsubscribe,
    ClientSubscribeCheckAcl,
    ClientKeepalive,
    MessagePublishCheckAcl,
    MessagePublish,
    MessageDeliver,
    MessageAcked,
    MessageDropped,
    MessageExpiryCheck,
    OfflineMessage,
    OfflineInflightMessages,
    GrpcMessageReceived,
}

/// What a handler is told when its hook fires.
#[derive(Debug, PartialEq, Eq)]
pub enum Parameter {
    BeforeStartup,
    SessionCreated(Session),
    SessionTerminated(Session, Reason),
    SessionSubscribed(Session, Subscribed),
    SessionUnsubscribed(Session, Unsubscribe),
    ClientAuthenticate(ConnectInfo),
    ClientConnect(ConnectInfo),
    ClientConnack(ConnectInfo, ConnectAckReason),
    ClientConnected(Session),
    ClientDisconnected(Session, Reason),
    ClientSubscribe(Session, Subscribe),
    ClientUnsubscribe(Session, Unsubscribe),
    ClientSubscribeCheckAcl(Session, Subscribe),
    ClientKeepalive(Session, bool),
    MessagePublishCheckAcl(Session, Publish),
    MessagePublish(Option<Session>, From, Publish),
    MessageDeliver(Session, From, Publish),
    MessageAcked(Session, From, Publish),
    MessageDropped(Option<To>, From, Publish, Reason),
    MessageExpiryCheck(Session, From, Publish),
    OfflineMessage(Session, From, Publish),
    OfflineInflightMessages(Session, Vec<OutInflightMessage>),
    GrpcMessageReceived(MessageType, Message),
}

impl Parameter {
    /// The hook type that this parameter belongs to.
    pub open spec fn type_of(&self) -> Type {
        match *self {
            Parameter::BeforeStartup => Type::BeforeStartup,
            Parameter::SessionCreated(..) => Type::SessionCreated,
            Parameter::SessionTerminated(..) => Type::SessionTerminated,
            Parameter::SessionSubscribed(..) => Type::SessionSubscribed,
            Parameter::SessionUnsubscribed(..) => Type::SessionUnsubscribed,
            Parameter::ClientAuthenticate(..) => Type::ClientAuthenticate,
            Parameter::ClientConnect(..) => Type::ClientConnect,
            Parameter::ClientConnack(..) => Type::ClientConnack,
            Parameter::ClientConnected(..) => Type::ClientConnected,
            Parameter::ClientDisconnected(..) => Type::ClientDisconnected,
            Parameter::ClientSubscribe(..) => Type::ClientSubscribe,
            Parameter::ClientUnsubscribe(..) => Type::ClientUnsubscribe,
            Parameter::ClientSubscribeCheckAcl(..) => Type::ClientSubscribeCheckAcl,
            Parameter::ClientKeepalive(..) => Type::ClientKeepalive,
            Parameter::MessagePublishCheckAcl(..) => Type::MessagePublishCheckAcl,
            Parameter::MessagePublish(..) => Type::MessagePublish,
            Parameter::MessageDeliver(..) => Type::MessageDeliver,
            Parameter::MessageAcked(..) => Type::MessageAcked,
            Parameter::MessageDropped(..) => Type::MessageDropped,
            Parameter::MessageExpiryCheck(..) => Type::MessageExpiryCheck,
            Parameter::OfflineMessage(..) => Type::OfflineMessage,
            Parameter::OfflineInflightMessages(..) => Type::OfflineInflightMessages,
            Parameter::GrpcMessageReceived(..) => Type::GrpcMessageReceived,
        }
    }

    /// The hook type that this parameter belongs to.
    pub fn get_type(&self) -> (t: Type)
        ensures
            t == self.type_of(),
    {
        match self {
            Parameter::BeforeStartup => Type::BeforeStartup,
            Parameter::SessionCreated(..) => Type::SessionCreated,
            Parameter::SessionTerminated(..) => Type::SessionTerminated,
            Parameter::SessionSubscribed(..) => Type::SessionSubscribed,
            Parameter::SessionUnsubscribed(..) => Type::SessionUnsubscribed,
            Parameter::ClientAuthenticate(..) => Type::ClientAuthenticate,
            Parameter::ClientConnect(..) => Type::ClientConnect,
            Parameter::ClientConnack(..) => Type::ClientConnack,
            Parameter::ClientConnected(..) => Type::ClientConnected,
            Parameter::ClientDisconnected(..) => Type::ClientDisconnected,
            Parameter::ClientSubscribe(..) => Type::ClientSubscribe,
            Parameter::ClientUnsubscribe(..) => Type::ClientUnsubscribe,
            Parameter::ClientSubscribeCheckAcl(..) => Type::ClientSubscribeCheckAcl,
            Parameter::ClientKeepalive(..) => Type::ClientKeepalive,
            Parameter::MessagePublishCheckAcl(..) => Type::MessagePublishCheckAcl,
            Parameter::MessagePublish(..) => Type::MessagePublish,
            Parameter::MessageDeliver(..) => Type::MessageDeliver,
            Parameter::MessageAcked(..) => Type::MessageAcked,
            Parameter::MessageDropped(..) => Type::MessageDropped,
            Parameter::MessageExpiryCheck(..) => Type::MessageExpiryCheck,
            Parameter::OfflineMessage(..) => Type::OfflineMessage,
            Parameter::OfflineInflightMessages(..) => Type::OfflineInflightMessages,
            Parameter::GrpcMessageReceived(..) => Type::GrpcMessageReceived,
        }
    }
}

/// The outcome of authenticating a client.
#[derive(Debug, Clone, PartialEq, Eq)]
pub enum AuthResult {
    Allow(Superuser, Option<AuthInfo>),
    BadUsernameOrPassword,
    NotAuthorized,
}

/// The outcome of checking one subscription against the access rules.
#[derive(Debug, Clone, Copy, PartialEq, Eq, Structural)]
pub enum SubscribeAclResult {
    /// Granted, at this quality of service.
    Success(QoS),
    /// Refused, with the reason to acknowledge.
    Failure(SubscribeAckReason),
}

impl SubscribeAclResult {
    pub fn new_success(qos: QoS) -> (r: SubscribeAclResult)
        ensures
            r == SubscribeAclResult::Success(qos),
    {
        SubscribeAclResult::Success(qos)
    }

    pub fn new_failure(reason: SubscribeAckReason) -> (r: SubscribeAclResult)
        ensures
            r == SubscribeAclResult::Failure(reason),
    {
        SubscribeAclResult::Failure(reason)
    }

    /// Whether the subscription was refused.
    pub fn failure(&self) -> (r: bool)
        ensures
            r == (*self is Failure),
    {
        match self {
            SubscribeAclResult::Failure(_) => true,
            SubscribeAclResult::Success(_) => false,
        }
    }
}

/// The outcome of checking one publish against the access rules.
#[derive(Debug, Clone, Copy, PartialEq, Eq, Structural)]
pub enum PublishAclResult {
    Allow,
    /// Refused; the flag says whether the connection is to be closed.
    Rejected(Disconnect),
}

/// The accumulator of a hook dispatch.
#[derive(Debug, PartialEq, Eq)]
pub enum HookResult {
    /// The program is to exit.
    Exit,
    /// The connection is to be closed.
    Disconnect,
    /// The message has expired.
    MessageExpiry,
    AuthResult(AuthResult),
    SubscribeAclResult(SubscribeAclResult),
    PublishAclResult(PublishAclResult),
    /// The answer to a message from another node, or why there is none.
    GrpcMessageReply(Result<MessageReply, String>),
}

/// A handler observes a parameter and may amend the accumulator.
pub trait Handler {
    /// What the handler answers. A handler is a function of what it is given.
    spec fn outcome(&self, param: &Parameter, acc: Option<HookResult>) -> ReturnType;

    fn hook(&self, param: &Parameter, acc: Option<HookResult>) -> (r: ReturnType)
        ensures
            r == self.outcome(param, acc),
    ;
}


/// One registered handler.
pub struct HandlerEntry<H> {
    pub typ: Type,
    pub priority: i32,
    /// The token that `register` handed out for this handler.
    pub token: u64,
    /// Whether dispatches reach this handler.
    pub enabled: bool,
    pub handler: H,
}

impl<H> HandlerEntry<H> {
    /// Whether a dispatch for `typ` calls this handler: it is registered
    /// for the type and switched on.
    pub open spec fn serves(&self, typ: Type) -> bool {
        self.typ == typ && self.enabled
    }
}

/// Whether the priorities of a chain never rise from front to back.
pub open spec fn descending<H>(chain: Seq<HandlerEntry<H>>) -> bool {
    forall|i: int, j: int| 0 <= i < j < chain.len() ==> chain[i].priority >= chain[j].priority
}

/// Where a handler of the given priority goes: behind every handler whose
/// priority is at least as high, so behind the earlier ones of its own priority.
pub open spec fn insertion_point<H>(chain: Seq<HandlerEntry<H>>, priority: i32) -> nat
    decreases chain.len(),
{
    if chain.len() == 0 || chain[0].priority < priority {
        0
    } else {
        1 + insertion_point(chain.drop_first(), priority)
    }
}

/// The accumulator that a chain leaves: the handlers that serve `typ` are
/// called from front to back, each with the accumulator of the one before; the
/// first that does not proceed ends the chain with its accumulator.
pub open spec fn run<H: Handler>(chain: Seq<HandlerEntry<H>>, typ: Type, param: &Parameter, acc: Option<HookResult>)
    -> Option<HookResult>
    decreases chain.len(),
{
    if chain.len() == 0 {
        acc
    } else if !chain[0].serves(typ) {
        run(chain.drop_first(), typ, param, acc)
    } else {
        let (proceed, next) = chain[0].handler.outcome(param, acc);
        if proceed {
            run(chain.drop_first(), typ, param, next)
        } else {
            next
        }
    }
}

/// The registry of handlers and the dispatcher.
pub struct HookBus<H> {
    pub entries: Vec<HandlerEntry<H>>,
    pub running: bool,
    pub next_token: u64,
}

impl<H> HookBus<H> {
    /// The chain is in descending priority and every token was handed out once.
    pub open spec fn wf(&self) -> bool {
        &&& descending(self.entries@)
        &&& forall|i: int| 0 <= i < self.entries@.len() ==> self.entries@[i].token < self.next_token
        &&& forall|i: int, j: int|
            0 <= i < j < self.entries@.len() ==> self.entries@[i].token != self.entries@[j].token
    }

    /// An empty bus, not yet started.
    pub fn new() -> (bus: HookBus<H>)
        ensures
            bus.wf(),
            bus.entries@.len() == 0,
            !bus.running,
            bus.next_token == 0,
    {
        HookBus { entries: Vec::new(), running: false, next_token: 0 }
    }

    /// Adds a handler for `typ`, switched on. It is placed behind every handler
    /// of the same or a higher priority and before every handler of a lower
    /// one. Returns its token.
    pub fn register(&mut self, typ: Type, priority: i32, handler: H) -> (token: u64)
        requires
            old(self).wf(),
            old(self).next_token < u64::MAX,
        ensures
            final(self).wf(),
            token == old(self).next_token,
            final(self).next_token == token + 1,
            final(self).running == old(self).running,
            final(self).entries@ == old(self).entries@.insert(
                insertion_point(old(self).entries@, priority) as int,
                (HandlerEntry { typ, priority, token, enabled: true, handler }),
            ),
            added(old(self).entries@, final(self).entries@, typ, priority, handler),
    {
        let token = self.next_token;
        let mut pos: usize = 0;
        assert(self.entries@.skip(0) =~= self.entries@);
        while pos < self.entries.len() && self.entries[pos].priority >= priority
            invariant
                *self == *old(self),
                pos <= self.entries.len(),
                forall|k: int| 0 <= k < pos ==> self.entries@[k].priority >= priority,
                insertion_point(self.entries@, priority) == pos + insertion_point(
                    self.entries@.skip(pos as int),
                    priority,
                ),
            decreases self.entries.len() - pos,
        {
            assert(self.entries@.skip(pos as int).drop_first() =~= self.entries@.skip(pos + 1));
            pos = pos + 1;
        }
        proof {
            let rest = self.entries@.skip(pos as int);
            assert(insertion_point(rest, priority) == 0);
            assert(pos < self.entries@.len() ==> rest[0].priority < priority);
        }
        let entry = HandlerEntry { typ, priority, token, enabled: true, handler };
        proof {
            lemma_insert_keeps_descending(self.entries@, entry);
            lemma_insert_then_remove(self.entries@, pos as int, entry);
        }
        self.entries.insert(pos, entry);
        self.next_token = token + 1;
        proof {
            let before = old(self).entries@;
            let after = self.entries@;
            assert forall|i: int| 0 <= i < after.len() implies after[i].token
                < self.next_token by {
                if i < pos {
                    assert(after[i] == before[i]);
                } else if i > pos {
                    assert(after[i] == before[i - 1]);
                }
            }
            assert forall|i: int, j: int| 0 <= i < j < after.len() implies after[i].token
                != after[j].token by {
                if i != pos {
                    assert(after[i] == before[if i < pos { i } else { i - 1 }]);
                }
                if j != pos {
                    assert(after[j] == before[if j < pos { j } else { j - 1 }]);
                }
            }
        }
        token
    }

    /// Lets dispatches reach the handlers.
    pub fn start(&mut self)
        ensures
            final(self).running,
            final(self).entries == old(self).entries,
            final(self).next_token == old(self).next_token,
    {
        self.running = true;
    }

    /// Keeps dispatches from the handlers until the bus is started again.
    pub fn stop(&mut self)
        ensures
            !final(self).running,
            final(self).entries == old(self).entries,
            final(self).next_token == old(self).next_token,
    {
        self.running = false;
    }

    /// Switches the handler with this token on or off. Says whether there is
    /// such a handler. Nothing else changes: not the order, not the other
    /// handlers.
    pub fn set_enabled(&mut self, token: u64, enabled: bool) -> (found: bool)
        requires
            old(self).wf(),
        ensures
            final(self).wf(),
            final(self).running == old(self).running,
            final(self).next_token == old(self).next_token,
            found == (token_index(old(self).entries@, token) < old(self).entries@.len()),
            found ==> final(self).entries@ == old(self).entries@.update(
                token_index(old(self).entries@, token) as int,
                (HandlerEntry {
                    enabled,
                    ..old(self).entries@[token_index(old(self).entries@, token) as int]
                }),
            ),
            !found ==> final(self).entries@ == old(self).entries@,
    {
        let mut i: usize = 0;
        assert(self.entries@.skip(0) =~= self.entries@);
        while i < self.entries.len() && self.entries[i].token != token
            invariant
                *self == *old(self),
                i <= self.entries.len(),
                token_index(self.entries@, token) == i + token_index(self.entries@.skip(i as int), token),
            decreases self.entries.len() - i,
        {
            assert(self.entries@.skip(i as int)[0] == self.entries@[i as int]);
            assert(self.entries@.skip(i as int).drop_first() =~= self.entries@.skip(i + 1));
            i = i + 1;
        }
        if i < self.entries.len() {
            assert(self.entries@.skip(i as int)[0] == self.entries@[i as int]);
            let entry = self.entries.remove(i);
            let switched = HandlerEntry { enabled, ..entry };
            self.entries.insert(i, switched);
            proof {
                let before = old(self).entries@;
                let after = self.entries@;
                assert(after =~= before.update(i as int, switched));
                assert forall|a: int, b: int| 0 <= a < b < after.len() implies after[a].priority
                    >= after[b].priority by {
                    assert(after[a].priority == before[a].priority);
                    assert(after[b].priority == before[b].priority);
                }
                assert forall|a: int| 0 <= a < after.len() implies after[a].token
                    < self.next_token by {
                    assert(after[a].token == before[a].token);
                }
                assert forall|a: int, b: int| 0 <= a < b < after.len() implies after[a].token
                    != after[b].token by {
                    assert(after[a].token == before[a].token);
                    assert(after[b].token == before[b].token);
                }
            }
            true
        } else {
            false
        }
    }

}

impl<H: Handler> HookBus<H> {
    /// Runs the chain for `typ` from the accumulator `acc`. A stopped bus calls
    /// no handler and hands `acc` back.
    pub fn dispatch_from(&self, typ: Type, param: &Parameter, acc: Option<HookResult>) -> (r: Option<
        HookResult,
    >)
        ensures
            r == if self.running {
                run(self.entries@, typ, param, acc)
            } else {
                acc
            },
    {
        if !self.running {
            return acc;
        }
        let mut i: usize = 0;
        let mut cur = acc;
        assert(self.entries@.skip(0) =~= self.entries@);
        while i < self.entries.len()
            invariant
                self.running,
                i <= self.entries.len(),
                run(self.entries@, typ, param, acc) == run(
                    self.entries@.skip(i as int),
                    typ,
                    param,
                    cur,
                ),
            decreases self.entries.len() - i,
        {
            assert(self.entries@.skip(i as int).drop_first() =~= self.entries@.skip(i + 1));
            assert(self.entries@.skip(i as int)[0] == self.entries@[i as int]);
            if self.entries[i].typ == typ && self.entries[i].enabled {
                let (proceed, next) = self.entries[i].handler.hook(param, cur);
                if !proceed {
                    return next;
                }
                cur = next;
            }
            i = i + 1;
        }
        cur
    }

    /// Runs the chain for `typ` from an empty accumulator.
    pub fn dispatch(&self, typ: Type, param: &Parameter) -> (r: Option<HookResult>)
        ensures
            r == if self.running {
                run(self.entries@, typ, param, None)
            } else {
                None
            },
    {
        self.dispatch_from(typ, param, None)
    }
}

/// Two dispatches over the same ordered handlers, with the same parameter and
/// the same initial accumulator, leave the same accumulator.
pub proof fn law_dispatch_is_deterministic<H: Handler>(
    first: HookBus<H>,
    second: HookBus<H>,
    typ: Type,
    param: &Parameter,
    acc: Option<HookResult>,
)
    requires
        first.entries@ == second.entries@,
        first.running == second.running,
    ensures
        (if first.running {
            run(first.entries@, typ, param, acc)
        } else {
            acc
        }) == (if second.running {
            run(second.entries@, typ, param, acc)
        } else {
            acc
        }),
{
}

/// In a well-formed bus a handler of higher priority stands before every
/// handler of lower priority, so a dispatch reaches it first.
pub proof fn law_higher_priority_first<H>(bus: HookBus<H>, high: int, low: int)
    requires
        bus.wf(),
        0 <= high < bus.entries@.len(),
        0 <= low < bus.entries@.len(),
        bus.entries@[high].priority > bus.entries@[low].priority,
    ensures
        high < low,
{
}

/// Where a handler is registered relative to those that are there: before
/// every handler of a lower priority, and behind every handler of the same or
/// a higher priority, so behind the earlier ones of its own priority.
pub proof fn law_register_order<H>(chain: Seq<HandlerEntry<H>>, priority: i32, k: int)
    requires
        descending(chain),
        0 <= k < chain.len(),
    ensures
        chain[k].priority < priority ==> insertion_point(chain, priority) <= k,
        chain[k].priority >= priority ==> insertion_point(chain, priority) > k,
{
    lemma_insertion_point_bound(chain, priority);
    lemma_insertion_point_splits(chain, priority);
    let at = insertion_point(chain, priority) as int;
    if chain[k].priority >= priority && at <= k {
        assert(chain[at].priority < priority);
        assert(at < k ==> chain[at].priority >= chain[k].priority);
    }
}

/// A chain runs its front part first: running the whole chain is running the
/// part behind position `k` from wherever the part before `k` got to, unless
/// that part ended the chain.
pub proof fn law_run_front_to_back<H: Handler>(
    chain: Seq<HandlerEntry<H>>,
    k: int,
    typ: Type,
    param: &Parameter,
    acc: Option<HookResult>,
)
    requires
        0 <= k <= chain.len(),
        !stops(chain.take(k), typ, param, acc),
    ensures
        run(chain, typ, param, acc) == run(chain.skip(k), typ, param, run(chain.take(k), typ, param, acc)),
    decreases k,
{
    if k == 0 {
        assert(chain.skip(0) =~= chain);
    } else {
        let front = chain.take(k);
        assert(front[0] == chain[0]);
        assert(front.drop_first() =~= chain.drop_first().take(k - 1));
        assert(chain.drop_first().skip(k - 1) =~= chain.skip(k));
        if !chain[0].serves(typ) {
            law_run_front_to_back(chain.drop_first(), k - 1, typ, param, acc);
        } else {
            let (proceed, next) = chain[0].handler.outcome(param, acc);
            law_run_front_to_back(chain.drop_first(), k - 1, typ, param, next);
        }
    }
}

/// Whether some handler of the chain ends it.
pub open spec fn stops<H: Handler>(chain: Seq<HandlerEntry<H>>, typ: Type, param: &Parameter, acc: Option<HookResult>)
    -> bool
    decreases chain.len(),
{
    if chain.len() == 0 {
        false
    } else if !chain[0].serves(typ) {
        stops(chain.drop_first(), typ, param, acc)
    } else {
        let (proceed, next) = chain[0].handler.outcome(param, acc);
        !proceed || stops(chain.drop_first(), typ, param, next)
    }
}

/// The tokens of the handlers that serve `typ`, in the order in which a
/// dispatch reaches them.
pub open spec fn chain_tokens<H>(chain: Seq<HandlerEntry<H>>, typ: Type) -> Seq<u64>
    decreases chain.len(),
{
    if chain.len() == 0 {
        Seq::empty()
    } else if chain.last().serves(typ) {
        chain_tokens(chain.drop_last(), typ).push(chain.last().token)
    } else {
        chain_tokens(chain.drop_last(), typ)
    }
}

/// The position of the handler with this token, or the number of handlers
/// where there is none.
pub open spec fn token_index<H>(chain: Seq<HandlerEntry<H>>, token: u64) -> nat
    decreases chain.len(),
{
    if chain.len() == 0 || chain[0].token == token {
        0
    } else {
        1 + token_index(chain.drop_first(), token)
    }
}

/// A dispatch that is run handler by handler, by whoever calls the handlers.
#[derive(Debug, PartialEq, Eq)]
pub struct ChainRun {
    /// The accumulator so far.
    pub acc: Option<HookResult>,
    /// Whether a handler has ended the chain.
    pub ended: bool,
}

impl ChainRun {
    /// A run that starts from the accumulator `acc`.
    pub fn begin(acc: Option<HookResult>) -> (run: ChainRun)
        ensures
            run == (ChainRun { acc, ended: false }),
    {
        ChainRun { acc, ended: false }
    }

    /// The run after a handler has answered: its accumulator is taken, and
    /// the chain has ended where it did not proceed. An ended run takes
    /// nothing more.
    pub open spec fn absorbed(self, ret: ReturnType) -> ChainRun {
        if self.ended {
            self
        } else {
            ChainRun { acc: ret.1, ended: !ret.0 }
        }
    }

    /// Takes the answer of the next handler.
    pub fn absorb(self, ret: ReturnType) -> (run: ChainRun)
        ensures
            run == self.absorbed(ret),
    {
        if self.ended {
            self
        } else {
            ChainRun { acc: ret.1, ended: !ret.0 }
        }
    }

    /// The run after a handler has failed without an answer; `kept` is the
    /// accumulator that the handler was given. The failure neither ends the
    /// chain nor changes the accumulator: the next handler is given `kept`.
    pub fn recover(self, kept: Option<HookResult>) -> (run: ChainRun)
        ensures
            run == self.absorbed((true, kept)),
            !self.ended ==> run == (ChainRun { acc: kept, ended: false }),
    {
        self.absorb((true, kept))
    }

    /// The final accumulator.
    pub fn finish(self) -> (acc: Option<HookResult>)
        ensures
            acc == self.acc,
    {
        self.acc
    }
}

/// The run that results when the handlers that serve `typ` answer one after
/// the other, each asked only while the chain has not ended.
pub open spec fn stepwise<H: Handler>(chain: Seq<HandlerEntry<H>>, typ: Type, param: &Parameter, run: ChainRun)
    -> ChainRun
    decreases chain.len(),
{
    if chain.len() == 0 {
        run
    } else if !chain[0].serves(typ) || run.ended {
        stepwise(chain.drop_first(), typ, param, run)
    } else {
        stepwise(
            chain.drop_first(),
            typ,
            param,
            run.absorbed(chain[0].handler.outcome(param, run.acc)),
        )
    }
}

/// Running a chain handler by handler leaves the accumulator that a dispatch leaves.
pub proof fn law_stepwise_is_dispatch<H: Handler>(
    chain: Seq<HandlerEntry<H>>,
    typ: Type,
    param: &Parameter,
    acc: Option<HookResult>,
)
    ensures
        stepwise(chain, typ, param, (ChainRun { acc, ended: false })).acc == run(
            chain,
            typ,
            param,
            acc,
        ),
    decreases chain.len(),
{
    if chain.len() != 0 {
        if !chain[0].serves(typ) {
            law_stepwise_is_dispatch(chain.drop_first(), typ, param, acc);
        } else {
            let (proceed, next) = chain[0].handler.outcome(param, acc);
            if proceed {
                law_stepwise_is_dispatch(chain.drop_first(), typ, param, next);
            } else {
                lemma_ended_run_stays(chain.drop_first(), typ, param, (ChainRun { acc: next, ended: true }));
            }
        }
    }
}

proof fn lemma_ended_run_stays<H: Handler>(chain: Seq<HandlerEntry<H>>, typ: Type, param: &Parameter, run: ChainRun)
    requires
        run.ended,
    ensures
        stepwise(chain, typ, param, run) == run,
    decreases chain.len(),
{
    if chain.len() != 0 {
        lemma_ended_run_stays(chain.drop_first(), typ, param, run);
    }
}

impl<H> HookBus<H> {
    /// The tokens of the handlers that a dispatch for `typ` reaches, in order;
    /// none where the bus is stopped. Whoever calls handlers that wait for the
    /// outside world takes this list, lets go of the bus, and runs the chain
    /// with a [`ChainRun`].
    pub fn chain(&self, typ: Type) -> (tokens: Vec<u64>)
        ensures
            tokens@ == if self.running {
                chain_tokens(self.entries@, typ)
            } else {
                Seq::empty()
            },
    {
        let mut tokens: Vec<u64> = Vec::new();
        if !self.running {
            return tokens;
        }
        let mut i: usize = 0;
        assert(self.entries@.take(0) =~= Seq::<HandlerEntry<H>>::empty());
        while i < self.entries.len()
            invariant
                i <= self.entries.len(),
                tokens@ == chain_tokens(self.entries@.take(i as int), typ),
            decreases self.entries.len() - i,
        {
            assert(self.entries@.take(i + 1).drop_last() =~= self.entries@.take(i as int));
            assert(self.entries@.take(i + 1).last() == self.entries@[i as int]);
            if self.entries[i].typ == typ && self.entries[i].enabled {
                tokens.push(self.entries[i].token);
            }
            i = i + 1;
        }
        assert(self.entries@.take(self.entries.len() as int) =~= self.entries@);
        tokens
    }

    /// The handler that was registered under `token`.
    pub fn handler(&self, token: u64) -> (r: Option<&H>)
        ensures
            match r {
                Some(handler) => token_index(self.entries@, token) < self.entries@.len() && *handler
                    == self.entries@[token_index(self.entries@, token) as int].handler,
                None => token_index(self.entries@, token) >= self.entries@.len(),
            },
    {
        let mut i: usize = 0;
        assert(self.entries@.skip(0) =~= self.entries@);
        while i < self.entries.len()
            invariant
                i <= self.entries.len(),
                token_index(self.entries@, token) == i + token_index(
                    self.entries@.skip(i as int),
                    token,
                ),
            decreases self.entries.len() - i,
        {
            assert(self.entries@.skip(i as int)[0] == self.entries@[i as int]);
            if self.entries[i].token == token {
                return Some(&self.entries[i].handler);
            }
            assert(self.entries@.skip(i as int).drop_first() =~= self.entries@.skip(i + 1));
            i = i + 1;
        }
        None
    }
}

/// Whether `after` is `before` with one handler added at the place of its
/// priority: behind the handlers of the same or a higher priority, before
/// those of a lower one.
pub open spec fn added<H>(
    before: Seq<HandlerEntry<H>>,
    after: Seq<HandlerEntry<H>>,
    typ: Type,
    priority: i32,
    handler: H,
) -> bool {
    let at = insertion_point(before, priority) as int;
    &&& after.len() == before.len() + 1
    &&& at <= before.len()
    &&& after[at].typ == typ
    &&& after[at].enabled
    &&& after[at].priority == priority
    &&& after[at].handler == handler
    &&& after.remove(at) == before
}

/// The handle through which a plugin adds its handlers and switches them on and off.
pub trait Register<H> {
    /// The handlers in dispatch order.
    spec fn handlers(&self) -> Seq<HandlerEntry<H>>;

    /// Whether dispatches reach the handlers.
    spec fn is_running(&self) -> bool;

    /// Whether one more handler can be taken.
    spec fn has_room(&self) -> bool;

    /// Adds a handler of priority zero.
    fn add(&mut self, typ: Type, handler: H)
        requires
            old(self).has_room(),
        ensures
            final(self).is_running() == old(self).is_running(),
            added(old(self).handlers(), final(self).handlers(), typ, 0, handler),
    ;

    /// Adds a handler: behind the handlers of the same or a higher priority,
    /// before those of a lower one.
    fn add_priority(&mut self, typ: Type, priority: i32, handler: H)
        requires
            old(self).has_room(),
        ensures
            final(self).is_running() == old(self).is_running(),
            added(old(self).handlers(), final(self).handlers(), typ, priority, handler),
    ;

    /// Lets dispatches reach the handlers.
    fn start(&mut self)
        ensures
            final(self).is_running(),
            final(self).handlers() == old(self).handlers(),
    ;

    /// Keeps dispatches from the handlers.
    fn stop(&mut self)
        ensures
            !final(self).is_running(),
            final(self).handlers() == old(self).handlers(),
    ;
}

/// A handler is never placed beyond the end of the chain.
pub proof fn lemma_insertion_point_bound<H>(chain: Seq<HandlerEntry<H>>, priority: i32)
    ensures
        insertion_point(chain, priority) <= chain.len(),
    decreases chain.len(),
{
    if chain.len() != 0 && chain[0].priority >= priority {
        lemma_insertion_point_bound(chain.drop_first(), priority);
    }
}

/// Taking out what was put in gives back the chain as it was.
pub proof fn lemma_insert_then_remove<H>(chain: Seq<HandlerEntry<H>>, at: int, entry: HandlerEntry<H>)
    requires
        0 <= at <= chain.len(),
    ensures
        chain.insert(at, entry).len() == chain.len() + 1,
        chain.insert(at, entry)[at] == entry,
        chain.insert(at, entry).remove(at) == chain,
{
    chain.insert_ensures(at, entry);
    assert(chain.insert(at, entry).remove(at) =~= chain);
}

/// A chain in descending priority stays so when a handler is put at the
/// place of its priority.
pub proof fn lemma_insert_keeps_descending<H>(chain: Seq<HandlerEntry<H>>, entry: HandlerEntry<H>)
    requires
        descending(chain),
    ensures
        descending(chain.insert(insertion_point(chain, entry.priority) as int, entry)),
        insertion_point(chain, entry.priority) <= chain.len(),
{
    lemma_insertion_point_bound(chain, entry.priority);
    lemma_insertion_point_splits(chain, entry.priority);
    let at = insertion_point(chain, entry.priority) as int;
    let after = chain.insert(at, entry);
    chain.insert_ensures(at, entry);
    assert forall|i: int, j: int| 0 <= i < j < after.len() implies after[i].priority
        >= after[j].priority by {
        if j < at {
            assert(after[i] == chain[i] && after[j] == chain[j]);
        } else if j == at {
            assert(after[i] == chain[i]);
        } else if i < at {
            assert(after[i] == chain[i] && after[j] == chain[j - 1]);
        } else if i == at {
            assert(after[j] == chain[j - 1]);
        } else {
            assert(after[i] == chain[i - 1] && after[j] == chain[j - 1]);
        }
    }
}

/// Before the place of a priority stand the handlers whose priority is at
/// least as high; at it stands one of lower priority, if any.
pub proof fn lemma_insertion_point_splits<H>(chain: Seq<HandlerEntry<H>>, priority: i32)
    ensures
        forall|k: int| 0 <= k < insertion_point(chain, priority) ==> chain[k].priority >= priority,
        insertion_point(chain, priority) < chain.len() ==> chain[insertion_point(
            chain,
            priority,
        ) as int].priority < priority,
    decreases chain.len(),
{
    if chain.len() != 0 && chain[0].priority >= priority {
        lemma_insertion_point_splits(chain.drop_first(), priority);
        lemma_insertion_point_bound(chain, priority);
        assert forall|k: int| 0 <= k < insertion_point(chain, priority) implies chain[k].priority
            >= priority by {
            if k > 0 {
                assert(chain.drop_first()[k - 1] == chain[k]);
            }
        }
    }
}

impl<H> Register<H> for HookBus<H> {
    open spec fn handlers(&self) -> Seq<HandlerEntry<H>> {
        self.entries@
    }

    open spec fn is_running(&self) -> bool {
        self.running
    }

    open spec fn has_room(&self) -> bool {
        self.wf() && self.next_token < u64::MAX
    }

    fn add(&mut self, typ: Type, handler: H) {
        self.register(typ, 0, handler);
    }

    fn add_priority(&mut self, typ: Type, priority: i32, handler: H) {
        self.register(typ, priority, handler);
    }

    fn start(&mut self) {
        self.running = true;
    }

    fn stop(&mut self) {
        self.running = false;
    }
}

/// What a manager of hooks decides before the broker starts.
pub trait HookManager {
    /// Whether the handlers ask for the program to exit before it starts.
    spec fn exits_before_startup(&self) -> bool;

    /// Fires the hook that comes before startup. Says whether to exit.
    fn before_startup(&self) -> (exit: Exit)
        ensures
            exit == self.exits_before_startup(),
    ;
}

/// The hooks of a session: each fires its parameter through the chain and
/// reads the answer out of the accumulator that the chain leaves.
pub trait Hook {
    /// The accumulator that the chain leaves for a parameter.
    spec fn answer(&self, param: &Parameter) -> Option<HookResult>;

    /// A session was created. Says whether the connection is to be closed.
    fn session_created(&self, session: Session) -> (disconnect: Disconnect)
        ensures
            disconnect == (self.answer(&Parameter::SessionCreated(session)) is Some && self.answer(
                &Parameter::SessionCreated(session),
            )->0 is Disconnect),
    ;

    /// The answer to a CONNECT is about to be sent.
    fn client_connack(&self, connect_info: ConnectInfo, return_code: ConnectAckReason);

    /// A CONNECT arrived. Says whether the connection is to be closed.
    fn client_connect(&self, connect_info: ConnectInfo) -> (disconnect: Disconnect)
        ensures
            disconnect == (self.answer(&Parameter::ClientConnect(connect_info)) is Some
                && self.answer(&Parameter::ClientConnect(connect_info))->0 is Disconnect),
    ;

    /// Authenticates a client. Where no handler has an opinion, the client is
    /// let in if anonymous clients are.
    fn client_authenticate(&self, connect_info: ConnectInfo, allow_anonymous: bool) -> (reason:
        ConnectAckReason)
        ensures
            reason == authenticate_reason(
                self.answer(&Parameter::ClientAuthenticate(connect_info)),
                allow_anonymous,
            ),
    ;

    /// The connection is established.
    fn client_connected(&self, session: Session);

    /// The client is gone.
    fn client_disconnected(&self, session: Session, reason: Reason);

    /// The session has ended.
    fn session_terminated(&self, session: Session, reason: Reason);

    /// A SUBSCRIBE arrived. Says whether the connection is to be closed, and
    /// what the access check decided, if it decided.
    fn client_subscribe(&self, session: Session, subscribe: Subscribe) -> (r: (
        Disconnect,
        Option<SubscribeAclResult>,
    ))
        ensures
            r == subscribe_answer(self.answer(&Parameter::ClientSubscribe(session, subscribe))),
    ;

    /// A subscription was made.
    fn session_subscribed(&self, session: Session, subscribed: Subscribed);

    /// An UNSUBSCRIBE arrived. Says whether the connection is to be closed.
    fn client_unsubscribe(&self, session: Session, unsubscribe: Unsubscribe) -> (disconnect:
        Disconnect)
        ensures
            disconnect == (self.answer(&Parameter::ClientUnsubscribe(session, unsubscribe)) is Some
                && self.answer(&Parameter::ClientUnsubscribe(session, unsubscribe))->0
                is Disconnect),
    ;

    /// A subscription was dropped.
    fn session_unsubscribed(&self, session: Session, unsubscribe: Unsubscribe);

    /// A PUBLISH arrived. Says whether the connection is to be closed and
    /// whether the message is refused.
    fn message_publish(&self, session: Option<Session>, from: From, publish: Publish) -> (r: (
        Disconnect,
        Deny,
    ))
        ensures
            r == publish_answer(self.answer(&Parameter::MessagePublish(session, from, publish))),
    ;

    /// A message was dropped.
    fn message_dropped(&self, to: Option<To>, from: From, publish: Publish, reason: Reason);

    /// A message is delivered to a subscriber.
    fn message_deliver(&self, session: Session, from: From, publish: Publish);

    /// A subscriber acknowledged a message.
    fn message_acked(&self, session: Session, from: From, publish: Publish);

    /// Says whether a message has expired.
    fn message_expiry_check(&self, session: Session, from: From, publish: Publish) -> (expired:
        MessageExpiry)
        ensures
            expired == (self.answer(&Parameter::MessageExpiryCheck(session, from, publish)) is Some
                && self.answer(&Parameter::MessageExpiryCheck(session, from, publish))->0
                is MessageExpiry),
    ;
}

/// The answer to a CONNECT that the accumulator of an authentication stands for.
pub open spec fn authenticate_reason(acc: Option<HookResult>, allow_anonymous: bool)
    -> ConnectAckReason {
    match acc {
        Some(HookResult::AuthResult(AuthResult::Allow(_, _))) => ConnectAckReason::Success,
        Some(HookResult::AuthResult(AuthResult::BadUsernameOrPassword)) =>
            ConnectAckReason::BadUserNameOrPassword,
        Some(HookResult::AuthResult(AuthResult::NotAuthorized)) => ConnectAckReason::NotAuthorized,
        _ => if allow_anonymous {
            ConnectAckReason::Success
        } else {
            ConnectAckReason::NotAuthorized
        },
    }
}

/// What the accumulator of a SUBSCRIBE stands for.
pub open spec fn subscribe_answer(acc: Option<HookResult>) -> (Disconnect, Option<SubscribeAclResult>) {
    match acc {
        Some(HookResult::Disconnect) => (true, None),
        Some(HookResult::SubscribeAclResult(res)) => (false, Some(res)),
        _ => (false, None),
    }
}

/// What the accumulator of a PUBLISH stands for.
pub open spec fn publish_answer(acc: Option<HookResult>) -> (Disconnect, Deny) {
    match acc {
        Some(HookResult::Disconnect) => (true, false),
        Some(HookResult::PublishAclResult(PublishAclResult::Rejected(disconnect))) => (
            disconnect,
            true,
        ),
        _ => (false, false),
    }
}

fn is_disconnect(acc: &Option<HookResult>) -> (r: bool)
    ensures
        r == (*acc is Some && acc->0 is Disconnect),
{
    match acc {
        Some(HookResult::Disconnect) => true,
        _ => false,
    }
}

impl<H: Handler> HookManager for HookBus<H> {
    open spec fn exits_before_startup(&self) -> bool {
        self.answer(&Parameter::BeforeStartup) is Some && self.answer(&Parameter::BeforeStartup)->0
            is Exit
    }

    fn before_startup(&self) -> (exit: Exit) {
        match self.dispatch(Type::BeforeStartup, &Parameter::BeforeStartup) {
            Some(HookResult::Exit) => true,
            _ => false,
        }
    }
}

impl<H: Handler> Hook for HookBus<H> {
    open spec fn answer(&self, param: &Parameter) -> Option<HookResult> {
        if self.running {
            run(self.entries@, param.type_of(), param, None)
        } else {
            None
        }
    }

    fn session_created(&self, session: Session) -> (disconnect: Disconnect) {
        let param = Parameter::SessionCreated(session);
        is_disconnect(&self.dispatch(Type::SessionCreated, &param))
    }

    fn client_connack(&self, connect_info: ConnectInfo, return_code: ConnectAckReason) {
        let param = Parameter::ClientConnack(connect_info, return_code);
        let _ = self.dispatch(Type::ClientConnack, &param);
    }

    fn client_connect(&self, connect_info: ConnectInfo) -> (disconnect: Disconnect) {
        let param = Parameter::ClientConnect(connect_info);
        is_disconnect(&self.dispatch(Type::ClientConnect, &param))
    }

    fn client_authenticate(&self, connect_info: ConnectInfo, allow_anonymous: bool) -> (reason:
        ConnectAckReason) {
        let param = Parameter::ClientAuthenticate(connect_info);
        match self.dispatch(Type::ClientAuthenticate, &param) {
            Some(HookResult::AuthResult(AuthResult::Allow(_, _))) => ConnectAckReason::Success,
            Some(HookResult::AuthResult(AuthResult::BadUsernameOrPassword)) =>
                ConnectAckReason::BadUserNameOrPassword,
            Some(HookResult::AuthResult(AuthResult::NotAuthorized)) =>
                ConnectAckReason::NotAuthorized,
            _ => if allow_anonymous {
                ConnectAckReason::Success
            } else {
                ConnectAckReason::NotAuthorized
            },
        }
    }

    fn client_connected(&self, session: Session) {
        let param = Parameter::ClientConnected(session);
        let _ = self.dispatch(Type::ClientConnected, &param);
    }

    fn client_disconnected(&self, session: Session, reason: Reason) {
        let param = Parameter::ClientDisconnected(session, reason);
        let _ = self.dispatch(Type::ClientDisconnected, &param);
    }

    fn session_terminated(&self, session: Session, reason: Reason) {
        let param = Parameter::SessionTerminated(session, reason);
        let _ = self.dispatch(Type::SessionTerminated, &param);
    }

    fn client_subscribe(&self, session: Session, subscribe: Subscribe) -> (r: (
        Disconnect,
        Option<SubscribeAclResult>,
    )) {
        let param = Parameter::ClientSubscribe(session, subscribe);
        match self.dispatch(Type::ClientSubscribe, &param) {
            Some(HookResult::Disconnect) => (true, None),
            Some(HookResult::SubscribeAclResult(res)) => (false, Some(res)),
            _ => (false, None),
        }
    }

    fn session_subscribed(&self, session: Session, subscribed: Subscribed) {
        let param = Parameter::SessionSubscribed(session, subscribed);
        let _ = self.dispatch(Type::SessionSubscribed, &param);
    }

    fn client_unsubscribe(&self, session: Session, unsubscribe: Unsubscribe) -> (disconnect:
        Disconnect) {
        let param = Parameter::ClientUnsubscribe(session, unsubscribe);
        is_disconnect(&self.dispatch(Type::ClientUnsubscribe, &param))
    }

    fn session_unsubscribed(&self, session: Session, unsubscribe: Unsubscribe) {
        let param = Parameter::SessionUnsubscribed(session, unsubscribe);
        let _ = self.dispatch(Type::SessionUnsubscribed, &param);
    }

    fn message_publish(&self, session: Option<Session>, from: From, publish: Publish) -> (r: (
        Disconnect,
        Deny,
    )) {
        let param = Parameter::MessagePublish(session, from, publish);
        match self.dispatch(Type::MessagePublish, &param) {
            Some(HookResult::Disconnect) => (true, false),
            Some(HookResult::PublishAclResult(PublishAclResult::Rejected(disconnect))) => (
                disconnect,
                true,
            ),
            _ => (false, false),
        }
    }

    fn message_dropped(&self, to: Option<To>, from: From, publish: Publish, reason: Reason) {
        let param = Parameter::MessageDropped(to, from, publish, reason);
        let _ = self.dispatch(Type::MessageDropped, &param);
    }

    fn message_deliver(&self, session: Session, from: From, publish: Publish) {
        let param = Parameter::MessageDeliver(session, from, publish);
        let _ = self.dispatch(Type::MessageDeliver, &param);
    }

    fn message_acked(&self, session: Session, from: From, publish: Publish) {
        let param = Parameter::MessageAcked(session, from, publish);
        let _ = self.dispatch(Type::MessageAcked, &param);
    }

    fn message_expiry_check(&self, session: Session, from: From, publish: Publish) -> (expired:
        MessageExpiry) {
        let param = Parameter::MessageExpiryCheck(session, from, publish);
        match self.dispatch(Type::MessageExpiryCheck, &param) {
            Some(HookResult::MessageExpiry) => true,
            _ => false,
        }
    }
}

} // verus!
