use rmqtt_kernel::hook::{
    AuthResult, ChainRun, Handler, Hook, HookBus, HookManager, HookResult, Parameter,
    PublishAclResult, Register, ReturnType, SubscribeAclResult, Type,
};
use rmqtt_kernel::types::{
    ConnectAckReason, ConnectInfo, From, FromType, Id, Publish, QoS, Reason, Session, Subscribe,
    SubscribeAckReason,
};

/// What a test handler leaves in the accumulator.
#[derive(Clone, Copy)]
enum Leaves {
    Nothing,
    Same,
    Allow,
    BadPassword,
    Rejected,
    Exit,
    Refuse,
}

struct Fixed {
    proceed: bool,
    leaves: Leaves,
}

impl Handler for Fixed {
    fn outcome(&self, param: &Parameter, acc: Option<HookResult>) -> ReturnType {
        self.hook(param, acc)
    }

    fn hook(&self, _param: &Parameter, acc: Option<HookResult>) -> ReturnType {
        let next = match self.leaves {
            Leaves::Nothing => None,
            Leaves::Same => acc,
            Leaves::Allow => Some(HookResult::AuthResult(AuthResult::Allow(true, None))),
            Leaves::BadPassword => Some(HookResult::AuthResult(AuthResult::BadUsernameOrPassword)),
            Leaves::Rejected => Some(HookResult::PublishAclResult(PublishAclResult::Rejected(true))),
            Leaves::Exit => Some(HookResult::Exit),
            Leaves::Refuse => Some(HookResult::SubscribeAclResult(SubscribeAclResult::Failure(
                SubscribeAckReason::NotAuthorized,
            ))),
        };
        (self.proceed, next)
    }
}

fn id(client: &str) -> Id {
    Id {
        node_id: 1,
        lid: 1883,
        local_addr: None,
        remote_addr: None,
        client_id: client.to_string(),
        username: Some("alice".to_string()),
    }
}

fn connect_info(client: &str) -> ConnectInfo {
    ConnectInfo { id: id(client), proto_ver: 5, password: None, keepalive: 60, clean_start: true }
}

fn session(client: &str) -> Session {
    Session { id: id(client), auth_info: None, protocol: Some(5), max_mqueue_len: 10 }
}

fn publish(topic: &str) -> Publish {
    Publish {
        topic: topic.to_string(),
        payload: vec![1, 2, 3],
        qos: QoS::AtLeastOnce,
        retain: false,
        dup: false,
        packet_id: Some(7),
        create_time: 1000,
    }
}

#[test]
fn register_orders_by_descending_priority() {
    let mut bus: HookBus<Fixed> = HookBus::new();
    let low = bus.register(Type::ClientAuthenticate, 5, Fixed { proceed: true, leaves: Leaves::Same });
    let high = bus.register(Type::ClientAuthenticate, 9, Fixed { proceed: true, leaves: Leaves::Same });
    let mid = bus.register(Type::ClientAuthenticate, 7, Fixed { proceed: true, leaves: Leaves::Same });
    let tokens: Vec<u64> = bus.entries.iter().map(|e| e.token).collect();
    assert_eq!(tokens, vec![high, mid, low]);
    let priorities: Vec<i32> = bus.entries.iter().map(|e| e.priority).collect();
    assert_eq!(priorities, vec![9, 7, 5]);
}

#[test]
fn register_is_stable_within_a_priority() {
    let mut bus: HookBus<Fixed> = HookBus::new();
    let first = bus.register(Type::ClientConnect, 3, Fixed { proceed: true, leaves: Leaves::Same });
    let second = bus.register(Type::ClientConnect, 3, Fixed { proceed: true, leaves: Leaves::Same });
    let third = bus.register(Type::ClientConnect, 3, Fixed { proceed: true, leaves: Leaves::Same });
    let tokens: Vec<u64> = bus.entries.iter().map(|e| e.token).collect();
    assert_eq!(tokens, vec![first, second, third]);
    assert_eq!((first, second, third), (0, 1, 2));
}

#[test]
fn dispatch_stops_at_the_first_handler_that_does_not_proceed() {
    let mut bus: HookBus<Fixed> = HookBus::new();
    bus.register(Type::ClientAuthenticate, 1, Fixed { proceed: false, leaves: Leaves::BadPassword });
    bus.register(Type::ClientAuthenticate, 2, Fixed { proceed: false, leaves: Leaves::Allow });
    bus.register(Type::ClientAuthenticate, 3, Fixed { proceed: true, leaves: Leaves::Nothing });
    bus.start();
    let param = Parameter::ClientAuthenticate(connect_info("c1"));
    let acc = bus.dispatch(Type::ClientAuthenticate, &param);
    assert_eq!(acc, Some(HookResult::AuthResult(AuthResult::Allow(true, None))));
}

#[test]
fn dispatch_returns_the_last_accumulator_when_all_proceed() {
    let mut bus: HookBus<Fixed> = HookBus::new();
    bus.register(Type::ClientAuthenticate, 2, Fixed { proceed: true, leaves: Leaves::Allow });
    bus.register(Type::ClientAuthenticate, 1, Fixed { proceed: true, leaves: Leaves::Same });
    bus.start();
    let param = Parameter::ClientAuthenticate(connect_info("c1"));
    assert_eq!(
        bus.dispatch(Type::ClientAuthenticate, &param),
        Some(HookResult::AuthResult(AuthResult::Allow(true, None)))
    );
}

#[test]
fn dispatch_skips_handlers_of_other_types() {
    let mut bus: HookBus<Fixed> = HookBus::new();
    bus.register(Type::ClientConnect, 9, Fixed { proceed: false, leaves: Leaves::Exit });
    bus.register(Type::ClientAuthenticate, 1, Fixed { proceed: true, leaves: Leaves::BadPassword });
    bus.start();
    let param = Parameter::ClientAuthenticate(connect_info("c1"));
    assert_eq!(
        bus.dispatch(Type::ClientAuthenticate, &param),
        Some(HookResult::AuthResult(AuthResult::BadUsernameOrPassword))
    );
}

#[test]
fn a_stopped_bus_calls_no_handler() {
    let mut bus: HookBus<Fixed> = HookBus::new();
    bus.register(Type::ClientAuthenticate, 1, Fixed { proceed: false, leaves: Leaves::Allow });
    let param = Parameter::ClientAuthenticate(connect_info("c1"));
    assert_eq!(bus.dispatch(Type::ClientAuthenticate, &param), None);
    bus.start();
    assert!(bus.dispatch(Type::ClientAuthenticate, &param).is_some());
    bus.stop();
    assert_eq!(bus.dispatch(Type::ClientAuthenticate, &param), None);
    assert_eq!(bus.dispatch_from(Type::ClientAuthenticate, &param, Some(HookResult::Exit)), Some(HookResult::Exit));
}

#[test]
fn two_dispatches_leave_the_same_accumulator() {
    let mut bus: HookBus<Fixed> = HookBus::new();
    bus.register(Type::MessagePublishCheckAcl, 4, Fixed { proceed: true, leaves: Leaves::Same });
    bus.register(Type::MessagePublishCheckAcl, 2, Fixed { proceed: false, leaves: Leaves::Rejected });
    bus.start();
    let param = Parameter::MessagePublishCheckAcl(session("c1"), publish("t/1"));
    let first = bus.dispatch(Type::MessagePublishCheckAcl, &param);
    let second = bus.dispatch(Type::MessagePublishCheckAcl, &param);
    assert_eq!(first, second);
    assert_eq!(first, Some(HookResult::PublishAclResult(PublishAclResult::Rejected(true))));
}

#[test]
fn a_handler_that_is_switched_off_is_passed_over() {
    let mut bus: HookBus<Fixed> = HookBus::new();
    let first = bus.register(Type::ClientAuthenticate, 2, Fixed { proceed: false, leaves: Leaves::Allow });
    let second =
        bus.register(Type::ClientAuthenticate, 1, Fixed { proceed: false, leaves: Leaves::BadPassword });
    bus.start();
    let param = Parameter::ClientAuthenticate(connect_info("c1"));
    assert!(bus.entries.iter().all(|e| e.enabled));
    assert!(bus.set_enabled(first, false));
    assert!(!bus.set_enabled(99, false));
    assert_eq!(bus.chain(Type::ClientAuthenticate), vec![second]);
    assert_eq!(
        bus.dispatch(Type::ClientAuthenticate, &param),
        Some(HookResult::AuthResult(AuthResult::BadUsernameOrPassword))
    );
    assert!(bus.set_enabled(second, false));
    assert_eq!(bus.dispatch(Type::ClientAuthenticate, &param), None);
    assert!(bus.set_enabled(first, true));
    assert_eq!(
        bus.dispatch(Type::ClientAuthenticate, &param),
        Some(HookResult::AuthResult(AuthResult::Allow(true, None)))
    );
    let tokens: Vec<u64> = bus.entries.iter().map(|e| e.token).collect();
    assert_eq!(tokens, vec![first, second]);
}

#[test]
fn chain_lists_the_tokens_in_dispatch_order() {
    let mut bus: HookBus<Fixed> = HookBus::new();
    let a = bus.register(Type::ClientKeepalive, 1, Fixed { proceed: true, leaves: Leaves::Same });
    let _b = bus.register(Type::ClientConnect, 8, Fixed { proceed: true, leaves: Leaves::Same });
    let c = bus.register(Type::ClientKeepalive, 5, Fixed { proceed: true, leaves: Leaves::Same });
    assert_eq!(bus.chain(Type::ClientKeepalive), Vec::<u64>::new());
    bus.start();
    assert_eq!(bus.chain(Type::ClientKeepalive), vec![c, a]);
    assert!(bus.handler(c).is_some());
    assert!(bus.handler(99).is_none());
}

#[test]
fn a_chain_run_by_hand_matches_dispatch() {
    let mut bus: HookBus<Fixed> = HookBus::new();
    bus.register(Type::ClientAuthenticate, 3, Fixed { proceed: true, leaves: Leaves::Allow });
    bus.register(Type::ClientAuthenticate, 2, Fixed { proceed: false, leaves: Leaves::BadPassword });
    bus.register(Type::ClientAuthenticate, 1, Fixed { proceed: false, leaves: Leaves::Exit });
    bus.start();
    let param = Parameter::ClientAuthenticate(connect_info("c1"));
    let mut run = ChainRun::begin(None);
    for token in bus.chain(Type::ClientAuthenticate) {
        if run.ended {
            break;
        }
        let handler = bus.handler(token).unwrap();
        let acc = run.acc.take();
        run = run.absorb(handler.hook(&param, acc));
    }
    assert!(run.ended);
    assert_eq!(run.finish(), bus.dispatch(Type::ClientAuthenticate, &param));
}

#[test]
fn an_ended_run_takes_nothing_more() {
    let run = ChainRun::begin(None).absorb((false, Some(HookResult::Exit)));
    assert!(run.ended);
    let run = run.absorb((true, Some(HookResult::Disconnect)));
    assert_eq!(run, ChainRun { acc: Some(HookResult::Exit), ended: true });
}

#[test]
fn parameter_types() {
    assert_eq!(Parameter::BeforeStartup.get_type(), Type::BeforeStartup);
    assert_eq!(Parameter::ClientAuthenticate(connect_info("c")).get_type(), Type::ClientAuthenticate);
    assert_eq!(
        Parameter::ClientDisconnected(session("c"), Reason::Unknown).get_type(),
        Type::ClientDisconnected
    );
    assert_eq!(
        Parameter::MessagePublishCheckAcl(session("c"), publish("t")).get_type(),
        Type::MessagePublishCheckAcl
    );
    assert_eq!(
        Parameter::OfflineInflightMessages(session("c"), Vec::new()).get_type(),
        Type::OfflineInflightMessages
    );
}

#[test]
fn register_trait_adds_at_priority_zero() {
    let mut bus: HookBus<Fixed> = HookBus::new();
    bus.add_priority(Type::ClientConnect, -1, Fixed { proceed: true, leaves: Leaves::Same });
    bus.add(Type::ClientConnect, Fixed { proceed: true, leaves: Leaves::Same });
    bus.add_priority(Type::ClientConnect, 1, Fixed { proceed: true, leaves: Leaves::Same });
    let priorities: Vec<i32> = bus.entries.iter().map(|e| e.priority).collect();
    assert_eq!(priorities, vec![1, 0, -1]);
    assert!(!bus.running);
    Register::start(&mut bus);
    assert!(bus.running);
    Register::stop(&mut bus);
    assert!(!bus.running);
}

#[test]
fn before_startup_reads_exit() {
    let mut bus: HookBus<Fixed> = HookBus::new();
    bus.register(Type::BeforeStartup, 0, Fixed { proceed: true, leaves: Leaves::Same });
    bus.start();
    assert!(!bus.before_startup());
    bus.register(Type::BeforeStartup, 0, Fixed { proceed: false, leaves: Leaves::Exit });
    assert!(bus.before_startup());
}

#[test]
fn client_authenticate_maps_the_accumulator() {
    let mut bus: HookBus<Fixed> = HookBus::new();
    bus.start();
    assert_eq!(bus.client_authenticate(connect_info("c"), true), ConnectAckReason::Success);
    assert_eq!(bus.client_authenticate(connect_info("c"), false), ConnectAckReason::NotAuthorized);
    bus.register(Type::ClientAuthenticate, 0, Fixed { proceed: false, leaves: Leaves::BadPassword });
    assert_eq!(
        bus.client_authenticate(connect_info("c"), true),
        ConnectAckReason::BadUserNameOrPassword
    );
    bus.register(Type::ClientAuthenticate, 1, Fixed { proceed: false, leaves: Leaves::Allow });
    assert_eq!(bus.client_authenticate(connect_info("c"), false), ConnectAckReason::Success);
}

#[test]
fn message_publish_and_subscribe_answers() {
    let mut bus: HookBus<Fixed> = HookBus::new();
    bus.start();
    let from = From { typ: FromType::Custom, id: id("c") };
    assert_eq!(bus.message_publish(Some(session("c")), from.clone(), publish("t")), (false, false));
    bus.register(Type::MessagePublish, 0, Fixed { proceed: false, leaves: Leaves::Rejected });
    assert_eq!(bus.message_publish(Some(session("c")), from.clone(), publish("t")), (true, true));
    let subscribe = Subscribe { topic_filter: "a/#".to_string(), qos: QoS::AtMostOnce, shared_group: None };
    assert_eq!(bus.client_subscribe(session("c"), subscribe.clone()), (false, None));
    bus.register(Type::ClientSubscribe, 0, Fixed { proceed: false, leaves: Leaves::Refuse });
    assert_eq!(
        bus.client_subscribe(session("c"), subscribe),
        (false, Some(SubscribeAclResult::Failure(SubscribeAckReason::NotAuthorized)))
    );
    assert!(!bus.session_created(session("c")));
    assert!(!bus.message_expiry_check(session("c"), from, publish("t")));
}

#[test]
fn a_handler_that_fails_leaves_the_run_as_it_was() {
    let run = ChainRun::begin(None).absorb((true, Some(HookResult::Disconnect)));
    let kept = Some(HookResult::Disconnect);
    let after = ChainRun { acc: None, ended: false }.recover(kept);
    assert_eq!(after, run);
    assert_eq!(after.finish(), Some(HookResult::Disconnect));
    let fresh = ChainRun::begin(None).recover(None);
    assert_eq!(fresh, ChainRun { acc: None, ended: false });
    let ended = ChainRun { acc: Some(HookResult::Exit), ended: true }.recover(None);
    assert_eq!(ended, ChainRun { acc: Some(HookResult::Exit), ended: true });
}
