use rmqtt_kernel::hook::{Handler, HookResult, Parameter, Type};
use rmqtt_kernel::json::Json;
use rmqtt_kernel::session_storage::rebuild_messages;
use rmqtt_kernel::session_storage::{
    attrs, fill_queue, find_fitter, hooks, list_stored_key_to_id_bytes, make_list_stored_key,
    make_map_stored_key, map_stored_key_to_id_bytes, rebuild_report_due, rebuild_step,
    session_expiry_interval, Basic, Fitter, ListRecord, ListenCfg, Loaded, MapRecord,
    OfflineMessageHandler, OfflineMessageOptionType, Purge, RebuildAction, RebuildChanType,
    RebuildSession, StorageAction, StorageHandler, StoredSessionInfo, StoredSessionInfos, Tally,
    REBUILD_REPORT_EVERY, STATS_LIMIT, STATS_TIMEOUT_SECS,
};
use rmqtt_kernel::types::{
    ConnectInfo, DeliverQueue, Disconnect, DisconnectInfo, From, FromType, Id, OutInflightMessage, Publish, QoS,
    Reason, Session, Subscribe,
};

const HOUR: i64 = 3_600_000;
const NOW: i64 = 1_700_000_000_000;

fn id(client: &str, lid: u16) -> Id {
    Id {
        node_id: 1,
        lid,
        local_addr: None,
        remote_addr: None,
        client_id: client.to_string(),
        username: None,
    }
}

fn basic(client: &str, lid: u16) -> Basic {
    Basic {
        id: id(client, lid),
        conn_info: ConnectInfo { id: id(client, lid), proto_ver: 4, password: None, keepalive: 30, clean_start: false },
        created_at: 10,
        connected_at: 20,
    }
}

fn publish(topic: &str) -> Publish {
    Publish {
        topic: topic.to_string(),
        payload: vec![1],
        qos: QoS::AtLeastOnce,
        retain: false,
        dup: false,
        packet_id: Some(1),
        create_time: 5,
    }
}

fn from(client: &str) -> From {
    From { typ: FromType::Custom, id: id(client, 1) }
}

fn record(name: &str, client: &str, last_time: i64) -> MapRecord {
    MapRecord {
        name: name.as_bytes().to_vec(),
        basic: Loaded::Value(basic(client, 1)),
        last_time: Loaded::Value(last_time),
        subs: Loaded::Missing,
        disconnect_info: Loaded::Missing,
        inflight_messages: Loaded::Missing,
    }
}

fn info(name: &str, client: &str, last_time: i64) -> StoredSessionInfo {
    StoredSessionInfo::from_record(record(name, client, last_time)).unwrap()
}

fn fitter(expiry: u64) -> Fitter {
    Fitter { session_expiry_interval: expiry, max_inflight: 16, max_mqueue_len: 2 }
}

fn listeners() -> Vec<ListenCfg> {
    vec![ListenCfg { lid: 1, fitter: fitter(HOUR as u64) }, ListenCfg { lid: 2, fitter: fitter(10 * HOUR as u64) }]
}

#[test]
fn stored_keys() {
    assert_eq!(make_map_stored_key(b"c1"), b"map-c1".to_vec());
    assert_eq!(make_list_stored_key(b"c1"), b"list-c1".to_vec());
    assert_eq!(make_map_stored_key(b""), b"map-".to_vec());
    assert_eq!(map_stored_key_to_id_bytes(b"map-c1"), b"c1");
    assert_eq!(list_stored_key_to_id_bytes(b"list-c1"), b"c1");
    assert_eq!(map_stored_key_to_id_bytes(b"list-c1"), b"list-c1");
    assert_eq!(list_stored_key_to_id_bytes(b"map-c1"), b"map-c1");
    assert_eq!(map_stored_key_to_id_bytes(b"map-"), b"");
    assert_eq!(map_stored_key_to_id_bytes(b"map"), b"map");
    assert_eq!(map_stored_key_to_id_bytes(b""), b"");
    assert_eq!(map_stored_key_to_id_bytes(b"map-map-x"), b"map-x");
    assert_eq!(map_stored_key_to_id_bytes(&make_map_stored_key(b"any\x00id")), b"any\x00id");
    assert_eq!(list_stored_key_to_id_bytes(&make_list_stored_key(b"list-")), b"list-");
}

#[test]
fn expiry_interval() {
    assert_eq!(session_expiry_interval(HOUR as u64, None, NOW - 2 * HOUR, NOW), -HOUR);
    assert_eq!(session_expiry_interval(HOUR as u64, None, NOW - HOUR, NOW), 0);
    assert_eq!(session_expiry_interval(HOUR as u64, None, NOW - HOUR + 1, NOW), 1);
    let at = DisconnectInfo::new(NOW - 100);
    assert_eq!(session_expiry_interval(1000, Some(&at), 0, NOW), 900);
    let unknown = DisconnectInfo::new(0);
    assert_eq!(session_expiry_interval(1000, Some(&unknown), NOW - 400, NOW), 600);
    let negative = DisconnectInfo::new(-7);
    assert_eq!(session_expiry_interval(1000, Some(&negative), NOW - 400, NOW), 600);
    assert_eq!(session_expiry_interval(u64::MAX, None, 0, 0), i64::MAX);
    assert_eq!(session_expiry_interval(0, None, i64::MIN, i64::MAX), i64::MIN);
    assert_eq!(session_expiry_interval(0, None, i64::MAX, i64::MIN), i64::MAX);
}

#[test]
fn the_listener_sets_the_expiry_unless_the_client_named_one() {
    let f = fitter(5000);
    assert_eq!(f.session_expiry_interval(None), 5000);
    assert_eq!(f.session_expiry_interval(Some(&Disconnect::Mqtt(None))), 5000);
    assert_eq!(f.session_expiry_interval(Some(&Disconnect::Other("x".to_string()))), 5000);
    assert_eq!(f.session_expiry_interval(Some(&Disconnect::Mqtt(Some(7)))), 7000);
    assert_eq!(f.session_expiry_interval(Some(&Disconnect::Mqtt(Some(u32::MAX)))), 4_294_967_295_000);
    assert_eq!(find_fitter(&listeners(), 2), Some(fitter(10 * HOUR as u64)));
    assert_eq!(find_fitter(&listeners(), 9), None);
}

#[test]
fn a_record_without_basic_is_purged() {
    let mut missing = record("map-c1", "c1", 5);
    missing.basic = Loaded::Missing;
    assert_eq!(StoredSessionInfo::from_record(missing), Err(Purge::SessionMap(b"map-c1".to_vec())));
    let mut failed = record("map-c2", "c2", 5);
    failed.basic = Loaded::Failed;
    assert_eq!(StoredSessionInfo::from_record(failed), Err(Purge::SessionMap(b"map-c2".to_vec())));
}

#[test]
fn optional_fields_may_be_missing_or_unreadable() {
    let mut r = record("map-c1", "c1", 5);
    r.last_time = Loaded::Failed;
    r.subs = Loaded::Value(vec![Subscribe { topic_filter: "a".to_string(), qos: QoS::AtMostOnce, shared_group: None }]);
    r.disconnect_info = Loaded::Failed;
    r.inflight_messages = Loaded::Value(Vec::new());
    let stored = StoredSessionInfo::from_record(r).unwrap();
    assert_eq!(stored.name, b"map-c1".to_vec());
    assert_eq!(stored.last_time, 0);
    assert_eq!(stored.subs.map(|s| s.len()), Some(1));
    assert_eq!(stored.disconnect_info, None);
    assert_eq!(stored.offline_messages, None);
    assert_eq!(stored.inflight_messages, Some(Vec::new()));
    assert_eq!(Loaded::Value(3).into_value(), Some(3));
    assert_eq!(Loaded::<u8>::Missing.into_value(), None);
    assert_eq!(Loaded::<u8>::Failed.into_value(), None);
}

#[test]
fn only_the_latest_session_of_a_client_is_kept() {
    let mut infos = StoredSessionInfos::new();
    infos.add(info("map-a1", "a", 10));
    infos.add(info("map-b1", "b", 50));
    infos.add(info("map-a2", "a", 30));
    infos.add(info("map-a3", "a", 30));
    infos.add(info("map-c1", "c", 1));
    assert_eq!(infos.len(), 5);
    assert!(!infos.latest_at(0));
    assert!(infos.latest_at(1));
    assert!(infos.latest_at(2));
    assert!(!infos.latest_at(3));
    let removed = infos.retain_latests();
    assert_eq!(removed, vec![b"a1".to_vec(), b"a3".to_vec()]);
    let names: Vec<Vec<u8>> = infos.infos.iter().map(|i| i.name.clone()).collect();
    assert_eq!(names, vec![b"map-b1".to_vec(), b"map-a2".to_vec(), b"map-c1".to_vec()]);
}

#[test]
fn keeping_the_latest_twice_is_keeping_it_once() {
    let mut infos = StoredSessionInfos::new();
    for (name, client, seen) in [("map-1", "a", 5), ("map-2", "a", 9), ("map-3", "b", 1), ("map-4", "a", 9)] {
        infos.add(info(name, client, seen));
    }
    infos.retain_latests();
    let once = infos.infos.clone();
    assert_eq!(infos.retain_latests(), Vec::<Vec<u8>>::new());
    assert_eq!(infos.infos, once);
    assert_eq!(once.len(), 2);
    let mut clients: Vec<&str> = once.iter().map(|i| i.basic.id.client_id.as_str()).collect();
    clients.dedup();
    assert_eq!(clients, vec!["a", "b"]);
    assert_eq!(once[0].last_time, 9);
    assert_eq!(once[0].name, b"map-2".to_vec());
}

#[test]
fn offline_messages_are_attached_to_their_session() {
    let mut infos = StoredSessionInfos::new();
    infos.add(info("map-c1", "c1", 5));
    infos.add(info("map-c2", "c2", 5));
    assert_eq!(infos.find(b"c2"), Some(1));
    assert_eq!(infos.find(b"map-c2"), None);
    let messages: Vec<OfflineMessageOptionType> = vec![Some(("c2".to_string(), from("x"), publish("t"))), None];
    assert!(infos.set_offline_messages(b"c2", messages.clone()));
    assert_eq!(infos.infos[1].offline_messages, Some(messages.clone()));
    assert_eq!(infos.infos[0].offline_messages, None);
    assert!(!infos.set_offline_messages(b"c3", messages));
    assert_eq!(infos.len(), 2);
}

#[test]
fn load_purges_what_cannot_be_used() {
    let mut broken = record("map-broken", "x", 1);
    broken.basic = Loaded::Failed;
    let maps = vec![record("map-c1", "c1", 10), broken, record("map-c1-old", "c1", 4), record("map-c2", "c2", 7)];
    let lists = vec![
        ListRecord { name: b"list-c2".to_vec(), messages: Some(vec![Some(("c2".to_string(), from("p"), publish("t")))]) },
        ListRecord { name: b"list-gone".to_vec(), messages: Some(Vec::new()) },
        ListRecord { name: b"list-c1".to_vec(), messages: None },
        ListRecord { name: b"list-c1-old".to_vec(), messages: Some(Vec::new()) },
    ];
    let mut infos = StoredSessionInfos::new();
    let purges = infos.load_offline_session_infos(maps, lists);
    assert_eq!(
        purges,
        vec![
            Purge::SessionMap(b"map-broken".to_vec()),
            Purge::SessionList(b"list-gone".to_vec()),
            Purge::SessionList(b"list-c1".to_vec()),
            Purge::SessionMap(b"map-c1-old".to_vec()),
            Purge::SessionList(b"list-c1-old".to_vec()),
        ]
    );
    let names: Vec<Vec<u8>> = infos.infos.iter().map(|i| i.name.clone()).collect();
    assert_eq!(names, vec![b"map-c1".to_vec(), b"map-c2".to_vec()]);
    assert_eq!(infos.infos[1].offline_messages.as_ref().map(|m| m.len()), Some(1));
    assert_eq!(infos.infos[0].offline_messages, None);
}

#[test]
fn the_delivery_queue_rejects_what_comes_when_it_is_full() {
    let messages: Vec<OfflineMessageOptionType> = vec![
        Some(("c".to_string(), from("1"), publish("a"))),
        None,
        Some(("c".to_string(), from("2"), publish("b"))),
        Some(("c".to_string(), from("3"), publish("c"))),
    ];
    assert_eq!(
        fill_queue(messages.clone(), 2),
        DeliverQueue { items: vec![(from("1"), publish("a")), (from("2"), publish("b"))], capacity: 2 }
    );
    assert_eq!(fill_queue(messages.clone(), 0), DeliverQueue::new(0));
    assert_eq!(fill_queue(messages, 9).len(), 3);
    assert_eq!(fill_queue(Vec::new(), 9), DeliverQueue::new(9));
}

#[test]
fn the_delivery_queue_hands_out_what_came_first() {
    let mut queue = DeliverQueue::new(2);
    assert_eq!(queue.pop(), None);
    assert_eq!(queue.push((from("1"), publish("a"))), Ok(()));
    assert_eq!(queue.push((from("2"), publish("b"))), Ok(()));
    assert_eq!(queue.push((from("3"), publish("c"))), Err((from("3"), publish("c"))));
    assert_eq!(queue.len(), 2);
    assert_eq!(queue.pop(), Some((from("1"), publish("a"))));
    assert_eq!(queue.push((from("3"), publish("c"))), Ok(()));
    assert_eq!(queue.pop(), Some((from("2"), publish("b"))));
    assert_eq!(queue.pop(), Some((from("3"), publish("c"))));
    assert_eq!(queue.pop(), None);
    assert_eq!(queue.capacity, 2);
}

#[test]
fn an_expired_session_is_purged_and_not_rebuilt() {
    let mut infos = StoredSessionInfos::new();
    infos.add(info("map-c1", "c1", NOW - 2 * HOUR));
    let (sessions, purges) = infos.rebuild_offline_sessions(&listeners(), NOW);
    assert_eq!(sessions, Vec::new());
    assert_eq!(
        purges,
        vec![Purge::SessionMap(b"map-c1".to_vec()), Purge::SessionList(b"list-c1".to_vec())]
    );
}

#[test]
fn a_session_in_time_is_rebuilt() {
    let mut stored = info("map-c1", "c1", NOW - HOUR / 2);
    stored.subs = Some(vec![Subscribe { topic_filter: "a/#".to_string(), qos: QoS::ExactlyOnce, shared_group: None }]);
    stored.offline_messages = Some(vec![
        Some(("c1".to_string(), from("1"), publish("a"))),
        Some(("c1".to_string(), from("2"), publish("b"))),
        Some(("c1".to_string(), from("3"), publish("c"))),
    ]);
    let inflight = OutInflightMessage { from: from("9"), publish: publish("z"), update_time: 3 };
    stored.inflight_messages = Some(vec![inflight.clone()]);
    let mut infos = StoredSessionInfos::new();
    infos.add(stored);
    let (sessions, purges) = infos.rebuild_offline_sessions(&listeners(), NOW);
    assert_eq!(purges, Vec::new());
    assert_eq!(
        sessions,
        vec![RebuildSession {
            id: id("c1", 1),
            conn_info: basic("c1", 1).conn_info,
            created_at: 10,
            connected_at: 20,
            max_mqueue_len: 2,
            max_inflight: 16,
            subs: vec![Subscribe { topic_filter: "a/#".to_string(), qos: QoS::ExactlyOnce, shared_group: None }],
            disconnect_info: DisconnectInfo::new(NOW - HOUR / 2),
            deliver_queue: DeliverQueue {
                items: vec![(from("1"), publish("a")), (from("2"), publish("b"))],
                capacity: 2,
            },
            out_inflight: vec![inflight],
            session_expiry_interval: (HOUR / 2) as u64,
        }]
    );
}

#[test]
fn rebuild_follows_the_disconnect_record_and_the_listener() {
    let mut with_record = info("map-c1", "c1", 0);
    with_record.disconnect_info = Some(DisconnectInfo {
        disconnected_at: NOW - 1000,
        reasons: vec![Reason::ConnectKeepaliveTimeout],
        mqtt_disconnect: Some(Disconnect::Mqtt(Some(2))),
    });
    let mut unlisted = info("map-c2", "c2", NOW);
    unlisted.basic.id.lid = 77;
    let mut long = info("map-c3", "c3", NOW - 5 * HOUR);
    long.basic.id.lid = 2;
    let short = info("c4", "c4", NOW - HOUR);
    let mut infos = StoredSessionInfos::new();
    for stored in [with_record, unlisted, long, short] {
        infos.add(stored);
    }
    let (sessions, purges) = infos.rebuild_offline_sessions(&listeners(), NOW);
    assert_eq!(sessions.len(), 2);
    assert_eq!(sessions[0].id.client_id, "c1");
    assert_eq!(sessions[0].session_expiry_interval, 1000);
    assert_eq!(sessions[0].disconnect_info.disconnected_at, NOW - 1000);
    assert_eq!(sessions[0].disconnect_info.reasons, vec![Reason::ConnectKeepaliveTimeout]);
    assert_eq!(sessions[0].deliver_queue, DeliverQueue::new(2));
    assert_eq!(sessions[1].id.client_id, "c3");
    assert_eq!(sessions[1].session_expiry_interval, (5 * HOUR) as u64);
    assert_eq!(
        purges,
        vec![Purge::SessionMap(b"map-c4".to_vec()), Purge::SessionList(b"list-c4".to_vec())]
    );
}

#[test]
fn rebuilding_twice_from_the_same_records_gives_the_same_sessions() {
    let maps = || {
        vec![
            record("map-a", "a", NOW - 10),
            record("map-a-older", "a", NOW - 20),
            record("map-b", "b", NOW - 3 * HOUR),
            record("map-c", "c", NOW - 30),
        ]
    };
    let run = || {
        let mut infos = StoredSessionInfos::new();
        infos.load_offline_session_infos(maps(), Vec::new());
        infos.rebuild_offline_sessions(&listeners(), NOW)
    };
    let first = run();
    let second = run();
    assert_eq!(first, second);
    let clients: Vec<&str> = first.0.iter().map(|s| s.id.client_id.as_str()).collect();
    assert_eq!(clients, vec!["a", "c"]);

    let mut survivors = StoredSessionInfos::new();
    survivors.load_offline_session_infos(vec![record("map-a", "a", NOW - 10), record("map-c", "c", NOW - 30)], Vec::new());
    let (again, purges) = survivors.rebuild_offline_sessions(&listeners(), NOW);
    assert_eq!(again, first.0);
    assert_eq!(purges, Vec::new());
}

fn session(client: &str, limit: usize) -> Session {
    Session { id: id(client, 1), auth_info: None, protocol: None, max_mqueue_len: limit }
}

#[test]
fn an_offline_message_is_appended_to_the_list_of_the_session() {
    let handler = OfflineMessageHandler::new();
    let param = Parameter::OfflineMessage(session("c1", 5), from("p"), publish("t"));
    assert_eq!(
        handler.storage_action(&param),
        Some(StorageAction::PushOffline {
            key: b"list-c1".to_vec(),
            item: Some(("c1".to_string(), from("p"), publish("t"))),
            limit: 5,
        })
    );
    assert_eq!(handler.hook(&param, Some(HookResult::Exit)), (true, Some(HookResult::Exit)));
}

#[test]
fn the_messages_in_flight_replace_those_in_the_map() {
    let handler = OfflineMessageHandler::new();
    let inflight = vec![
        OutInflightMessage { from: from("a"), publish: publish("x"), update_time: 1 },
        OutInflightMessage { from: from("b"), publish: publish("y"), update_time: 2 },
    ];
    let param = Parameter::OfflineInflightMessages(session("ü", 5), inflight.clone());
    assert_eq!(
        handler.storage_action(&param),
        Some(StorageAction::StoreInflight { key: "map-ü".as_bytes().to_vec(), messages: inflight })
    );
    assert_eq!(handler.storage_action(&Parameter::BeforeStartup), None);
    assert_eq!(handler.hook(&param, None), (true, None));
}

#[test]
fn the_rebuild_fires_before_startup() {
    let handler = StorageHandler::new();
    assert!(handler.rebuilds(&Parameter::BeforeStartup));
    assert!(!handler.rebuilds(&Parameter::SessionCreated(session("c", 1))));
    assert_eq!(handler.hook(&Parameter::BeforeStartup, Some(HookResult::Disconnect)), (true, Some(HookResult::Disconnect)));
    assert_eq!(
        hooks(),
        vec![(Type::BeforeStartup, 0), (Type::OfflineMessage, 0), (Type::OfflineInflightMessages, 0)]
    );
}

#[test]
fn steps_of_the_rebuild_executor() {
    assert_eq!(rebuild_step(RebuildChanType::Done), RebuildAction::Finish);
    let mut infos = StoredSessionInfos::new();
    infos.add(info("map-c1", "c1", NOW));
    let (mut sessions, _) = infos.rebuild_offline_sessions(&listeners(), NOW);
    let session = sessions.remove(0);
    assert_eq!(rebuild_step(RebuildChanType::Session(session.clone())), RebuildAction::Restart(session));
    assert_eq!(REBUILD_REPORT_EVERY, 5000);
    assert!(!rebuild_report_due(0));
    assert!(!rebuild_report_due(4999));
    assert!(rebuild_report_due(5000));
    assert!(!rebuild_report_due(5001));
    assert!(rebuild_report_due(10_000));
}

#[test]
fn counts_for_the_statistics_stop_at_the_limit() {
    assert_eq!(STATS_LIMIT, 1000);
    assert_eq!(STATS_TIMEOUT_SECS, 1);
    let mut tally = Tally::new();
    assert_eq!(tally.label(), "0");
    for _ in 0..999 {
        assert!(!tally.observe());
    }
    assert_eq!(tally.label(), "999");
    assert!(tally.observe());
    assert_eq!(tally.count, 1000);
    assert!(tally.observe());
    assert_eq!(tally.count, 1000);
    assert_eq!(tally.label(), "1000+");
}

#[test]
fn what_is_told_of_the_store() {
    let told = attrs(Some((
        Tally { count: 3 },
        Tally { count: 1000 },
        Tally { count: 0 },
        Json::Str("sled".to_string()),
    )));
    assert_eq!(
        told.to_text().as_deref(),
        Some("{\"offline_message_count\":\"0\",\"offline_session_count\":\"1000+\",\"session_count\":\"3\",\"storage_info\":\"sled\"}")
    );
    assert_eq!(
        attrs(None).to_text().as_deref(),
        Some("{\"offline_message_count\":\"Elapsed\",\"offline_session_count\":\"Elapsed\",\"session_count\":\"Elapsed\",\"storage_info\":null}")
    );
}

#[test]
fn the_rebuild_is_handed_every_session_and_then_the_end() {
    let mut infos = StoredSessionInfos::new();
    infos.add(info("map-c1", "c1", NOW - 10));
    infos.add(info("map-c2", "c2", NOW - 20));
    let (sessions, _) = infos.rebuild_offline_sessions(&listeners(), NOW);
    assert_eq!(sessions.len(), 2);
    let messages = rebuild_messages(sessions.clone());
    assert_eq!(
        messages,
        vec![
            RebuildChanType::Session(sessions[0].clone()),
            RebuildChanType::Session(sessions[1].clone()),
            RebuildChanType::Done,
        ]
    );
    assert_eq!(rebuild_messages(Vec::new()), vec![RebuildChanType::Done]);
}

#[test]
fn loading_keeps_one_session_for_each_client() {
    let mut infos = StoredSessionInfos::new();
    infos.load_offline_session_infos(
        vec![
            record("map-a-1", "a", NOW - 30),
            record("map-b", "b", NOW - 5),
            record("map-a-2", "a", NOW - 10),
            record("map-a-3", "a", NOW - 20),
        ],
        Vec::new(),
    );
    let mut clients: Vec<&str> = infos.infos.iter().map(|i| i.basic.id.client_id.as_str()).collect();
    clients.sort();
    assert_eq!(clients, vec!["a", "b"]);
    let kept = infos.infos.iter().find(|i| i.basic.id.client_id == "a").unwrap();
    assert_eq!(kept.last_time, NOW - 10);
}
