use rmqtt_kernel::acl_cache::Permission;
use rmqtt_kernel::auth_http::{
    find_header, hooks, interpret_json, merge_headers, placeholders, response_result,
    ACLType, AuthError, AuthHandler, Encoding, Header, HttpRequest, HttpResponse, Method, PluginConfig,
    Req, Step,
};
use rmqtt_kernel::placeholder::expand;
use rmqtt_kernel::hook::{
    AuthResult, HookResult, Parameter, PublishAclResult, ReturnType, SubscribeAclResult, Type,
};
use rmqtt_kernel::json::Json;
use rmqtt_kernel::types::{
    to_seconds, Addr, AuthInfo, ConnectInfo, Disconnect, Id, Publish, QoS, Reason, Rule, RuleAccess, RuleAction,
    Session, Subscribe, SubscribeAckReason,
};

trait Done {
    fn done(self) -> Option<ReturnType>;
}

impl Done for Step {
    fn done(self) -> Option<ReturnType> {
        match self {
            Step::Done(ret) => Some(ret),
            _ => None,
        }
    }
}

fn id(client: &str) -> Id {
    Id {
        node_id: 1,
        lid: 1,
        local_addr: None,
        remote_addr: Some(Addr { ip: "192.168.1.7".to_string(), port: 40000 }),
        client_id: client.to_string(),
        username: Some("alice".to_string()),
    }
}

fn connect_info() -> ConnectInfo {
    ConnectInfo {
        id: id("c1"),
        proto_ver: 5,
        password: Some(b"secret".to_vec()),
        keepalive: 60,
        clean_start: true,
    }
}

fn session(auth_info: Option<AuthInfo>) -> Session {
    Session { id: id("c1"), auth_info, protocol: Some(4), max_mqueue_len: 100 }
}

fn publish(topic: &str) -> Publish {
    Publish {
        topic: topic.to_string(),
        payload: Vec::new(),
        qos: QoS::AtMostOnce,
        retain: false,
        dup: false,
        packet_id: None,
        create_time: 0,
    }
}

fn pair(name: &str, value: &str) -> (String, String) {
    (name.to_string(), value.to_string())
}

fn header(name: &str, value: &str) -> Header {
    Header { name: name.to_string(), value: value.as_bytes().to_vec() }
}

fn response(status: u16, headers: Vec<Header>, body: &str) -> HttpResponse {
    HttpResponse { status, headers, body: body.as_bytes().to_vec() }
}

fn auth_req() -> Req {
    Req {
        url: "http://h/auth".to_string(),
        method: Method::Get,
        json: false,
        headers: None,
        params: vec![pair("u", "%u"), pair("c", "%c")],
    }
}

fn acl_req() -> Req {
    Req {
        url: "http://h/acl".to_string(),
        method: Method::Post,
        json: true,
        headers: Some(vec![pair("x-token", "abc")]),
        params: vec![pair("access", "%A"), pair("topic", "%t"), pair("ip", "%a"), pair("proto", "%r")],
    }
}

fn config(deny_if_error: bool) -> PluginConfig {
    PluginConfig {
        priority: 100,
        http_timeout: 5000,
        headers: Some(vec![pair("accept", "*/*"), pair("x-token", "default")]),
        http_auth_req: Some(auth_req()),
        http_acl_req: Some(acl_req()),
        deny_if_error,
        disconnect_if_pub_rejected: true,
        disconnect_if_expiry: true,
    }
}

#[test]
fn permission_words() {
    assert_eq!(Permission::try_from("allow", true), Ok(Permission::Allow(true)));
    assert_eq!(Permission::try_from("deny", true), Ok(Permission::Deny));
    assert_eq!(Permission::try_from("ignore", false), Ok(Permission::Ignore));
    assert_eq!(Permission::try_from("Allow", false), Err(AuthError::ResultIncorrect));
    assert_eq!(Permission::try_from("", false), Err(AuthError::ResultIncorrect));
    assert_eq!(Permission::from("allow", false), Permission::Allow(false));
    assert_eq!(Permission::from("deny", false), Permission::Deny);
    assert_eq!(Permission::from("ignore", false), Permission::Ignore);
    assert_eq!(Permission::from("anything else", true), Permission::Allow(true));
}

#[test]
fn acl_type_codes() {
    assert_eq!(ACLType::Sub.as_str(), "1");
    assert_eq!(ACLType::Pub.as_str(), "2");
}

#[test]
fn placeholders_are_replaced_in_one_pass() {
    let client = id("c1");
    let password = b"p%c".to_vec();
    let topic = "t/%u".to_string();
    let values = placeholders(&client, Some(&password), Some(5), Some((ACLType::Pub, &topic)));
    assert_eq!(expand("%u", &values), "alice");
    assert_eq!(expand("%c-%a", &values), "c1-192.168.1.7");
    assert_eq!(expand("v%r", &values), "v5");
    assert_eq!(expand("%A:%t", &values), "2:t/%u");
    assert_eq!(expand("%P", &values), "p%c");
    assert_eq!(expand("100%", &values), "100%");
    assert_eq!(expand("%%u", &values), "%alice");
    assert_eq!(expand("%x%", &values), "%x%");
    assert_eq!(expand("", &values), "");
}

#[test]
fn placeholders_without_values() {
    let mut client = id("c1");
    client.username = None;
    client.remote_addr = None;
    let values = placeholders(&client, None, None, None);
    assert_eq!(expand("[%u][%a][%P][%A][%t]", &values), "[][][][][]");
    assert_eq!(expand("%r", &values), "%r");
}

#[test]
fn a_password_that_is_not_utf8_is_read_leniently() {
    let client = id("c1");
    let password = vec![b'a', 0xff, b'b'];
    let values = placeholders(&client, Some(&password), None, None);
    assert_eq!(expand("%P", &values), "a\u{fffd}b");
}

#[test]
fn replaces_keeps_names_and_changes_values() {
    let mut params = vec![pair("%u", "%u"), pair("k", "x%cy")];
    AuthHandler::replaces(&mut params, &id("c9"), None, Some(3), None);
    assert_eq!(params, vec![pair("%u", "alice"), pair("k", "xc9y")]);
}

#[test]
fn headers_of_the_request_replace_the_defaults() {
    let defaults = Some(vec![pair("accept", "*/*"), pair("x-token", "default")]);
    let own = Some(vec![pair("x-token", "abc")]);
    assert_eq!(merge_headers(&defaults, &own), vec![pair("accept", "*/*"), pair("x-token", "abc")]);
    assert_eq!(merge_headers(&defaults, &None), defaults.clone().unwrap());
    assert_eq!(merge_headers(&None, &own), own.clone().unwrap());
    assert_eq!(merge_headers(&None, &None), Vec::new());
}

#[test]
fn request_for_authentication() {
    let handler = AuthHandler::new(config(false));
    let info = connect_info();
    let request = handler.request(&info.id, &auth_req(), info.password.as_ref(), Some(5), None);
    assert_eq!(
        request,
        HttpRequest {
            method: Method::Get,
            url: "http://h/auth".to_string(),
            headers: vec![pair("accept", "*/*"), pair("x-token", "default")],
            encoding: Encoding::Query,
            params: vec![pair("u", "alice"), pair("c", "c1")],
            timeout: 5000,
        }
    );
}

#[test]
fn request_for_access_check() {
    let handler = AuthHandler::new(config(false));
    let topic = "t/1".to_string();
    let request = handler.request(&id("c1"), &acl_req(), None, Some(4), Some((ACLType::Sub, &topic)));
    assert_eq!(request.method, Method::Post);
    assert_eq!(request.encoding, Encoding::Json);
    assert_eq!(request.headers, vec![pair("accept", "*/*"), pair("x-token", "abc")]);
    assert_eq!(
        request.params,
        vec![pair("access", "1"), pair("topic", "t/1"), pair("ip", "192.168.1.7"), pair("proto", "4")]
    );
    let mut form = acl_req();
    form.json = false;
    assert_eq!(handler.request(&id("c1"), &form, None, None, None).encoding, Encoding::Form);
}

#[test]
fn find_header_takes_the_first_of_the_name() {
    let headers = vec![header("x-cache", "1"), header("x-cache", "2"), header("content-type", "text/plain")];
    assert_eq!(find_header(&headers, "x-cache"), Some(&b"1".to_vec()));
    assert_eq!(find_header(&headers, "content-type"), Some(&b"text/plain".to_vec()));
    assert_eq!(find_header(&headers, "x-superuser"), None);
}

#[test]
fn a_status_that_is_no_success_is_no_opinion() {
    for status in [199u16, 300, 404, 500] {
        let res = response_result(&response(status, vec![header("x-cache", "5000")], "allow")).unwrap();
        assert_eq!(res.permission, Permission::Ignore);
        assert!(!res.superuser);
        assert_eq!(res.cacheable, None);
    }
    for status in [200u16, 204, 299] {
        let res = response_result(&response(status, Vec::new(), "deny")).unwrap();
        assert_eq!(res.permission, Permission::Deny);
    }
}

#[test]
fn allow_with_superuser_header() {
    let resp = response(
        200,
        vec![header("content-type", "application/json"), header("x-superuser", "1")],
        "{\"result\":\"allow\"}",
    );
    let res = response_result(&resp).unwrap();
    assert_eq!(res.permission, Permission::Allow(true));
    assert!(res.superuser);
    assert_eq!(res.cacheable, None);
    assert_eq!(res.expire_at, None);
    assert!(res.acl_data.is_none());

    let mut handler = AuthHandler::new(config(false));
    let param = Parameter::ClientAuthenticate(connect_info());
    let step = handler.hook(&param, None, 1_000);
    match step {
        Step::Ask(request) => {
            assert_eq!(request.url, "http://h/auth");
            assert_eq!(request.params, vec![pair("u", "alice"), pair("c", "c1")]);
        },
        _ => panic!("the backend must be asked"),
    }
    let ret = handler.conclude(&param, Ok(resp), 1_000);
    assert_eq!(ret, (false, Some(HookResult::AuthResult(AuthResult::Allow(true, None)))));
}

#[test]
fn deny_if_error() {
    let param = Parameter::ClientAuthenticate(connect_info());
    let mut handler = AuthHandler::new(config(true));
    let ret = handler.conclude(&param, Err(AuthError::Transport), 0);
    assert_eq!(ret, (false, Some(HookResult::AuthResult(AuthResult::BadUsernameOrPassword))));
    let mut lenient = AuthHandler::new(config(false));
    assert_eq!(lenient.conclude(&param, Err(AuthError::Transport), 0), (true, None));
}

#[test]
fn publish_acl_is_answered_from_the_cache() {
    let mut handler = AuthHandler::new(config(false));
    let param = Parameter::MessagePublishCheckAcl(session(None), publish("t/1"));
    let resp = response(
        200,
        vec![header("content-type", "application/json"), header("x-cache", "5000")],
        "{\"result\":\"allow\"}",
    );
    let mut requests = 0;
    let now = 1_000_000;
    let first = match handler.hook(&param, None, now) {
        Step::Ask(_) => {
            requests += 1;
            handler.conclude(&param, Ok(resp.clone()), now)
        },
        Step::Done(ret) => ret,
        Step::Close(_, ret) => ret,
    };
    let second = match handler.hook(&param, None, now + 999) {
        Step::Ask(_) => {
            requests += 1;
            handler.conclude(&param, Ok(resp.clone()), now + 999)
        },
        Step::Done(ret) => ret,
        Step::Close(_, ret) => ret,
    };
    assert_eq!(requests, 1);
    assert_eq!(first, (false, Some(HookResult::PublishAclResult(PublishAclResult::Allow))));
    assert_eq!(second, (false, Some(HookResult::PublishAclResult(PublishAclResult::Allow))));
    assert_eq!(
        handler.caches.stored(&id("c1"), &"t/1".to_string()),
        Some((Permission::Allow(false), now + 5000))
    );
    assert!(matches!(handler.hook(&param, None, now + 5000), Step::Ask(_)));
}

#[test]
fn an_answer_without_cache_header_is_not_cached() {
    let mut handler = AuthHandler::new(config(false));
    let param = Parameter::MessagePublishCheckAcl(session(None), publish("t/1"));
    let ret = handler.conclude(&param, Ok(response(200, Vec::new(), "deny")), 50);
    assert_eq!(ret, (false, Some(HookResult::PublishAclResult(PublishAclResult::Rejected(true)))));
    assert_eq!(handler.caches.stored(&id("c1"), &"t/1".to_string()), None);
}

#[test]
fn a_negative_cache_lifetime_caches_for_ever() {
    let mut handler = AuthHandler::new(config(false));
    let param = Parameter::MessagePublishCheckAcl(session(None), publish("t/1"));
    handler.conclude(&param, Ok(response(200, vec![header("x-cache", "-1")], "ignore")), 50);
    assert_eq!(handler.caches.stored(&id("c1"), &"t/1".to_string()), Some((Permission::Ignore, -1)));
    assert_eq!(handler.hook(&param, None, i64::MAX).done(), Some((true, None)));
}

#[test]
fn the_cache_expiry_does_not_overflow() {
    let mut handler = AuthHandler::new(config(false));
    let param = Parameter::MessagePublishCheckAcl(session(None), publish("t/1"));
    let lifetime = format!("{}", i64::MAX);
    handler.conclude(&param, Ok(response(200, vec![header("x-cache", &lifetime)], "allow")), 10);
    assert_eq!(
        handler.caches.stored(&id("c1"), &"t/1".to_string()),
        Some((Permission::Allow(false), i64::MAX))
    );
}

#[test]
fn a_cache_header_that_is_no_number_is_ignored() {
    for value in ["soon", "", "1.5", " 5", "9223372036854775808"] {
        let res = response_result(&response(200, vec![header("x-cache", value)], "allow")).unwrap();
        assert_eq!(res.cacheable, None);
    }
    let bytes = Header { name: "x-cache".to_string(), value: vec![b'1', 0x01] };
    assert_eq!(response_result(&response(200, vec![bytes], "allow")).unwrap().cacheable, None);
    for (value, expected) in [("0", 0i64), ("+7", 7), ("-9223372036854775808", i64::MIN)] {
        let res = response_result(&response(200, vec![header("x-cache", value)], "allow")).unwrap();
        assert_eq!(res.cacheable, Some(expected));
    }
}

#[test]
fn json_object_bodies() {
    let json = vec![header("content-type", "application/json; charset=utf-8"), header("x-superuser", "")];
    let res = response_result(&response(
        200,
        json.clone(),
        "{\"result\":\"allow\",\"superuser\":false,\"expire_at\":1700000000,\"acl\":[]}",
    ))
    .unwrap();
    assert_eq!(res.permission, Permission::Allow(false));
    assert!(!res.superuser);
    assert_eq!(res.expire_at, Some(1_700_000_000));
    assert!(matches!(res.acl_data, Some(Json::Array(_))));

    let res = response_result(&response(200, json.clone(), "{\"result\":\"deny\",\"superuser\":\"yes\"}")).unwrap();
    assert_eq!(res.permission, Permission::Deny);
    assert!(res.superuser);

    assert_eq!(
        response_result(&response(200, json.clone(), "{\"superuser\":true}")).unwrap_err(),
        AuthError::ResultMissing
    );
    assert_eq!(
        response_result(&response(200, json.clone(), "{\"result\":1}")).unwrap_err(),
        AuthError::ResultMissing
    );
    assert_eq!(
        response_result(&response(200, json.clone(), "{\"result\":\"maybe\"}")).unwrap_err(),
        AuthError::ResultIncorrect
    );
    assert_eq!(response_result(&response(200, json.clone(), "[1]")).unwrap_err(), AuthError::BodyIncorrect);
    assert_eq!(response_result(&response(200, json.clone(), "allow")).unwrap_err(), AuthError::BodyNotJson);
    let res = response_result(&response(200, json.clone(), "\"ignore\"")).unwrap();
    assert_eq!(res.permission, Permission::Ignore);
    assert_eq!(
        response_result(&response(200, json, "\"nope\"")).unwrap_err(),
        AuthError::ResultIncorrect
    );
}

#[test]
fn interpret_json_takes_the_acl_out() {
    let doc = Json::parse(b"{\"acl\":[{\"a\":1}],\"result\":\"allow\"}").unwrap();
    let res = interpret_json(doc, true, Some(9)).unwrap();
    assert_eq!(res.permission, Permission::Allow(true));
    assert_eq!(res.cacheable, Some(9));
    match res.acl_data {
        Some(Json::Array(items)) => assert_eq!(items.len(), 1),
        _ => panic!("the acl is an array"),
    }
}

#[test]
fn a_plain_body_is_the_verdict_and_an_unknown_word_allows() {
    let res = response_result(&response(200, vec![header("content-type", "text/plain")], "ignore")).unwrap();
    assert_eq!(res.permission, Permission::Ignore);
    let res = response_result(&response(200, vec![header("x-superuser", "1")], "whatever")).unwrap();
    assert_eq!(res.permission, Permission::Allow(true));
}

#[test]
fn auth_builds_the_rules_of_the_session() {
    let handler = AuthHandler::new(config(false));
    let resp = response(
        200,
        vec![header("content-type", "application/json")],
        "{\"result\":\"allow\",\"superuser\":true,\"expire_at\":77,\"acl\":[{\"permission\":\"deny\",\"action\":\"publish\",\"topics\":[\"a/#\",\"b\"]}]}",
    );
    let (permission, info) = handler.auth(response_result(&resp));
    assert_eq!(permission, Permission::Allow(true));
    assert_eq!(
        info,
        Some(AuthInfo {
            superuser: true,
            expire_at: Some(77),
            rules: vec![Rule {
                access: RuleAccess::Deny,
                action: RuleAction::Publish,
                topics: vec!["a/#".to_string(), "b".to_string()],
            }],
        })
    );
    let bad = response(
        200,
        vec![header("content-type", "application/json")],
        "{\"result\":\"allow\",\"acl\":[{\"permission\":\"perhaps\"}]}",
    );
    assert_eq!(handler.auth(response_result(&bad)), (Permission::Allow(false), None));
    let denied = response(
        200,
        vec![header("content-type", "application/json")],
        "{\"result\":\"deny\",\"acl\":[]}",
    );
    assert_eq!(handler.auth(response_result(&denied)), (Permission::Deny, None));
}

#[test]
fn acl_verdicts() {
    let handler = AuthHandler::new(config(true));
    assert_eq!(handler.acl(Err(AuthError::Transport)), (Permission::Deny, None));
    assert_eq!(handler.acl(Err(AuthError::BodyNotJson)), (Permission::Deny, None));
    let lenient = AuthHandler::new(config(false));
    assert_eq!(lenient.acl(Err(AuthError::Transport)), (Permission::Ignore, None));
    let res = response_result(&response(200, vec![header("x-cache", "3")], "allow"));
    assert_eq!(lenient.acl(res), (Permission::Allow(false), Some(3)));
}

#[test]
fn an_authentication_that_has_already_run_out_is_refused() {
    let mut handler = AuthHandler::new(config(false));
    let param = Parameter::ClientAuthenticate(connect_info());
    let resp = response(
        200,
        vec![header("content-type", "application/json")],
        "{\"result\":\"allow\",\"expire_at\":100,\"acl\":[]}",
    );
    let ret = handler.conclude(&param, Ok(resp.clone()), 100_000);
    assert_eq!(ret, (false, Some(HookResult::AuthResult(AuthResult::NotAuthorized))));
    let ret = handler.conclude(&param, Ok(resp), 99_999);
    assert_eq!(
        ret,
        (
            false,
            Some(HookResult::AuthResult(AuthResult::Allow(
                false,
                Some(AuthInfo { superuser: false, expire_at: Some(100), rules: Vec::new() })
            )))
        )
    );
}

#[test]
fn a_failed_accumulator_ends_the_chain() {
    let mut handler = AuthHandler::new(config(false));
    let failed = Some(HookResult::AuthResult(AuthResult::NotAuthorized));
    let step = handler.hook(&Parameter::ClientAuthenticate(connect_info()), failed, 0);
    assert_eq!(step.done(), Some((false, Some(HookResult::AuthResult(AuthResult::NotAuthorized)))));
    let rejected = Some(HookResult::PublishAclResult(PublishAclResult::Rejected(false)));
    let step = handler.hook(&Parameter::MessagePublishCheckAcl(session(None), publish("t")), rejected, 0);
    assert_eq!(
        step.done(),
        Some((false, Some(HookResult::PublishAclResult(PublishAclResult::Rejected(false)))))
    );
    let refused = Some(HookResult::SubscribeAclResult(SubscribeAclResult::Failure(
        SubscribeAckReason::QuotaExceeded,
    )));
    let subscribe = Subscribe { topic_filter: "t".to_string(), qos: QoS::AtMostOnce, shared_group: None };
    let step = handler.hook(&Parameter::ClientSubscribeCheckAcl(session(None), subscribe), refused, 0);
    assert_eq!(
        step.done(),
        Some((
            false,
            Some(HookResult::SubscribeAclResult(SubscribeAclResult::Failure(
                SubscribeAckReason::QuotaExceeded
            )))
        ))
    );
}

#[test]
fn without_configured_requests_there_is_no_opinion() {
    let mut cfg = config(true);
    cfg.http_auth_req = None;
    cfg.http_acl_req = None;
    let mut handler = AuthHandler::new(cfg);
    let acc = Some(HookResult::Exit);
    assert_eq!(handler.hook(&Parameter::ClientAuthenticate(connect_info()), acc, 0).done(), Some((true, None)));
    let step = handler.hook(&Parameter::MessagePublishCheckAcl(session(None), publish("t")), None, 0);
    assert_eq!(step.done(), Some((true, None)));
}

#[test]
fn the_rules_of_the_session_decide_before_the_backend() {
    let mut handler = AuthHandler::new(config(false));
    let info = AuthInfo {
        superuser: false,
        expire_at: None,
        rules: vec![
            Rule { access: RuleAccess::Deny, action: RuleAction::Publish, topics: vec!["secret/#".to_string()] },
            Rule { access: RuleAccess::Allow, action: RuleAction::All, topics: vec!["open/+".to_string()] },
        ],
    };
    let step = handler.hook(
        &Parameter::MessagePublishCheckAcl(session(Some(info.clone())), publish("secret/x")),
        None,
        0,
    );
    assert_eq!(
        step.done(),
        Some((false, Some(HookResult::PublishAclResult(PublishAclResult::Rejected(true)))))
    );
    let subscribe =
        Subscribe { topic_filter: "open/a".to_string(), qos: QoS::ExactlyOnce, shared_group: None };
    let step = handler.hook(
        &Parameter::ClientSubscribeCheckAcl(session(Some(info.clone())), subscribe),
        None,
        0,
    );
    assert_eq!(
        step.done(),
        Some((false, Some(HookResult::SubscribeAclResult(SubscribeAclResult::Success(QoS::ExactlyOnce)))))
    );
    let step = handler.hook(
        &Parameter::MessagePublishCheckAcl(session(Some(info)), publish("elsewhere")),
        None,
        0,
    );
    assert!(matches!(step, Step::Ask(_)));
}

#[test]
fn subscribe_acl_is_not_cached() {
    let mut handler = AuthHandler::new(config(false));
    let subscribe = Subscribe { topic_filter: "t/1".to_string(), qos: QoS::AtLeastOnce, shared_group: None };
    let param = Parameter::ClientSubscribeCheckAcl(session(None), subscribe);
    let resp = response(200, vec![header("x-cache", "5000")], "allow");
    assert!(matches!(handler.hook(&param, None, 0), Step::Ask(_)));
    let ret = handler.conclude(&param, Ok(resp), 0);
    assert_eq!(
        ret,
        (false, Some(HookResult::SubscribeAclResult(SubscribeAclResult::Success(QoS::AtLeastOnce))))
    );
    assert_eq!(handler.caches.stored(&id("c1"), &"t/1".to_string()), None);
    assert!(matches!(handler.hook(&param, None, 1), Step::Ask(_)));
    let denied = handler.conclude(&param, Ok(response(200, Vec::new(), "deny")), 1);
    assert_eq!(
        denied,
        (
            false,
            Some(HookResult::SubscribeAclResult(SubscribeAclResult::Failure(
                SubscribeAckReason::NotAuthorized
            )))
        )
    );
}

#[test]
fn keepalive_of_an_expired_session_asks_to_close_it() {
    let mut handler = AuthHandler::new(config(false));
    let info = AuthInfo { superuser: false, expire_at: Some(10), rules: Vec::new() };
    let param = Parameter::ClientKeepalive(session(Some(info.clone())), true);
    match handler.hook(&param, None, 10_000) {
        Step::Close(reason, ret) => {
            assert_eq!(
                reason,
                Reason::ConnectDisconnect(Some(Disconnect::Other("Http Auth expired".to_string())))
            );
            assert_eq!(ret, (true, None));
        },
        _ => panic!("the session is to be closed"),
    }
    assert_eq!(handler.hook(&param, None, 9_999).done(), Some((true, None)));
    let mut cfg = config(false);
    cfg.disconnect_if_expiry = false;
    let mut quiet = AuthHandler::new(cfg);
    assert_eq!(quiet.hook(&param, Some(HookResult::Exit), 10_000).done(), Some((true, Some(HookResult::Exit))));
}

#[test]
fn a_disconnect_drops_the_cached_verdicts_of_the_session() {
    let mut handler = AuthHandler::new(config(false));
    handler.caches.cache_set(id("c1"), "t/1".to_string(), Permission::Allow(false), -1);
    handler.caches.cache_set(id("c2"), "t/1".to_string(), Permission::Deny, -1);
    let param = Parameter::ClientDisconnected(session(None), Reason::ConnectKeepaliveTimeout);
    assert_eq!(handler.hook(&param, None, 0).done(), Some((true, None)));
    assert_eq!(handler.caches.stored(&id("c1"), &"t/1".to_string()), None);
    assert_eq!(handler.caches.stored(&id("c2"), &"t/1".to_string()), Some((Permission::Deny, -1)));
}

#[test]
fn other_hooks_pass_through() {
    let mut handler = AuthHandler::new(config(false));
    assert_eq!(
        handler.hook(&Parameter::BeforeStartup, Some(HookResult::Disconnect), 0).done(),
        Some((true, Some(HookResult::Disconnect)))
    );
    assert_eq!(handler.conclude(&Parameter::BeforeStartup, Err(AuthError::Transport), 0), (true, None));
}

#[test]
fn seconds_of_an_instant() {
    assert_eq!(to_seconds(-5), 0);
    assert_eq!(to_seconds(0), 0);
    assert_eq!(to_seconds(999), 0);
    assert_eq!(to_seconds(1000), 1);
    assert_eq!(to_seconds(i64::MAX), 9_223_372_036_854_775);
}

#[test]
fn registered_hooks() {
    assert_eq!(
        hooks(7),
        vec![
            (Type::ClientAuthenticate, 7),
            (Type::ClientSubscribeCheckAcl, 7),
            (Type::MessagePublishCheckAcl, 7),
            (Type::ClientKeepalive, 0),
            (Type::ClientDisconnected, 0),
        ]
    );
}
