use jsonwebtoken::{Algorithm, DecodingKey, EncodingKey, Header};
use rmqtt_kernel::auth_jwt::{
    hooks, AuthHandler, JWTFrom, JwtError, PluginConfig, ValidateClaims, ValidationPlan,
};
use rmqtt_kernel::hook::{
    AuthResult, HookResult, Parameter, PublishAclResult, SubscribeAclResult, Type,
};
use rmqtt_kernel::json::Json;
use rmqtt_kernel::types::{
    Addr, AuthInfo, ConnectInfo, Disconnect, Id, Publish, QoS, Reason, Rule, RuleAccess, RuleAction,
    Session, Subscribe, SubscribeAckReason,
};

const SECRET: &[u8] = b"top-secret";

fn now_secs() -> u64 {
    std::time::SystemTime::now().duration_since(std::time::UNIX_EPOCH).unwrap().as_secs()
}

fn connect_info(username: Option<&str>, password: Option<&str>) -> ConnectInfo {
    ConnectInfo {
        id: Id {
            node_id: 1,
            lid: 1,
            local_addr: None,
            remote_addr: Some(Addr { ip: "10.1.2.3".to_string(), port: 5555 }),
            client_id: "c1".to_string(),
            username: username.map(|u| u.to_string()),
        },
        proto_ver: 5,
        password: password.map(|p| p.as_bytes().to_vec()),
        keepalive: 60,
        clean_start: true,
    }
}

fn claims_none() -> ValidateClaims {
    ValidateClaims {
        validate_exp_enable: false,
        validate_nbf_enable: false,
        validate_aud: None,
        validate_iss: None,
        validate_sub: None,
        validate_customs: Vec::new(),
    }
}

fn config(from: JWTFrom, validate_claims: ValidateClaims) -> PluginConfig {
    PluginConfig {
        priority: 50,
        from,
        decoded_key: DecodingKey::from_secret(SECRET),
        validate_claims,
        disconnect_if_pub_rejected: false,
        disconnect_if_expiry: true,
    }
}

fn token(claims: &str, secret: &[u8]) -> String {
    let claims: serde_json::Value = serde_json::from_str(claims).unwrap();
    jsonwebtoken::encode(&Header::new(Algorithm::HS256), &claims, &EncodingKey::from_secret(secret)).unwrap()
}

fn session(auth_info: Option<AuthInfo>) -> Session {
    Session {
        id: connect_info(None, None).id,
        auth_info,
        protocol: Some(5),
        max_mqueue_len: 10,
    }
}

#[test]
fn the_token_is_taken_from_the_configured_place() {
    let by_name = AuthHandler::new(config(JWTFrom::Username, claims_none()));
    assert_eq!(by_name.token(&connect_info(Some("tok"), Some("pw"))), Some("tok".to_string()));
    assert_eq!(by_name.token(&connect_info(None, Some("pw"))), None);
    let by_password = AuthHandler::new(config(JWTFrom::Password, claims_none()));
    assert_eq!(by_password.token(&connect_info(Some("tok"), Some("pw"))), Some("pw".to_string()));
    assert_eq!(by_password.token(&connect_info(Some("tok"), None)), None);
    let mut odd = connect_info(None, None);
    odd.password = Some(vec![b'a', 0xff]);
    assert_eq!(by_password.token(&odd), Some("a\u{fffd}".to_string()));
}

#[test]
fn expected_values_are_made_out_for_the_client() {
    let info = connect_info(Some("alice"), None);
    assert_eq!(
        AuthHandler::replaces(&info, "${username}/${clientid}/${ipaddr}/${protocol}"),
        Ok("alice/c1/10.1.2.3/5".to_string())
    );
    assert_eq!(AuthHandler::replaces(&info, "plain ${other} ${clientid"), Ok("plain ${other} ${clientid".to_string()));
    assert_eq!(AuthHandler::replaces(&info, "${clientid}${clientid}"), Ok("c1c1".to_string()));
    let mut tricky = connect_info(Some("${clientid}"), None);
    assert_eq!(AuthHandler::replaces(&tricky, "${username}"), Ok("${clientid}".to_string()));
    tricky.id.username = None;
    assert_eq!(AuthHandler::replaces(&tricky, "${username}"), Err(JwtError::UsernameMissing));
    assert_eq!(AuthHandler::replaces(&tricky, "${clientid}"), Ok("c1".to_string()));
    tricky.id.remote_addr = None;
    assert_eq!(AuthHandler::replaces(&tricky, "${ipaddr}"), Err(JwtError::IpaddrMissing));
    assert_eq!(AuthHandler::replaces(&tricky, "${ipaddr}${username}"), Err(JwtError::UsernameMissing));
    assert_eq!(
        AuthHandler::replaces_all(&info, &vec!["a".to_string(), "${clientid}".to_string()]),
        Ok(vec!["a".to_string(), "c1".to_string()])
    );
    assert_eq!(
        AuthHandler::replaces_all(&tricky, &vec!["${ipaddr}".to_string(), "${username}".to_string()]),
        Err(JwtError::IpaddrMissing)
    );
}

#[test]
fn the_validation_plan() {
    let info = connect_info(Some("alice"), None);
    let cfg = ValidateClaims {
        validate_exp_enable: true,
        validate_nbf_enable: false,
        validate_aud: Some(vec!["${clientid}".to_string(), "all".to_string()]),
        validate_iss: Some(Vec::new()),
        validate_sub: Some("${username}".to_string()),
        validate_customs: Vec::new(),
    };
    assert_eq!(
        AuthHandler::validation_plan(&info, &cfg),
        Ok(ValidationPlan {
            validate_exp: true,
            validate_nbf: false,
            validate_aud: true,
            aud: Some(vec!["c1".to_string(), "all".to_string()]),
            iss: None,
            sub: Some("alice".to_string()),
            required_spec_claims: vec!["aud".to_string(), "sub".to_string()],
        })
    );
    assert_eq!(
        AuthHandler::validation_plan(&info, &claims_none()),
        Ok(ValidationPlan {
            validate_exp: false,
            validate_nbf: false,
            validate_aud: false,
            aud: None,
            iss: None,
            sub: None,
            required_spec_claims: Vec::new(),
        })
    );
    let anonymous = connect_info(None, None);
    assert_eq!(AuthHandler::validation_plan(&anonymous, &cfg), Err(JwtError::UsernameMissing));
    let mut iss = claims_none();
    iss.validate_iss = Some(vec!["issuer".to_string()]);
    let plan = AuthHandler::validation_plan(&anonymous, &iss).unwrap();
    assert_eq!(plan.iss, Some(vec!["issuer".to_string()]));
    assert_eq!(plan.required_spec_claims, vec!["iss".to_string()]);
    assert!(!plan.validate_aud);
}

#[test]
fn a_token_signed_with_the_key_is_accepted() {
    let handler = AuthHandler::new(config(JWTFrom::Password, claims_none()));
    let info = connect_info(None, None);
    let good = token("{\"superuser\":true,\"n\":1}", SECRET);
    let claims = handler.standard_auth(&info, &good).unwrap();
    assert_eq!(claims.get("superuser").and_then(|v| v.as_bool()), Some(true));
    assert_eq!(claims.get("n").and_then(|v| v.as_u64()), Some(1));
    let forged = token("{\"superuser\":true}", b"another secret");
    assert_eq!(handler.standard_auth(&info, &forged).unwrap_err(), JwtError::Token);
    assert_eq!(handler.standard_auth(&info, "not a token").unwrap_err(), JwtError::Header);
    assert_eq!(handler.standard_auth(&info, "").unwrap_err(), JwtError::Header);
}

#[test]
fn registered_claims_are_checked() {
    let mut cfg = claims_none();
    cfg.validate_exp_enable = true;
    cfg.validate_aud = Some(vec!["${clientid}".to_string()]);
    cfg.validate_sub = Some("${username}".to_string());
    let handler = AuthHandler::new(config(JWTFrom::Password, cfg));
    let info = connect_info(Some("alice"), None);
    let exp = now_secs() + 3600;
    let good = token(&format!("{{\"exp\":{exp},\"aud\":\"c1\",\"sub\":\"alice\"}}"), SECRET);
    assert!(handler.standard_auth(&info, &good).is_ok());
    let wrong_aud = token(&format!("{{\"exp\":{exp},\"aud\":\"c2\",\"sub\":\"alice\"}}"), SECRET);
    assert_eq!(handler.standard_auth(&info, &wrong_aud).unwrap_err(), JwtError::Token);
    let wrong_sub = token(&format!("{{\"exp\":{exp},\"aud\":\"c1\",\"sub\":\"bob\"}}"), SECRET);
    assert_eq!(handler.standard_auth(&info, &wrong_sub).unwrap_err(), JwtError::Token);
    let no_sub = token(&format!("{{\"exp\":{exp},\"aud\":\"c1\"}}"), SECRET);
    assert_eq!(handler.standard_auth(&info, &no_sub).unwrap_err(), JwtError::Token);
    let old = now_secs() - 3600;
    let expired = token(&format!("{{\"exp\":{old},\"aud\":\"c1\",\"sub\":\"alice\"}}"), SECRET);
    assert_eq!(handler.standard_auth(&info, &expired).unwrap_err(), JwtError::Token);
    let anonymous = connect_info(None, None);
    assert_eq!(handler.standard_auth(&anonymous, &good).unwrap_err(), JwtError::UsernameMissing);
}

#[test]
fn custom_claims_must_have_an_allowed_value() {
    let mut cfg = claims_none();
    cfg.validate_customs = vec![
        ("role".to_string(), vec!["admin".to_string(), "user-${clientid}".to_string()]),
        ("zone".to_string(), vec!["eu".to_string()]),
    ];
    let handler = AuthHandler::new(config(JWTFrom::Password, cfg));
    let info = connect_info(None, None);
    let claims = |text: &str| Json::parse(text.as_bytes()).unwrap();
    assert_eq!(handler.extended_auth(&info, &claims("{\"role\":\"admin\",\"zone\":\"eu\"}")), Ok(()));
    assert_eq!(handler.extended_auth(&info, &claims("{\"role\":\"user-c1\",\"zone\":\"eu\"}")), Ok(()));
    assert_eq!(
        handler.extended_auth(&info, &claims("{\"role\":\"user-c2\",\"zone\":\"eu\"}")),
        Err(JwtError::Claim)
    );
    assert_eq!(handler.extended_auth(&info, &claims("{\"role\":\"admin\"}")), Err(JwtError::Claim));
    assert_eq!(
        handler.extended_auth(&info, &claims("{\"role\":[\"admin\"],\"zone\":\"eu\"}")),
        Err(JwtError::Claim)
    );
    let mut needs_name = claims_none();
    needs_name.validate_customs = vec![
        ("zone".to_string(), vec!["eu".to_string()]),
        ("owner".to_string(), vec!["${username}".to_string()]),
    ];
    let handler = AuthHandler::new(config(JWTFrom::Password, needs_name));
    assert_eq!(
        handler.extended_auth(&info, &claims("{\"zone\":\"us\"}")),
        Err(JwtError::UsernameMissing)
    );
    let free = AuthHandler::new(config(JWTFrom::Password, claims_none()));
    assert_eq!(free.extended_auth(&info, &Json::Null), Ok(()));
}

#[test]
fn the_claims_become_the_authentication_of_the_session() {
    let handler = AuthHandler::new(config(JWTFrom::Password, claims_none()));
    let info = connect_info(None, None);
    let claims = Json::parse(
        b"{\"superuser\":true,\"exp\":123,\"acl\":[{\"permission\":\"allow\",\"action\":\"all\",\"topics\":[\"#\"]}]}",
    )
    .unwrap();
    assert_eq!(
        handler.authenticated(&info, Ok(claims)),
        (
            false,
            Some(HookResult::AuthResult(AuthResult::Allow(
                true,
                Some(AuthInfo {
                    superuser: true,
                    expire_at: Some(123),
                    rules: vec![Rule {
                        access: RuleAccess::Allow,
                        action: RuleAction::All,
                        topics: vec!["#".to_string()],
                    }],
                })
            )))
        )
    );
    assert_eq!(
        handler.authenticated(&info, Ok(Json::parse(b"{}").unwrap())),
        (
            false,
            Some(HookResult::AuthResult(AuthResult::Allow(
                false,
                Some(AuthInfo { superuser: false, expire_at: None, rules: Vec::new() })
            )))
        )
    );
    let refused = (false, Some(HookResult::AuthResult(AuthResult::NotAuthorized)));
    assert_eq!(handler.authenticated(&info, Err(JwtError::Token)), refused);
    assert_eq!(
        handler.authenticated(&info, Ok(Json::parse(b"{\"acl\":[{\"permission\":\"x\"}]}").unwrap())),
        refused
    );
    let mut cfg = claims_none();
    cfg.validate_customs = vec![("role".to_string(), vec!["admin".to_string()])];
    let strict = AuthHandler::new(config(JWTFrom::Password, cfg));
    assert_eq!(strict.authenticated(&info, Ok(Json::parse(b"{\"role\":\"guest\"}").unwrap())), refused);
}

#[test]
fn authentication_through_the_hook() {
    let handler = AuthHandler::new(config(JWTFrom::Password, claims_none()));
    let good = token("{\"superuser\":false}", SECRET);
    let param = Parameter::ClientAuthenticate(connect_info(None, Some(&good)));
    assert_eq!(
        handler.hook(&param, None, 0),
        (
            (
                false,
                Some(HookResult::AuthResult(AuthResult::Allow(
                    false,
                    Some(AuthInfo { superuser: false, expire_at: None, rules: Vec::new() })
                )))
            ),
            None
        )
    );
    let refused = (false, Some(HookResult::AuthResult(AuthResult::NotAuthorized)));
    let missing = Parameter::ClientAuthenticate(connect_info(Some("name"), None));
    assert_eq!(handler.hook(&missing, None, 0), (refused, None));
    let garbage = Parameter::ClientAuthenticate(connect_info(None, Some("garbage")));
    assert_eq!(
        handler.hook(&garbage, None, 0),
        ((false, Some(HookResult::AuthResult(AuthResult::NotAuthorized))), None)
    );
    let failed = Some(HookResult::AuthResult(AuthResult::BadUsernameOrPassword));
    assert_eq!(
        handler.hook(&param, failed, 0),
        ((false, Some(HookResult::AuthResult(AuthResult::BadUsernameOrPassword))), None)
    );
}

#[test]
fn an_expired_token_triggers_a_disconnect_at_the_next_keepalive() {
    let handler = AuthHandler::new(config(JWTFrom::Password, claims_none()));
    let now = 1_700_000_000_000i64;
    let expired = AuthInfo { superuser: false, expire_at: Some(1_700_000_000 - 1), rules: Vec::new() };
    let param = Parameter::ClientKeepalive(session(Some(expired.clone())), true);
    let (ret, close) = handler.hook(&param, None, now);
    assert_eq!(ret, (true, None));
    assert_eq!(
        close,
        Some(Reason::ConnectDisconnect(Some(Disconnect::Other("JWT Auth expired".to_string()))))
    );
    let valid = AuthInfo { superuser: false, expire_at: Some(1_700_000_000 + 1), rules: Vec::new() };
    assert_eq!(handler.hook(&Parameter::ClientKeepalive(session(Some(valid)), true), None, now), ((true, None), None));
    assert_eq!(handler.hook(&Parameter::ClientKeepalive(session(None), true), None, now), ((true, None), None));
    let mut cfg = config(JWTFrom::Password, claims_none());
    cfg.disconnect_if_expiry = false;
    let quiet = AuthHandler::new(cfg);
    assert_eq!(quiet.hook(&param, None, now), ((true, None), None));
}

#[test]
fn access_checks_follow_the_rules_of_the_session() {
    let handler = AuthHandler::new(config(JWTFrom::Password, claims_none()));
    let info = AuthInfo {
        superuser: false,
        expire_at: None,
        rules: vec![Rule { access: RuleAccess::Deny, action: RuleAction::All, topics: vec!["no/#".to_string()] }],
    };
    let publish = |topic: &str| Publish {
        topic: topic.to_string(),
        payload: Vec::new(),
        qos: QoS::AtMostOnce,
        retain: false,
        dup: false,
        packet_id: None,
        create_time: 0,
    };
    assert_eq!(
        handler.hook(&Parameter::MessagePublishCheckAcl(session(Some(info.clone())), publish("no/1")), None, 0),
        ((false, Some(HookResult::PublishAclResult(PublishAclResult::Rejected(false)))), None)
    );
    assert_eq!(
        handler.hook(
            &Parameter::MessagePublishCheckAcl(session(Some(info.clone())), publish("yes")),
            Some(HookResult::Exit),
            0
        ),
        ((true, Some(HookResult::Exit)), None)
    );
    let subscribe = Subscribe { topic_filter: "no/x".to_string(), qos: QoS::AtMostOnce, shared_group: None };
    assert_eq!(
        handler.hook(&Parameter::ClientSubscribeCheckAcl(session(Some(info)), subscribe.clone()), None, 0),
        (
            (
                false,
                Some(HookResult::SubscribeAclResult(SubscribeAclResult::Failure(
                    SubscribeAckReason::NotAuthorized
                )))
            ),
            None
        )
    );
    assert_eq!(
        handler.hook(&Parameter::ClientSubscribeCheckAcl(session(None), subscribe), None, 0),
        ((true, None), None)
    );
    let rejected = Some(HookResult::PublishAclResult(PublishAclResult::Rejected(true)));
    assert_eq!(
        handler.hook(&Parameter::MessagePublishCheckAcl(session(None), publish("t")), rejected, 0),
        ((false, Some(HookResult::PublishAclResult(PublishAclResult::Rejected(true)))), None)
    );
    assert_eq!(handler.hook(&Parameter::BeforeStartup, None, 0), ((true, None), None));
}

#[test]
fn registered_hooks_of_the_jwt_backend() {
    assert_eq!(
        hooks(3),
        vec![
            (Type::ClientAuthenticate, 3),
            (Type::ClientSubscribeCheckAcl, 3),
            (Type::MessagePublishCheckAcl, 3),
            (Type::ClientKeepalive, 0),
        ]
    );
}
