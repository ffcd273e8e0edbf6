use rmqtt_kernel::acl_cache::{AclCache, Permission};
use rmqtt_kernel::types::{Addr, Id};

fn id(client: &str) -> Id {
    Id {
        node_id: 1,
        lid: 1,
        local_addr: None,
        remote_addr: Some(Addr { ip: "10.0.0.9".to_string(), port: 50000 }),
        client_id: client.to_string(),
        username: None,
    }
}

#[test]
fn a_new_cache_holds_nothing() {
    let cache = AclCache::new();
    assert_eq!(cache.stored(&id("c1"), &"t/1".to_string()), None);
}

#[test]
fn cache_set_then_get_before_and_after_expiry() {
    let mut cache = AclCache::new();
    let topic = "t/1".to_string();
    cache.cache_set(id("c1"), topic.clone(), Permission::Allow(false), 5000);
    assert_eq!(cache.stored(&id("c1"), &topic), Some((Permission::Allow(false), 5000)));
    assert_eq!(cache.lookup(&id("c1"), &topic, 4999), Some((Permission::Allow(false), 5000)));
    assert_eq!(cache.lookup(&id("c1"), &topic, 5000), None);
    assert_eq!(cache.stored(&id("c1"), &topic), None);
}

#[test]
fn a_stale_entry_is_dropped_on_access() {
    let mut cache = AclCache::new();
    let topic = "t/1".to_string();
    cache.cache_set(id("c1"), topic.clone(), Permission::Deny, 10);
    cache.cache_set(id("c1"), "t/2".to_string(), Permission::Deny, 1_000_000);
    assert_eq!(cache.lookup(&id("c1"), &topic, 11), None);
    assert_eq!(cache.stored(&id("c1"), &topic), None);
    assert_eq!(cache.stored(&id("c1"), &"t/2".to_string()), Some((Permission::Deny, 1_000_000)));
}

#[test]
fn a_negative_expiry_never_runs_out() {
    let mut cache = AclCache::new();
    let topic = "t".to_string();
    cache.cache_set(id("c1"), topic.clone(), Permission::Ignore, -1);
    assert_eq!(cache.lookup(&id("c1"), &topic, i64::MAX), Some((Permission::Ignore, -1)));
}

#[test]
fn an_expiry_of_zero_is_never_fresh() {
    let mut cache = AclCache::new();
    let topic = "t".to_string();
    cache.cache_set(id("c1"), topic.clone(), Permission::Allow(true), 0);
    assert_eq!(cache.lookup(&id("c1"), &topic, 0), None);
}

#[test]
fn cache_set_replaces_the_entry_of_the_topic() {
    let mut cache = AclCache::new();
    let topic = "t".to_string();
    cache.cache_set(id("c1"), topic.clone(), Permission::Allow(true), 100);
    cache.cache_set(id("c1"), topic.clone(), Permission::Deny, 200);
    assert_eq!(cache.stored(&id("c1"), &topic), Some((Permission::Deny, 200)));
}

#[test]
fn cache_remove_clears_one_session_only() {
    let mut cache = AclCache::new();
    cache.cache_set(id("c1"), "a".to_string(), Permission::Allow(false), 100);
    cache.cache_set(id("c1"), "b".to_string(), Permission::Deny, 100);
    cache.cache_set(id("c2"), "a".to_string(), Permission::Deny, 100);
    cache.cache_remove(&id("c1"));
    assert_eq!(cache.stored(&id("c1"), &"a".to_string()), None);
    assert_eq!(cache.stored(&id("c1"), &"b".to_string()), None);
    assert_eq!(cache.lookup(&id("c1"), &"a".to_string(), 1), None);
    assert_eq!(cache.stored(&id("c2"), &"a".to_string()), Some((Permission::Deny, 100)));
}

#[test]
fn sessions_are_told_apart_by_every_field_of_the_id() {
    let mut cache = AclCache::new();
    let mut other = id("c1");
    other.node_id = 2;
    cache.cache_set(id("c1"), "a".to_string(), Permission::Allow(false), 100);
    assert_eq!(cache.stored(&other, &"a".to_string()), None);
}

#[test]
fn cache_get_serves_an_entry_until_its_expiry() {
    let mut cache = AclCache::new();
    let topic = "t/1".to_string();
    cache.cache_set(id("c1"), topic.clone(), Permission::Deny, 50);
    assert_eq!(cache.cache_get(&id("c1"), &topic, 0), Some((Permission::Deny, 50)));
    assert_eq!(cache.cache_get(&id("c1"), &topic, 49), Some((Permission::Deny, 50)));
    assert_eq!(cache.cache_get(&id("c1"), &topic, 50), None);
    assert_eq!(cache.cache_get(&id("c1"), &topic, 51), None);
    assert_eq!(cache.cache_get(&id("c1"), &topic, i64::MAX), None);
}

#[test]
fn cache_get_leaves_a_stale_entry_where_it_is() {
    let mut cache = AclCache::new();
    let topic = "t/1".to_string();
    cache.cache_set(id("c1"), topic.clone(), Permission::Allow(true), 50);
    assert_eq!(cache.cache_get(&id("c1"), &topic, 60), None);
    assert_eq!(cache.stored(&id("c1"), &topic), Some((Permission::Allow(true), 50)));
    assert_eq!(cache.cache_get(&id("c1"), &topic, 10), Some((Permission::Allow(true), 50)));
}

#[test]
fn cache_get_serves_a_negative_expiry_at_any_time() {
    let mut cache = AclCache::new();
    let topic = "t".to_string();
    cache.cache_set(id("c1"), topic.clone(), Permission::Ignore, -1);
    assert_eq!(cache.cache_get(&id("c1"), &topic, i64::MIN), Some((Permission::Ignore, -1)));
    assert_eq!(cache.cache_get(&id("c1"), &topic, i64::MAX), Some((Permission::Ignore, -1)));
    assert_eq!(cache.cache_get(&id("c1"), &"u".to_string(), 0), None);
}

#[test]
fn cache_get_serves_nothing_after_a_disconnect() {
    let mut cache = AclCache::new();
    cache.cache_set(id("c1"), "a".to_string(), Permission::Deny, -1);
    cache.cache_set(id("c2"), "a".to_string(), Permission::Deny, -1);
    cache.cache_remove(&id("c1"));
    assert_eq!(cache.cache_get(&id("c1"), &"a".to_string(), 0), None);
    assert_eq!(cache.cache_get(&id("c2"), &"a".to_string(), 0), Some((Permission::Deny, -1)));
}

#[test]
fn the_key_of_an_id_holds_its_fields_in_order() {
    let mut full = id("c1");
    full.local_addr = Some(Addr { ip: "127.0.0.1".to_string(), port: 1883 });
    full.username = Some("u".to_string());
    assert_eq!(
        full.key(),
        (
            1,
            1,
            Some(("127.0.0.1".to_string(), 1883)),
            Some(("10.0.0.9".to_string(), 50000)),
            "c1".to_string(),
            Some("u".to_string()),
        )
    );
    assert_eq!(id("c2").key(), (1, 1, None, Some(("10.0.0.9".to_string(), 50000)), "c2".to_string(), None));
}
