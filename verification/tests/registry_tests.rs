use epistulus::models::{GuildSubscription, SubscriptionTier};
use epistulus::registry::{
    derive_feed_id, tier_gate_admit, valid_url, RegistryError, SourceRegistry,
};
use epistulus::storekeys::FirestoreService;

fn free_billing(guild_id: u64) -> GuildSubscription {
    GuildSubscription::new_free(guild_id, 1000)
}

fn premium_billing(guild_id: u64) -> GuildSubscription {
    let mut b = GuildSubscription::new_free(guild_id, 1000);
    b.tier = SubscriptionTier::Premium;
    b
}

#[test]
fn register_stores_a_source_with_derived_id() {
    let mut reg = SourceRegistry::new();
    let billing = free_billing(7);
    let r = reg
        .register(
            Some(7),
            "Example".to_string(),
            "https://example.com/feed.xml".to_string(),
            &billing,
            2000,
        )
        .unwrap();
    assert_eq!(r.id, "example_com");
    assert_eq!(r.name, "Example");
    assert_eq!(r.url, "https://example.com/feed.xml");
    assert!(r.enabled);
    assert_eq!(r.guild_id, Some(7));
    assert_eq!(r.last_updated, None);
    let listed = reg.list(Some(7));
    assert_eq!(listed.len(), 1);
    assert_eq!(listed[0].id, "example_com");
    assert!(reg.get(Some(7), "example_com").is_some());
    assert!(reg.get(Some(8), "example_com").is_none());
}

#[test]
fn register_rejects_a_bad_scheme() {
    let mut reg = SourceRegistry::new();
    let billing = free_billing(7);
    let r = reg.register(
        Some(7),
        "X".to_string(),
        "ftp://example.com/feed".to_string(),
        &billing,
        2000,
    );
    assert_eq!(r.unwrap_err(), RegistryError::InvalidUrl);
    assert_eq!(reg.list(Some(7)).len(), 0);
}

#[test]
fn quota_denies_the_fourth_free_source_and_leaves_the_count() {
    let mut reg = SourceRegistry::new();
    let mut billing = free_billing(7);
    for url in [
        "https://a.example.com/feed",
        "https://b.example.com/feed",
        "https://c.example.com/feed",
    ] {
        billing.feed_count = reg.count_enabled_for(Some(7));
        reg.register(Some(7), "s".to_string(), url.to_string(), &billing, 2000)
            .unwrap();
    }
    assert_eq!(reg.count_enabled_for(Some(7)), 3);
    billing.feed_count = 3;
    let r = reg.register(
        Some(7),
        "s".to_string(),
        "https://d.example.com/feed".to_string(),
        &billing,
        2000,
    );
    assert_eq!(r.unwrap_err(), RegistryError::QuotaExceeded);
    assert_eq!(reg.count_enabled_for(Some(7)), 3);
    // another tenant is untouched by all of this
    assert_eq!(reg.count_enabled_for(Some(8)), 0);
}

#[test]
fn premium_goes_past_the_free_limit() {
    let mut reg = SourceRegistry::new();
    let billing = premium_billing(7);
    for url in [
        "https://a.example.com/feed",
        "https://b.example.com/feed",
        "https://c.example.com/feed",
        "https://d.example.com/feed",
        "https://e.example.com/feed",
    ] {
        reg.register(Some(7), "s".to_string(), url.to_string(), &billing, 2000)
            .unwrap();
    }
    assert_eq!(reg.count_enabled_for(Some(7)), 5);
}

#[test]
fn reregistering_the_same_endpoint_overwrites() {
    let mut reg = SourceRegistry::new();
    let billing = premium_billing(7);
    reg.register(
        Some(7),
        "first".to_string(),
        "https://example.com/feed.xml".to_string(),
        &billing,
        2000,
    )
    .unwrap();
    reg.register(
        Some(7),
        "second".to_string(),
        "https://example.com/other.xml".to_string(),
        &billing,
        2000,
    )
    .unwrap();
    assert_eq!(reg.list(Some(7)).len(), 1);
    assert_eq!(reg.get(Some(7), "example_com").unwrap().name, "second");
}

#[test]
fn the_same_url_registers_independently_per_tenant() {
    let mut reg = SourceRegistry::new();
    let b7 = free_billing(7);
    let b8 = free_billing(8);
    reg.register(Some(7), "a".to_string(), "https://example.com/f".to_string(), &b7, 0)
        .unwrap();
    reg.register(Some(8), "b".to_string(), "https://example.com/f".to_string(), &b8, 0)
        .unwrap();
    assert_eq!(reg.list(Some(7)).len(), 1);
    assert_eq!(reg.list(Some(8)).len(), 1);
    assert_eq!(reg.get(Some(7), "example_com").unwrap().name, "a");
    assert_eq!(reg.get(Some(8), "example_com").unwrap().name, "b");
}

#[test]
fn remove_returns_the_entry_and_not_found_reports() {
    let mut reg = SourceRegistry::new();
    let billing = free_billing(7);
    reg.register(Some(7), "a".to_string(), "https://example.com/f".to_string(), &billing, 0)
        .unwrap();
    let removed = reg.remove(Some(7), "example_com").unwrap();
    assert_eq!(removed.name, "a");
    assert_eq!(reg.list(Some(7)).len(), 0);
    assert_eq!(
        reg.remove(Some(7), "example_com").unwrap_err(),
        RegistryError::NotFound
    );
}

#[test]
fn update_watermark_touches_only_the_named_source() {
    let mut reg = SourceRegistry::new();
    let billing = premium_billing(7);
    reg.register(Some(7), "a".to_string(), "https://a.example.com/f".to_string(), &billing, 0)
        .unwrap();
    reg.register(Some(7), "b".to_string(), "https://b.example.com/f".to_string(), &billing, 0)
        .unwrap();
    assert!(reg.update_watermark(Some(7), "a_example_com", 555));
    assert!(!reg.update_watermark(Some(7), "missing", 555));
    assert_eq!(reg.get(Some(7), "a_example_com").unwrap().last_updated, Some(555));
    assert_eq!(reg.get(Some(7), "b_example_com").unwrap().last_updated, None);
}

#[test]
fn revert_registration_restores_the_previous_entry() {
    let mut reg = SourceRegistry::new();
    let billing = premium_billing(7);
    let first = reg
        .register(Some(7), "old".to_string(), "https://example.com/f".to_string(), &billing, 0)
        .unwrap();
    reg.register(Some(7), "new".to_string(), "https://example.com/g".to_string(), &billing, 0)
        .unwrap();
    reg.revert_registration(Some(7), "example_com", Some(first));
    assert_eq!(reg.get(Some(7), "example_com").unwrap().name, "old");
    // reverting a fresh registration removes it entirely
    reg.revert_registration(Some(7), "example_com", None);
    assert!(reg.get(Some(7), "example_com").is_none());
}

#[test]
fn tier_gate_reads_validity_and_limits() {
    let mut rec = GuildSubscription::new_free(7, 1000);
    assert!(tier_gate_admit(&rec, 2, 2000));
    assert!(!tier_gate_admit(&rec, 3, 2000));
    rec.is_active = false;
    assert!(!tier_gate_admit(&rec, 0, 2000));
    rec.is_active = true;
    rec.expires_at = Some(1500);
    assert!(!tier_gate_admit(&rec, 0, 2000)); // expired behaves as invalid
    rec.expires_at = Some(9000);
    rec.tier = SubscriptionTier::Enterprise;
    assert!(tier_gate_admit(&rec, 100000, 2000));
}

#[test]
fn feed_ids_come_from_the_host_alone() {
    assert!(valid_url("http://x.y/z"));
    assert!(!valid_url("example.com/feed"));
    assert_eq!(derive_feed_id("https://blog.example.co.uk/path/x"), "blog_example_co_uk");
    assert_eq!(derive_feed_id("http://example.com"), "example_com");
    assert_eq!(derive_feed_id("https://example.com/feed.xml"), "example_com");
}

#[test]
fn feed_keys_render_and_parse_back() {
    let svc = FirestoreService::new();
    assert_eq!(svc.create_feed_key(Some(42), "abc"), "42:abc");
    assert_eq!(svc.create_feed_key(None, "abc"), "global:abc");
    let (g, f) = svc.parse_feed_key("42:abc");
    assert_eq!(g, Some(42));
    assert_eq!(f, "abc");
    let (g, f) = svc.parse_feed_key("global:xyz");
    assert_eq!(g, None);
    assert_eq!(f, "xyz");
    let (g, f) = svc.parse_feed_key("nocolon");
    assert_eq!(g, None);
    assert_eq!(f, "nocolon");
    // a malformed prefix leaves the whole key as the feed id
    let (g, f) = svc.parse_feed_key("abc:def");
    assert_eq!(g, None);
    assert_eq!(f, "abc:def");
    // a feed id containing the separator still round-trips
    let (g, f) = svc.parse_feed_key(&svc.create_feed_key(Some(5), "a:b"));
    assert_eq!(g, Some(5));
    assert_eq!(f, "a:b");
}
