use epistulus::models::{BlogPost, NotificationFormat, SubscriptionFilters};
use epistulus::subs::{
    interval_allows_exec, matches_filters, select_posts, SubscriptionIndex, UnsubscribeOutcome,
};

fn post(title: &str, description: Option<&str>, tags: &[&str], published: Option<i64>) -> BlogPost {
    BlogPost {
        id: "id".to_string(),
        title: title.to_string(),
        link: "https://example.com/p".to_string(),
        description: description.map(|s| s.to_string()),
        author: None,
        published,
        updated: None,
        source_id: "src".to_string(),
        tags: tags.iter().map(|s| s.to_string()).collect(),
        content: None,
    }
}

fn filters(inc: &[&str], exclude: &[&str], keywords: &[&str]) -> SubscriptionFilters {
    SubscriptionFilters {
        include_tags: inc.iter().map(|s| s.to_string()).collect(),
        exclude_tags: exclude.iter().map(|s| s.to_string()).collect(),
        keywords: keywords.iter().map(|s| s.to_string()).collect(),
        min_publish_interval: None,
    }
}

#[test]
fn subscribe_creates_a_destination_with_defaults() {
    let mut idx = SubscriptionIndex::new();
    idx.subscribe(100, Some(7), "example_com");
    let sub = idx.list_for_destination(100).unwrap();
    assert_eq!(sub.channel_id, 100);
    assert_eq!(sub.guild_id, Some(7));
    assert_eq!(sub.subscribed_sources, vec!["example_com".to_string()]);
    assert!(matches!(sub.notification_settings.format, NotificationFormat::Rich));
    assert!(sub.notification_settings.include_preview);
    assert_eq!(sub.notification_settings.max_posts_per_batch, 5);
    assert!(sub.filters.include_tags.is_empty());
}

#[test]
fn subscribing_twice_keeps_one_entry() {
    let mut idx = SubscriptionIndex::new();
    idx.subscribe(100, Some(7), "a");
    idx.subscribe(100, Some(7), "a");
    idx.subscribe(100, Some(7), "b");
    let sub = idx.list_for_destination(100).unwrap();
    assert_eq!(sub.subscribed_sources, vec!["a".to_string(), "b".to_string()]);
}

#[test]
fn unsubscribe_reports_each_case() {
    let mut idx = SubscriptionIndex::new();
    assert_eq!(idx.unsubscribe(100, "a"), UnsubscribeOutcome::NoChannel);
    idx.subscribe(100, Some(7), "a");
    assert_eq!(idx.unsubscribe(100, "b"), UnsubscribeOutcome::NotSubscribed);
    assert_eq!(idx.unsubscribe(100, "a"), UnsubscribeOutcome::Removed);
    // an empty subscription list is a valid terminal state
    assert!(idx.list_for_destination(100).unwrap().subscribed_sources.is_empty());
}

#[test]
fn resolution_is_tenant_isolated() {
    let mut idx = SubscriptionIndex::new();
    // a destination in tenant 7 and one in tenant 8 both list the same id
    idx.subscribe(100, Some(7), "example_com");
    idx.subscribe(200, Some(8), "example_com");
    idx.subscribe(300, None, "example_com");
    let for_7 = idx.resolve_subscribers(Some(7), "example_com");
    assert_eq!(for_7.len(), 1);
    assert_eq!(for_7[0].channel_id, 100);
    let for_8 = idx.resolve_subscribers(Some(8), "example_com");
    assert_eq!(for_8.len(), 1);
    assert_eq!(for_8[0].channel_id, 200);
    // a source of tenant 9: nobody subscribed there, even with matching ids
    assert!(idx.resolve_subscribers(Some(9), "example_com").is_empty());
    let global = idx.resolve_subscribers(None, "example_com");
    assert_eq!(global.len(), 1);
    assert_eq!(global[0].channel_id, 300);
}

#[test]
fn filters_judge_tags_and_keywords() {
    let p = post("Verus verifies Rust", Some("a deep dive"), &["rust", "formal"], None);
    assert!(matches_filters(&p, &filters(&[], &[], &[])));
    assert!(matches_filters(&p, &filters(&["rust"], &[], &[])));
    assert!(!matches_filters(&p, &filters(&["python"], &[], &[])));
    assert!(!matches_filters(&p, &filters(&[], &["formal"], &[])));
    assert!(matches_filters(&p, &filters(&[], &["python"], &[])));
    // keywords match the title or the summary, ignoring ASCII case
    assert!(matches_filters(&p, &filters(&[], &[], &["VERUS"])));
    assert!(matches_filters(&p, &filters(&[], &[], &["DEEP dive"])));
    assert!(!matches_filters(&p, &filters(&[], &[], &["coq"])));
    // any one keyword suffices
    assert!(matches_filters(&p, &filters(&[], &[], &["coq", "rust"])));
}

#[test]
fn the_interval_gate_paces_dated_items() {
    let f = SubscriptionFilters {
        include_tags: vec![],
        exclude_tags: vec![],
        keywords: vec![],
        min_publish_interval: Some(600),
    };
    assert!(interval_allows_exec(&f, None, Some(1000)));
    assert!(interval_allows_exec(&f, Some(1000), Some(1600)));
    assert!(!interval_allows_exec(&f, Some(1000), Some(1599)));
    assert!(interval_allows_exec(&f, Some(1000), None));
    let posts = vec![
        post("a", None, &[], Some(1000)),
        post("b", None, &[], Some(1300)),
        post("c", None, &[], Some(1700)),
        post("d", None, &[], Some(2200)),
    ];
    let kept = select_posts(&posts, &f, None);
    let titles: Vec<&str> = kept.iter().map(|p| p.title.as_str()).collect();
    // b follows a too closely; c clears a by 700; d clears c by 500 short of 600
    assert_eq!(titles, vec!["a", "c"]);
}

#[test]
fn tenant_statistics_count_only_their_scope() {
    let mut idx = SubscriptionIndex::new();
    idx.subscribe(100, Some(7), "a");
    idx.subscribe(100, Some(7), "b");
    idx.subscribe(200, Some(7), "a");
    idx.subscribe(300, Some(8), "a");
    assert_eq!(idx.count_channels_for(Some(7)), 2);
    assert_eq!(idx.count_channels_for(Some(8)), 1);
    assert_eq!(idx.total_subscribed_for(Some(7)), 3);
    assert_eq!(idx.total_subscribed_for(Some(8)), 1);
    assert_eq!(idx.total_subscribed_for(None), 0);
}
