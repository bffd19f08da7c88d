use epistulus::dedup::{advance_watermark, filter_new_posts};
use epistulus::models::{BlogPost, GuildSubscription};
use epistulus::notify::RenderedMessage;
use epistulus::registry::SourceRegistry;
use epistulus::subs::SubscriptionIndex;
use epistulus::sweep::{plan_source_sweep, PendingDelivery, SweepState};

fn post(title: &str, published: Option<i64>) -> BlogPost {
    BlogPost {
        id: format!("example_com_{}", title),
        title: title.to_string(),
        link: format!("https://example.com/{}", title),
        description: None,
        author: None,
        published,
        updated: None,
        source_id: "example_com".to_string(),
        tags: vec![],
        content: None,
    }
}

#[test]
fn only_items_past_the_watermark_are_new() {
    let posts = vec![post("old", Some(1000)), post("edge", Some(1500)), post(
        "fresh",
        Some(1501),
    ), post("undated", None)];
    let new = filter_new_posts(&posts, Some(1500));
    let titles: Vec<&str> = new.iter().map(|p| p.title.as_str()).collect();
    assert_eq!(titles, vec!["fresh", "undated"]);
    // a source never polled takes everything
    assert_eq!(filter_new_posts(&posts, None).len(), 4);
}

#[test]
fn the_watermark_takes_the_newest_publish_time() {
    let posts = vec![post("a", Some(1000)), post("b", Some(3000)), post("c", Some(2000))];
    assert_eq!(advance_watermark(&posts, 9999), 3000);
    // nothing dated: the poll time stands in
    let undated = vec![post("u", None)];
    assert_eq!(advance_watermark(&undated, 4242), 4242);
    let empty: Vec<BlogPost> = vec![];
    assert_eq!(advance_watermark(&empty, 7), 7);
}

#[test]
fn a_sweep_delivers_only_the_new_item_and_advances_the_watermark() {
    // tenant G registers source S, destination D subscribes to it
    let mut reg = SourceRegistry::new();
    let billing = GuildSubscription::new_free(7, 0);
    let source = reg
        .register(
            Some(7),
            "Example".to_string(),
            "https://example.com/feed.xml".to_string(),
            &billing,
            100,
        )
        .unwrap();
    assert!(reg.update_watermark(Some(7), &source.id, 1500));
    let mut idx = SubscriptionIndex::new();
    idx.subscribe(100, Some(7), "example_com");
    // the poll finds i1 (published before the watermark) and i2 (after it)
    let fetched = vec![post("i1", Some(1000)), post("i2", Some(2000))];
    let swept = reg.get(Some(7), "example_com").unwrap().clone();
    assert_eq!(swept.last_updated, Some(1500));
    let plan = plan_source_sweep(&swept, &fetched, &idx, 2100);
    // only i2 goes out, and only to D
    assert_eq!(plan.deliveries.len(), 1);
    let d = &plan.deliveries[0];
    assert_eq!(d.channel_id, 100);
    assert_eq!(d.batches.len(), 1);
    assert_eq!(d.batches[0].messages.len(), 1);
    match &d.batches[0].messages[0] {
        RenderedMessage::Embed { embed, .. } => assert_eq!(embed.title, "i2"),
        RenderedMessage::Text(_) => panic!("default preferences render rich messages"),
    }
    // the watermark advances to i2's publish time
    assert_eq!(plan.new_watermark, 2000);
    assert!(reg.update_watermark(Some(7), "example_com", plan.new_watermark));
    assert_eq!(reg.get(Some(7), "example_com").unwrap().last_updated, Some(2000));
}

#[test]
fn a_sweep_with_no_subscribers_plans_no_deliveries() {
    let mut reg = SourceRegistry::new();
    let billing = GuildSubscription::new_free(7, 0);
    let source = reg
        .register(
            Some(7),
            "Example".to_string(),
            "https://example.com/feed.xml".to_string(),
            &billing,
            100,
        )
        .unwrap();
    let idx = SubscriptionIndex::new();
    let fetched = vec![post("i1", Some(1000))];
    let plan = plan_source_sweep(&source, &fetched, &idx, 2100);
    assert!(plan.deliveries.is_empty());
    assert_eq!(plan.new_watermark, 1000);
}

#[test]
fn one_failed_destination_never_blocks_the_others() {
    // destinations A, B, C are owed deliveries in one sweep
    let deliveries: Vec<PendingDelivery> = [1u64, 2, 3]
        .iter()
        .map(|&c| PendingDelivery { channel_id: c, batches: vec![] })
        .collect();
    let mut state = SweepState::new(deliveries);
    // A's delivery call fails
    assert_eq!(state.next_delivery().unwrap().channel_id, 1);
    state.record_outcome(false);
    // B and C still get their deliveries in the same sweep
    assert_eq!(state.next_delivery().unwrap().channel_id, 2);
    state.record_outcome(true);
    assert_eq!(state.next_delivery().unwrap().channel_id, 3);
    state.record_outcome(true);
    assert!(state.next_delivery().is_none());
    assert_eq!(state.failed, vec![1]);
    assert_eq!(state.delivered, vec![2, 3]);
}
