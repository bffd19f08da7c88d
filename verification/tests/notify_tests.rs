use epistulus::models::{BlogPost, NotificationFormat, NotificationSettings};
use epistulus::notify::{
    dispatch_plan, make_batches, render_digest, render_rich, render_simple, RenderedMessage,
    PACING_DELAY_MS,
};

fn post(n: usize) -> BlogPost {
    BlogPost {
        id: format!("id{}", n),
        title: format!("Title {}", n),
        link: format!("https://example.com/{}", n),
        description: Some(format!("Summary {}", n)),
        author: Some("Ada".to_string()),
        published: Some(1000 + n as i64),
        updated: None,
        source_id: "example_com".to_string(),
        tags: vec!["rust".to_string(), "news".to_string()],
        content: None,
    }
}

fn settings(format: NotificationFormat) -> NotificationSettings {
    NotificationSettings {
        format,
        include_preview: true,
        mention_role: None,
        max_posts_per_batch: 5,
    }
}

#[test]
fn twelve_items_in_batches_of_five_make_three_paced_batches() {
    let posts: Vec<BlogPost> = (0..12).map(post).collect();
    let s = settings(NotificationFormat::Simple);
    let plan = dispatch_plan(&posts, &s, 5000);
    assert_eq!(plan.len(), 3);
    assert_eq!(plan[0].messages.len(), 5);
    assert_eq!(plan[1].messages.len(), 5);
    assert_eq!(plan[2].messages.len(), 2);
    // the dispatcher owes a pause after every batch, so it waits between them
    for batch in &plan {
        assert_eq!(batch.pause_after_ms, PACING_DELAY_MS);
        assert!(batch.pause_after_ms > 0);
    }
}

#[test]
fn batches_keep_the_items_in_order() {
    let posts: Vec<BlogPost> = (0..7).map(post).collect();
    let batches = make_batches(&posts, 3);
    assert_eq!(batches.len(), 3);
    assert_eq!(batches[0].len(), 3);
    assert_eq!(batches[1].len(), 3);
    assert_eq!(batches[2].len(), 1);
    let flattened: Vec<&str> = batches
        .iter()
        .flat_map(|b| b.iter().map(|p| p.title.as_str()))
        .collect();
    let original: Vec<String> = (0..7).map(|n| format!("Title {}", n)).collect();
    assert_eq!(flattened, original.iter().map(|s| s.as_str()).collect::<Vec<_>>());
}

#[test]
fn empty_input_plans_nothing() {
    let posts: Vec<BlogPost> = vec![];
    let s = settings(NotificationFormat::Rich);
    assert!(dispatch_plan(&posts, &s, 5000).is_empty());
    assert!(make_batches(&posts, 5).is_empty());
}

#[test]
fn a_plain_message_holds_title_link_and_preview() {
    let p = post(1);
    let mut s = settings(NotificationFormat::Simple);
    let m = render_simple(&p, &s);
    assert_eq!(m, "**Title 1**\nhttps://example.com/1\n> Summary 1");
    s.mention_role = Some(42);
    let m = render_simple(&p, &s);
    assert_eq!(m, "<@&42> **Title 1**\nhttps://example.com/1\n> Summary 1");
    s.include_preview = false;
    let m = render_simple(&p, &s);
    assert_eq!(m, "<@&42> **Title 1**\nhttps://example.com/1");
}

#[test]
fn a_long_preview_is_cut_in_a_plain_message() {
    let mut p = post(1);
    p.description = Some("x".repeat(250));
    let s = settings(NotificationFormat::Simple);
    let m = render_simple(&p, &s);
    let preview = m.split("\n> ").nth(1).unwrap();
    assert_eq!(preview.chars().count(), 200);
    assert!(preview.ends_with("..."));
}

#[test]
fn a_rich_message_carries_every_field() {
    let mut p = post(1);
    p.description = Some("y".repeat(350));
    let mut s = settings(NotificationFormat::Rich);
    s.mention_role = Some(9);
    match render_rich(&p, &s) {
        RenderedMessage::Embed { content, embed } => {
            assert_eq!(content.as_deref(), Some("<@&9>"));
            assert_eq!(embed.title, "Title 1");
            assert_eq!(embed.url, "https://example.com/1");
            let d = embed.description.unwrap();
            assert_eq!(d.chars().count(), 300);
            assert!(d.ends_with("..."));
            assert_eq!(embed.author.as_deref(), Some("Ada"));
            assert_eq!(embed.tags_line.as_deref(), Some("rust, news"));
            assert_eq!(embed.footer, "Source: example_com");
            assert_eq!(embed.timestamp, Some(1001));
            assert_eq!(embed.color, 0x3498db);
        },
        RenderedMessage::Text(_) => panic!("expected an embed"),
    }
}

#[test]
fn a_rich_message_omits_what_the_item_lacks() {
    let mut p = post(2);
    p.description = None;
    p.author = None;
    p.tags = vec![];
    p.published = None;
    let s = settings(NotificationFormat::Rich);
    match render_rich(&p, &s) {
        RenderedMessage::Embed { content, embed } => {
            assert_eq!(content, None);
            assert_eq!(embed.description, None);
            assert_eq!(embed.author, None);
            assert_eq!(embed.tags_line, None);
            assert_eq!(embed.timestamp, None);
        },
        RenderedMessage::Text(_) => panic!("expected an embed"),
    }
}

#[test]
fn a_digest_summarizes_the_whole_batch() {
    let posts: Vec<BlogPost> = (0..2).map(post).collect();
    let s = settings(NotificationFormat::Summary);
    match render_digest(&posts, &s, 7777) {
        RenderedMessage::Embed { content, embed } => {
            assert_eq!(content, None);
            assert_eq!(embed.title, "2 new posts");
            assert_eq!(
                embed.description.as_deref(),
                Some(
                    "**[Title 0](https://example.com/0)** - Ada\n\n**[Title 1](https://example.com/1)** - Ada"
                )
            );
            assert_eq!(embed.timestamp, Some(7777));
            assert_eq!(embed.color, 0x2ecc71);
        },
        RenderedMessage::Text(_) => panic!("expected an embed"),
    }
}

#[test]
fn a_digest_body_is_capped() {
    let mut posts: Vec<BlogPost> = (0..40).map(post).collect();
    for p in posts.iter_mut() {
        p.title = "t".repeat(100);
    }
    let s = settings(NotificationFormat::Summary);
    match render_digest(&posts, &s, 0) {
        RenderedMessage::Embed { embed, .. } => {
            let d = embed.description.unwrap();
            assert_eq!(d.chars().count(), 1900);
            assert!(d.ends_with("..."));
        },
        RenderedMessage::Text(_) => panic!("expected an embed"),
    }
}

#[test]
fn a_digest_truncates_each_long_title() {
    let mut p = post(0);
    p.title = "z".repeat(90);
    p.author = None;
    let s = settings(NotificationFormat::Summary);
    match render_digest(&vec![p], &s, 0) {
        RenderedMessage::Embed { embed, .. } => {
            let d = embed.description.unwrap();
            let expected = format!("**[{}...](https://example.com/0)**", "z".repeat(77));
            assert_eq!(d, expected);
        },
        RenderedMessage::Text(_) => panic!("expected an embed"),
    }
}

#[test]
fn summary_format_plans_one_message_per_batch() {
    let posts: Vec<BlogPost> = (0..12).map(post).collect();
    let s = settings(NotificationFormat::Summary);
    let plan = dispatch_plan(&posts, &s, 0);
    assert_eq!(plan.len(), 3);
    for batch in &plan {
        assert_eq!(batch.messages.len(), 1);
    }
}
