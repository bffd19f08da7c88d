use epistulus::fetch::{
    check_status, classify_content_type, parse_feed, sniff_body, FeedError,
};
use epistulus::models::{FeedSource, FeedType};

fn source(feed_type: FeedType) -> FeedSource {
    FeedSource {
        id: "example_com".to_string(),
        name: "Example".to_string(),
        url: "https://example.com/feed.xml".to_string(),
        feed_type,
        last_updated: None,
        enabled: true,
        tags: vec![],
        guild_id: Some(7),
    }
}

const SAMPLE_RSS: &str = r#"<?xml version="1.0" encoding="UTF-8"?>
<rss version="2.0"><channel>
<title>Example Blog</title>
<link>https://example.com</link>
<description>demo</description>
<item>
  <title>First post</title>
  <link>https://example.com/a</link>
  <description>the first summary</description>
  <author>ada@example.com</author>
  <category>rust</category>
  <category>news</category>
  <pubDate>Wed, 01 Jan 2020 00:00:00 +0000</pubDate>
</item>
<item>
  <title>Second post</title>
  <link>https://example.com/b</link>
  <pubDate>Thu, 02 Jan 2020 12:30:00 +0000</pubDate>
</item>
</channel></rss>"#;

#[test]
fn a_feed_body_parses_into_posts() {
    let src = source(FeedType::Rss);
    let posts = parse_feed(&src, SAMPLE_RSS).unwrap();
    assert_eq!(posts.len(), 2);
    let a = &posts[0];
    assert_eq!(a.title, "First post");
    assert_eq!(a.link, "https://example.com/a");
    assert_eq!(a.description.as_deref(), Some("the first summary"));
    assert_eq!(a.author.as_deref(), Some("ada@example.com"));
    assert_eq!(a.tags, vec!["rust".to_string(), "news".to_string()]);
    assert_eq!(a.published, Some(1577836800));
    assert_eq!(a.source_id, "example_com");
    assert!(a.id.starts_with("example_com_"));
    let b = &posts[1];
    assert_eq!(b.title, "Second post");
    assert_eq!(b.published, Some(1577968200));
    assert_ne!(a.id, b.id);
}

#[test]
fn atom_typed_sources_use_the_same_parser() {
    let src = source(FeedType::Atom);
    assert!(parse_feed(&src, SAMPLE_RSS).is_ok());
}

#[test]
fn an_unparseable_body_is_a_parse_error() {
    let src = source(FeedType::Rss);
    match parse_feed(&src, "this is not xml at all") {
        Err(FeedError::ParseError(_)) => {},
        other => panic!("expected a parse error, got {:?}", other),
    }
}

#[test]
fn unimplemented_feed_types_fail_explicitly() {
    assert_eq!(
        parse_feed(&source(FeedType::JsonFeed), SAMPLE_RSS).unwrap_err(),
        FeedError::UnsupportedType
    );
    assert_eq!(
        parse_feed(&source(FeedType::Newsletter), SAMPLE_RSS).unwrap_err(),
        FeedError::UnsupportedType
    );
}

#[test]
fn an_item_without_title_or_link_gets_defaults() {
    let body = r#"<?xml version="1.0"?><rss version="2.0"><channel>
<title>t</title><link>l</link><description>d</description>
<item><description>only a summary</description></item>
</channel></rss>"#;
    let src = source(FeedType::Rss);
    let posts = parse_feed(&src, body).unwrap();
    assert_eq!(posts.len(), 1);
    assert_eq!(posts[0].title, "Untitled");
    assert_eq!(posts[0].link, "");
    assert_eq!(posts[0].published, None);
}

#[test]
fn status_codes_classify_by_success_range() {
    assert!(check_status(200).is_ok());
    assert!(check_status(299).is_ok());
    assert_eq!(check_status(199).unwrap_err(), FeedError::BadStatus(199));
    assert_eq!(check_status(404).unwrap_err(), FeedError::BadStatus(404));
    assert_eq!(check_status(500).unwrap_err(), FeedError::BadStatus(500));
}

#[test]
fn content_type_headers_classify_feed_kinds() {
    assert_eq!(
        classify_content_type("application/rss+xml; charset=utf-8"),
        Some(FeedType::Rss)
    );
    assert_eq!(classify_content_type("application/atom+xml"), Some(FeedType::Atom));
    assert_eq!(classify_content_type("application/feed+json"), Some(FeedType::JsonFeed));
    assert_eq!(classify_content_type("text/html"), None);
}

#[test]
fn body_sniffing_is_the_fallback() {
    assert_eq!(sniff_body(SAMPLE_RSS).unwrap(), FeedType::Rss);
    let atom = r#"<feed xmlns="http://www.w3.org/2005/Atom"><title>x</title></feed>"#;
    assert_eq!(sniff_body(atom).unwrap(), FeedType::Atom);
    assert_eq!(
        sniff_body("<html><body>hi</body></html>").unwrap_err(),
        FeedError::UnsupportedType
    );
}
