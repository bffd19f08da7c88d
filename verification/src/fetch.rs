//! Feed retrieval logic: status classification, body parsing and item
//! construction. The network GET itself happens outside the library and hands
//! the body in as text; the XML parsing is the rss crate's, behind a trusted
//! wrapper, and everything downstream of it is verified.

use vstd::prelude::*;

use crate::identity::{generate_post_id, post_identity};
use crate::models::{BlogPost, BlogPostV, FeedSource, FeedSourceV, FeedType};
use crate::text::{contains_seq, contains_substr};

verus! {

/// Why a fetch failed.
#[derive(Debug, Clone, PartialEq, Eq)]
pub enum FeedError {
    /// The transport failed; the message is the transport's.
    Http(String),
    /// The request ran past the fixed timeout.
    Timeout,
    /// The endpoint answered with a non-success status.
    BadStatus(u16),
    /// The body would not parse; the message is the parser's.
    ParseError(String),
    /// The source's type has no parser.
    UnsupportedType,
}

/// What the feed parser returns for a body: the items in order, each reduced
/// to its plain fields, or the parser's error message. A function of the body
/// text alone.
pub uninterp spec fn rss_parse(content: Seq<char>) -> Result<Seq<RawItem>, Seq<char>>;

/// One item as the feed parser hands it out, before defaults are applied.
pub struct RawItem {
    pub title: Option<String>,
    pub link: Option<String>,
    pub description: Option<String>,
    pub author: Option<String>,
    pub pub_date: Option<String>,
    pub categories: Vec<String>,
    pub content: Option<String>,
}

/// Relies on rss's `Channel::read_from`: the channel parsed from the body,
/// its items reduced to their plain fields; on failure, the parser's message.
#[verifier::external_body]
fn rss_read_channel(content: &str) -> (r: Result<Vec<RawItem>, String>)
    ensures
        r is Ok <==> rss_parse(content@) is Ok,
        r matches Ok(v) ==> rss_parse(content@) matches Ok(items) && v@ == items,
        r matches Err(m) ==> rss_parse(content@) matches Err(e) && m@ == e,
{
    match rss::Channel::read_from(content.as_bytes()) {
        Ok(ch) => Ok(ch.items().iter().map(|i| RawItem {
            title: i.title().map(str::to_string), link: i.link().map(str::to_string),
            description: i.description().map(str::to_string), author: i.author().map(str::to_string),
            pub_date: i.pub_date().map(str::to_string),
            categories: i.categories().iter().map(|c| c.name().to_string()).collect(),
            content: i.content().map(str::to_string),
        }).collect()),
        Err(e) => Err(e.to_string()),
    }
}

/// The Unix epoch seconds an RFC 2822 date string reads to, if it parses.
/// A function of the string alone.
pub uninterp spec fn rfc2822_epoch(s: Seq<char>) -> Option<i64>;

/// Relies on chrono's `DateTime::parse_from_rfc2822` and `timestamp`: the
/// epoch value parsed from the date string.
#[verifier::external_body]
fn parse_rfc2822(s: &str) -> (r: Option<i64>)
    ensures
        r == rfc2822_epoch(s@),
{
    match chrono::DateTime::parse_from_rfc2822(s) {
        Ok(dt) => Some(dt.timestamp()),
        Err(_) => None,
    }
}

/// An optional string's view, or the empty string.
pub open spec fn or_empty(o: Option<Seq<char>>) -> Seq<char> {
    match o {
        Some(s) => s,
        None => Seq::empty(),
    }
}

/// The post built from one raw item of `src`: identity over (source id,
/// link, title) with empty-string defaults, a placeholder title where the
/// item has none, the publish time read from the item's RFC 2822 date.
pub open spec fn spec_post_of(raw: RawItem, src: FeedSourceV) -> BlogPostV {
    BlogPostV {
        id: post_identity(src.id, or_empty(raw.link.deep_view()), or_empty(raw.title.deep_view())),
        title: match raw.title.deep_view() {
            Some(t) => t,
            None => "Untitled"@,
        },
        link: or_empty(raw.link.deep_view()),
        description: raw.description.deep_view(),
        author: raw.author.deep_view(),
        published: match raw.pub_date.deep_view() {
            Some(d) => rfc2822_epoch(d),
            None => None,
        },
        updated: None,
        source_id: src.id,
        tags: raw.categories.deep_view(),
        content: raw.content.deep_view(),
    }
}

/// The per-item post construction as a function value.
pub open spec fn post_of(src: FeedSourceV) -> spec_fn(RawItem) -> BlogPostV {
    |raw: RawItem| spec_post_of(raw, src)
}

/// Builds the posts of `source` from the parser's raw items, in order.
pub fn build_posts(source: &FeedSource, items: Vec<RawItem>) -> (r: Vec<BlogPost>)
    ensures
        r.deep_view() == items@.map_values(post_of(source@)),
{
    let n = items.len();
    let mut out: Vec<BlogPost> = Vec::new();
    let mut i: usize = 0;
    proof {
        assert(out.deep_view() =~= items@.subrange(0, 0).map_values(post_of(source@)));
    }
    while i < n
        invariant
            n == items@.len(),
            0 <= i <= n,
            out.deep_view() == items@.subrange(0, i as int).map_values(post_of(source@)),
        decreases n - i,
    {
        let raw = &items[i];
        let link_str = match &raw.link {
            Some(l) => l.as_str(),
            None => "",
        };
        let title_str = match &raw.title {
            Some(t) => t.as_str(),
            None => "",
        };
        proof {
            reveal_strlit("");
            assert(""@ =~= Seq::<char>::empty());
            assert(link_str@ == or_empty(raw.link.deep_view()));
            assert(title_str@ == or_empty(raw.title.deep_view()));
        }
        let id = generate_post_id(source.id.as_str(), link_str, title_str);
        let title = match &raw.title {
            Some(t) => t.clone(),
            None => "Untitled".to_owned(),
        };
        let link = match &raw.link {
            Some(l) => l.clone(),
            None => String::new(),
        };
        let published = match &raw.pub_date {
            Some(d) => parse_rfc2822(d.as_str()),
            None => None,
        };
        let post = BlogPost {
            id,
            title,
            link,
            description: crate::models::clone_opt_string(&raw.description),
            author: crate::models::clone_opt_string(&raw.author),
            published,
            updated: None,
            source_id: source.id.clone(),
            tags: crate::models::clone_strings(&raw.categories),
            content: crate::models::clone_opt_string(&raw.content),
        };
        let ghost before = out.deep_view();
        proof {
            assert(post@ =~= spec_post_of(items@[i as int], source@));
        }
        out.push(post);
        proof {
            let f = post_of(source@);
            assert(f(items@[i as int]) == spec_post_of(items@[i as int], source@));
            assert(out.deep_view() =~= before.push(f(items@[i as int])));
            assert(items@.subrange(0, i + 1).map_values(f) =~= items@.subrange(
                0,
                i as int,
            ).map_values(f).push(f(items@[i as int])));
        }
        i = i + 1;
    }
    proof {
        assert(items@.subrange(0, n as int) =~= items@);
    }
    out
}

/// Parses one fetched body according to the source's type. RSS-like and
/// Atom-like sources go through the feed parser; the other types have no
/// parser and fail explicitly. Success returns exactly the parsed items,
/// built into posts of this source, in feed order.
pub fn parse_feed(source: &FeedSource, content: &str) -> (r: Result<Vec<BlogPost>, FeedError>)
    ensures
        (source.feed_type == FeedType::JsonFeed || source.feed_type == FeedType::Newsletter)
            <==> (r matches Err(e) && e is UnsupportedType),
        (source.feed_type == FeedType::Rss || source.feed_type == FeedType::Atom) ==> ({
            &&& (r is Ok <==> rss_parse(content@) is Ok)
            &&& (r matches Ok(posts) ==> rss_parse(content@) matches Ok(items)
                && posts.deep_view() == items.map_values(post_of(source@)))
            &&& (r matches Err(e) ==> e is ParseError && (rss_parse(content@) matches Err(m)
                && e->ParseError_0@ == m))
        }),
{
    match source.feed_type {
        FeedType::Rss | FeedType::Atom => match rss_read_channel(content) {
            Ok(items) => Ok(build_posts(source, items)),
            Err(m) => Err(FeedError::ParseError(m)),
        },
        FeedType::JsonFeed => Err(FeedError::UnsupportedType),
        FeedType::Newsletter => Err(FeedError::UnsupportedType),
    }
}

/// Whether an HTTP status code counts as success.
pub open spec fn spec_is_success(code: u16) -> bool {
    200 <= code < 300
}

/// Classifies a response status: success passes, anything else is the
/// explicit status error.
pub fn check_status(code: u16) -> (r: Result<(), FeedError>)
    ensures
        r is Ok <==> spec_is_success(code),
        !spec_is_success(code) ==> (r matches Err(e) && (e matches FeedError::BadStatus(c) && c
            == code)),
{
    if 200 <= code && code < 300 {
        Ok(())
    } else {
        Err(FeedError::BadStatus(code))
    }
}

/// What a content-type header classifies to, by its media-type markers.
pub open spec fn spec_classify_content_type(ct: Seq<char>) -> Option<FeedType> {
    if contains_seq(ct, "application/rss+xml"@) {
        Some(FeedType::Rss)
    } else if contains_seq(ct, "application/atom+xml"@) {
        Some(FeedType::Atom)
    } else if contains_seq(ct, "application/feed+json"@) {
        Some(FeedType::JsonFeed)
    } else {
        None
    }
}

/// Classifies a candidate URL by its response content-type header, where the
/// header names a feed media type.
pub fn classify_content_type(content_type: &str) -> (r: Option<FeedType>)
    ensures
        r == spec_classify_content_type(content_type@),
{
    if contains_substr(content_type, "application/rss+xml") {
        Some(FeedType::Rss)
    } else if contains_substr(content_type, "application/atom+xml") {
        Some(FeedType::Atom)
    } else if contains_substr(content_type, "application/feed+json") {
        Some(FeedType::JsonFeed)
    } else {
        None
    }
}

/// What a body sniffs to: an rss marker, else an Atom feed marker with the
/// Atom namespace, else nothing recognized.
pub open spec fn spec_sniff_body(body: Seq<char>) -> Result<FeedType, ()> {
    if contains_seq(body, "<rss"@) {
        Ok(FeedType::Rss)
    } else if contains_seq(body, "<feed"@) && contains_seq(
        body,
        "xmlns=\"http://www.w3.org/2005/Atom\""@,
    ) {
        Ok(FeedType::Atom)
    } else {
        Err(())
    }
}

/// Classifies a candidate URL by sniffing its body for feed markers, the
/// fallback where the content-type header says nothing.
pub fn sniff_body(body: &str) -> (r: Result<FeedType, FeedError>)
    ensures
        r matches Ok(t) ==> spec_sniff_body(body@) matches Ok(t2) && t == t2,
        r matches Err(e) ==> spec_sniff_body(body@) is Err && e is UnsupportedType,
        r is Ok <==> spec_sniff_body(body@) is Ok,
{
    if contains_substr(body, "<rss") {
        Ok(FeedType::Rss)
    } else if contains_substr(body, "<feed") && contains_substr(
        body,
        "xmlns=\"http://www.w3.org/2005/Atom\"",
    ) {
        Ok(FeedType::Atom)
    } else {
        Err(FeedError::UnsupportedType)
    }
}

} // verus!
