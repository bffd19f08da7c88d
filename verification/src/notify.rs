//! Rendering and dispatch planning. Items are split into batches of the
//! destination's preferred size, rendered per its format preference, and the
//! plan carries a fixed pacing pause after every batch — the pipeline's one
//! backpressure mechanism. Delivery itself (the transport call) happens
//! outside the library, batch by batch, following this plan.

use vstd::prelude::*;

use crate::models::{BlogPost, BlogPostV, NotificationFormat, NotificationSettings};
use crate::text::{dec_of, u64_to_dec};

verus! {

/// Milliseconds to pause after each delivered batch.
pub const PACING_DELAY_MS: u64 = 500;

/// Preview length in a plain message.
pub const SIMPLE_PREVIEW_MAX: usize = 200;

/// Preview length in a rich message.
pub const RICH_PREVIEW_MAX: usize = 300;

/// Length ceiling of the tags line in a rich message.
pub const TAGS_LINE_MAX: usize = 100;

/// Length ceiling of one linked title in a digest.
pub const DIGEST_TITLE_MAX: usize = 80;

/// Length ceiling of a whole digest body.
pub const DIGEST_TOTAL_MAX: usize = 1900;

/// Accent color of a rich message.
pub const RICH_COLOR: u32 = 0x3498db;

/// Accent color of a digest message.
pub const DIGEST_COLOR: u32 = 0x2ecc71;

/// Exact truncation: text at most `max` characters long is untouched; longer
/// text is cut to `max - 3` characters (to zero where `max < 3`) with a
/// three-dot ellipsis appended.
pub open spec fn spec_truncate(t: Seq<char>, max: nat) -> Seq<char> {
    if t.len() <= max {
        t
    } else {
        t.subrange(0, (if max >= 3 { (max - 3) as nat } else { 0nat }) as int) + "..."@
    }
}

/// Cuts `text` to at most `max_len` characters, ellipsis included: character
/// truncation, not word-boundary truncation, so the result length is exact.
pub fn truncate_text(text: &str, max_len: usize) -> (r: String)
    ensures
        r@ == spec_truncate(text@, max_len as nat),
        text@.len() > max_len && max_len >= 3 ==> r@.len() == max_len,
{
    let len = text.unicode_len();
    if len <= max_len {
        text.to_owned()
    } else {
        let cut = if max_len >= 3 {
            max_len - 3
        } else {
            0
        };
        let mut s = text.substring_char(0, cut).to_owned();
        s.append("...");
        proof {
            reveal_strlit("...");
            assert(s@ =~= spec_truncate(text@, max_len as nat));
        }
        s
    }
}

/// The batches of `p`, each of `size` items, the last possibly shorter.
pub open spec fn chunks_of(p: Seq<BlogPostV>, size: nat) -> Seq<Seq<BlogPostV>>
    decreases p.len(),
    when size >= 1
{
    if p.len() == 0 {
        Seq::empty()
    } else if p.len() <= size {
        seq![p]
    } else {
        seq![p.subrange(0, size as int)] + chunks_of(p.skip(size as int), size)
    }
}

/// The shape of the batches: none is empty or over the size, only the last is
/// short, and reading them in order gives back exactly the input.
pub proof fn lemma_chunks_shape(p: Seq<BlogPostV>, size: nat)
    requires
        size >= 1,
    ensures
        chunks_of(p, size).len() == 0 <==> p.len() == 0,
        forall|i: int|
            0 <= i < chunks_of(p, size).len() ==> 1 <= (#[trigger] chunks_of(p, size)[i]).len()
                <= size,
        forall|i: int|
            0 <= i < chunks_of(p, size).len() - 1 ==> (#[trigger] chunks_of(p, size)[i]).len()
                == size,
        chunks_of(p, size).flatten() == p,
    decreases p.len(),
{
    let c = chunks_of(p, size);
    if p.len() == 0 {
        assert(c.flatten() =~= p);
    } else if p.len() <= size {
        assert(c == seq![p]);
        assert(c.drop_first() =~= Seq::<Seq<BlogPostV>>::empty());
        assert(c.flatten() =~= p + c.drop_first().flatten());
        assert(c.flatten() =~= p);
    } else {
        let head = p.subrange(0, size as int);
        let rest = chunks_of(p.skip(size as int), size);
        lemma_chunks_shape(p.skip(size as int), size);
        assert(c == seq![head] + rest);
        assert forall|i: int| 0 <= i < c.len() implies 1 <= (#[trigger] c[i]).len() <= size by {
            if i > 0 {
                assert(c[i] == rest[i - 1]);
            }
        }
        assert forall|i: int| 0 <= i < c.len() - 1 implies (#[trigger] c[i]).len() == size by {
            if i > 0 {
                assert(c[i] == rest[i - 1]);
            }
        }
        assert(c.first() == head);
        assert(c.drop_first() =~= rest);
        assert(c.flatten() =~= head + rest.flatten());
        assert(head + p.skip(size as int) =~= p);
    }
}

/// Splits `posts` into batches of `batch_size`, keeping order.
pub fn make_batches(posts: &Vec<BlogPost>, batch_size: usize) -> (r: Vec<Vec<BlogPost>>)
    requires
        batch_size >= 1,
    ensures
        r.deep_view() == chunks_of(posts.deep_view(), batch_size as nat),
{
    let n = posts.len();
    let mut out: Vec<Vec<BlogPost>> = Vec::new();
    let mut i: usize = 0;
    proof {
        assert(posts.deep_view().skip(0) =~= posts.deep_view());
        assert(out.deep_view() =~= Seq::<Seq<BlogPostV>>::empty());
        assert(out.deep_view() + chunks_of(posts.deep_view(), batch_size as nat) =~= chunks_of(
            posts.deep_view(),
            batch_size as nat,
        ));
    }
    while i < n
        invariant
            batch_size >= 1,
            n == posts@.len(),
            0 <= i <= n,
            chunks_of(posts.deep_view(), batch_size as nat) == out.deep_view() + chunks_of(
                posts.deep_view().skip(i as int),
                batch_size as nat,
            ),
        decreases n - i,
    {
        let ghost rest = posts.deep_view().skip(i as int);
        let take = if n - i < batch_size {
            n - i
        } else {
            batch_size
        };
        let mut chunk: Vec<BlogPost> = Vec::new();
        let mut k: usize = 0;
        proof {
            assert(chunk.deep_view() =~= rest.subrange(0, 0));
        }
        while k < take
            invariant
                n == posts@.len(),
                0 <= i,
                i + take <= n,
                0 <= k <= take,
                rest == posts.deep_view().skip(i as int),
                chunk.deep_view() == rest.subrange(0, k as int),
            decreases take - k,
        {
            let ghost chunk_before = chunk.deep_view();
            chunk.push(posts[i + k].clone());
            proof {
                assert(rest[k as int] == posts.deep_view()[i + k]);
                assert(chunk.deep_view() =~= chunk_before.push(posts.deep_view()[i + k]));
                assert(chunk.deep_view() =~= rest.subrange(0, k + 1));
            }
            k = k + 1;
        }
        let ghost before = out.deep_view();
        out.push(chunk);
        proof {
            if n - i <= batch_size {
                assert(rest.len() == n - i);
                assert(rest.subrange(0, take as int) =~= rest);
                assert(out.deep_view() =~= before.push(rest));
                assert(chunks_of(rest, batch_size as nat) == seq![rest]);
                assert(posts.deep_view().skip(i + take as int).len() == 0);
                assert(chunks_of(posts.deep_view().skip(i + take as int), batch_size as nat)
                    =~= Seq::<Seq<BlogPostV>>::empty());
                assert(before.push(rest) + Seq::<Seq<BlogPostV>>::empty() =~= before + seq![rest]);
            } else {
                let head = rest.subrange(0, batch_size as int);
                assert(out.deep_view() =~= before.push(head));
                assert(chunks_of(rest, batch_size as nat) == seq![head] + chunks_of(
                    rest.skip(batch_size as int),
                    batch_size as nat,
                ));
                assert(rest.skip(batch_size as int) =~= posts.deep_view().skip(
                    i + batch_size as int,
                ));
                assert(before.push(head) + chunks_of(
                    rest.skip(batch_size as int),
                    batch_size as nat,
                ) =~= before + (seq![head] + chunks_of(
                    rest.skip(batch_size as int),
                    batch_size as nat,
                )));
            }
        }
        i = i + take;
    }
    proof {
        assert(posts.deep_view().skip(n as int).len() == 0);
        assert(chunks_of(posts.deep_view().skip(n as int), batch_size as nat) =~= Seq::<
            Seq<BlogPostV>,
        >::empty());
        assert(out.deep_view() + Seq::<Seq<BlogPostV>>::empty() =~= out.deep_view());
    }
    out
}

/// A rich message body, transport-agnostic: the caller turns it into the
/// transport's embed shape.
#[derive(Debug)]
pub struct EmbedData {
    pub title: String,
    pub url: String,
    pub description: Option<String>,
    pub author: Option<String>,
    pub tags_line: Option<String>,
    pub footer: String,
    pub timestamp: Option<i64>,
    pub color: u32,
}

/// The mathematical value of an `EmbedData`.
#[verifier::ext_equal]
pub ghost struct EmbedDataV {
    pub title: Seq<char>,
    pub url: Seq<char>,
    pub description: Option<Seq<char>>,
    pub author: Option<Seq<char>>,
    pub tags_line: Option<Seq<char>>,
    pub footer: Seq<char>,
    pub timestamp: Option<i64>,
    pub color: u32,
}

impl View for EmbedData {
    type V = EmbedDataV;

    open spec fn view(&self) -> EmbedDataV {
        EmbedDataV {
            title: self.title@,
            url: self.url@,
            description: self.description.deep_view(),
            author: self.author.deep_view(),
            tags_line: self.tags_line.deep_view(),
            footer: self.footer@,
            timestamp: self.timestamp,
            color: self.color,
        }
    }
}

impl DeepView for EmbedData {
    type V = EmbedDataV;

    open spec fn deep_view(&self) -> EmbedDataV {
        self.view()
    }
}

/// One message ready for the transport.
#[derive(Debug)]
pub enum RenderedMessage {
    /// A plain text message.
    Text(String),
    /// An embed, with optional plain content beside it (a mention).
    Embed { content: Option<String>, embed: EmbedData },
}

/// The mathematical value of a `RenderedMessage`.
#[verifier::ext_equal]
pub ghost enum RenderedMessageV {
    Text(Seq<char>),
    Embed { content: Option<Seq<char>>, embed: EmbedDataV },
}

impl View for RenderedMessage {
    type V = RenderedMessageV;

    open spec fn view(&self) -> RenderedMessageV {
        match self {
            RenderedMessage::Text(s) => RenderedMessageV::Text(s@),
            RenderedMessage::Embed { content, embed } => RenderedMessageV::Embed {
                content: content.deep_view(),
                embed: embed@,
            },
        }
    }
}

impl DeepView for RenderedMessage {
    type V = RenderedMessageV;

    open spec fn deep_view(&self) -> RenderedMessageV {
        self.view()
    }
}

/// One batch of rendered messages, with the pause the deliverer owes after it.
#[derive(Debug)]
pub struct DispatchBatch {
    pub messages: Vec<RenderedMessage>,
    pub pause_after_ms: u64,
}

/// The mathematical value of a `DispatchBatch`.
#[verifier::ext_equal]
pub ghost struct DispatchBatchV {
    pub messages: Seq<RenderedMessageV>,
    pub pause_after_ms: u64,
}

impl View for DispatchBatch {
    type V = DispatchBatchV;

    open spec fn view(&self) -> DispatchBatchV {
        DispatchBatchV { messages: self.messages.deep_view(), pause_after_ms: self.pause_after_ms }
    }
}

impl DeepView for DispatchBatch {
    type V = DispatchBatchV;

    open spec fn deep_view(&self) -> DispatchBatchV {
        self.view()
    }
}

/// The mention prefix of a plain message: "<@&{role}> ", or nothing.
pub open spec fn mention_prefix(role: Option<u64>) -> Seq<char> {
    match role {
        Some(r) => "<@&"@ + dec_of(r as nat) + "> "@,
        None => Seq::empty(),
    }
}

/// The mention content beside an embed: "<@&{role}>", or nothing.
pub open spec fn mention_tag(role: Option<u64>) -> Option<Seq<char>> {
    match role {
        Some(r) => Some("<@&"@ + dec_of(r as nat) + ">"@),
        None => None,
    }
}

/// A plain message: optional mention, bold title, link, optional quoted
/// preview of the summary.
pub open spec fn spec_render_simple(p: BlogPostV, s: NotificationSettings) -> Seq<char> {
    mention_prefix(s.mention_role) + "**"@ + p.title + "**\n"@ + p.link + (
    if s.include_preview && p.description is Some {
        "\n> "@ + spec_truncate(p.description->0, SIMPLE_PREVIEW_MAX as nat)
    } else {
        Seq::empty()
    })
}

/// The tags joined with ", ".
pub open spec fn join_comma(tags: Seq<Seq<char>>) -> Seq<char>
    decreases tags.len(),
{
    if tags.len() == 0 {
        Seq::empty()
    } else if tags.len() == 1 {
        tags[0]
    } else {
        join_comma(tags.drop_last()) + ", "@ + tags.last()
    }
}

/// A rich message: the embed carries title, link, truncated preview, author,
/// a truncated tags line, source attribution, and the publish time if the
/// item has one; a mention rides beside it as content.
pub open spec fn spec_render_rich(p: BlogPostV, s: NotificationSettings) -> RenderedMessageV {
    RenderedMessageV::Embed {
        content: mention_tag(s.mention_role),
        embed: EmbedDataV {
            title: p.title,
            url: p.link,
            description: if s.include_preview && p.description is Some {
                Some(spec_truncate(p.description->0, RICH_PREVIEW_MAX as nat))
            } else {
                None
            },
            author: p.author,
            tags_line: if p.tags.len() > 0 {
                Some(spec_truncate(join_comma(p.tags), TAGS_LINE_MAX as nat))
            } else {
                None
            },
            footer: "Source: "@ + p.source_id,
            timestamp: p.published,
            color: RICH_COLOR,
        },
    }
}

/// One digest line: a bold link of the truncated title, with an author suffix.
pub open spec fn digest_line(p: BlogPostV) -> Seq<char> {
    "**["@ + spec_truncate(p.title, DIGEST_TITLE_MAX as nat) + "]("@ + p.link + ")**"@ + (
    match p.author {
        Some(a) => " - "@ + a,
        None => Seq::empty(),
    })
}

/// The digest body: one line per item, blank lines between.
pub open spec fn digest_lines(posts: Seq<BlogPostV>) -> Seq<char>
    decreases posts.len(),
{
    if posts.len() == 0 {
        Seq::empty()
    } else if posts.len() == 1 {
        digest_line(posts[0])
    } else {
        digest_lines(posts.drop_last()) + "\n\n"@ + digest_line(posts.last())
    }
}

/// The digest message: a count header, the joined lines truncated to the
/// hard ceiling, stamped with the sweep time.
pub open spec fn spec_render_digest(
    posts: Seq<BlogPostV>,
    s: NotificationSettings,
    now: i64,
) -> RenderedMessageV {
    RenderedMessageV::Embed {
        content: mention_tag(s.mention_role),
        embed: EmbedDataV {
            title: dec_of(posts.len()) + " new posts"@,
            url: Seq::empty(),
            description: Some(spec_truncate(digest_lines(posts), DIGEST_TOTAL_MAX as nat)),
            author: None,
            tags_line: None,
            footer: Seq::empty(),
            timestamp: Some(now),
            color: DIGEST_COLOR,
        },
    }
}

/// The per-item plain rendering as a function value.
pub open spec fn simple_msg_of(s: NotificationSettings) -> spec_fn(BlogPostV) -> RenderedMessageV {
    |p: BlogPostV| RenderedMessageV::Text(spec_render_simple(p, s))
}

/// The per-item rich rendering as a function value.
pub open spec fn rich_msg_of(s: NotificationSettings) -> spec_fn(BlogPostV) -> RenderedMessageV {
    |p: BlogPostV| spec_render_rich(p, s)
}

/// The per-batch plan step as a function value.
pub open spec fn batch_plan_of(s: NotificationSettings, now: i64) -> spec_fn(
    Seq<BlogPostV>,
) -> DispatchBatchV {
    |b: Seq<BlogPostV>| DispatchBatchV {
        messages: spec_render_batch(b, s, now),
        pause_after_ms: PACING_DELAY_MS,
    }
}

/// What one batch renders to under the destination's format preference.
pub open spec fn spec_render_batch(
    posts: Seq<BlogPostV>,
    s: NotificationSettings,
    now: i64,
) -> Seq<RenderedMessageV> {
    match s.format {
        NotificationFormat::Simple => posts.map_values(simple_msg_of(s)),
        NotificationFormat::Rich => posts.map_values(rich_msg_of(s)),
        NotificationFormat::Summary => seq![spec_render_digest(posts, s, now)],
    }
}

/// The whole plan: the items in batches of the preferred size, each batch
/// rendered per the format, each batch followed by the fixed pacing pause.
pub open spec fn spec_dispatch_plan(
    posts: Seq<BlogPostV>,
    s: NotificationSettings,
    now: i64,
) -> Seq<DispatchBatchV> {
    chunks_of(posts, s.max_posts_per_batch as nat).map_values(batch_plan_of(s, now))
}

/// Mapping one more element appends exactly its image.
proof fn lemma_map_values_push<A, B>(s: Seq<A>, f: spec_fn(A) -> B, i: int)
    requires
        0 <= i < s.len(),
    ensures
        s.subrange(0, i + 1).map_values(f) == s.subrange(0, i).map_values(f).push(f(s[i])),
{
    assert(s.subrange(0, i + 1).map_values(f) =~= s.subrange(0, i).map_values(f).push(f(s[i])));
}

/// Renders the mention prefix for a plain message.
fn render_mention_prefix(role: Option<u64>) -> (r: String)
    ensures
        r@ == mention_prefix(role),
{
    match role {
        Some(rid) => {
            let mut m = "<@&".to_owned();
            let d = u64_to_dec(rid);
            m.append(d.as_str());
            m.append("> ");
            proof {
                assert(m@ =~= mention_prefix(Some(rid)));
            }
            m
        },
        None => {
            let s = String::new();
            proof {
                assert(s@ =~= mention_prefix(None));
            }
            s
        },
    }
}

/// Renders the mention content beside an embed.
fn render_mention_tag(role: Option<u64>) -> (r: Option<String>)
    ensures
        r.deep_view() == mention_tag(role),
{
    match role {
        Some(rid) => {
            let mut m = "<@&".to_owned();
            let d = u64_to_dec(rid);
            m.append(d.as_str());
            m.append(">");
            proof {
                assert(m@ =~= mention_tag(Some(rid))->0);
            }
            Some(m)
        },
        None => None,
    }
}

/// Renders one plain message.
pub fn render_simple(post: &BlogPost, settings: &NotificationSettings) -> (r: String)
    ensures
        r@ == spec_render_simple(post@, *settings),
{
    let mut m = render_mention_prefix(settings.mention_role);
    m.append("**");
    m.append(post.title.as_str());
    m.append("**\n");
    m.append(post.link.as_str());
    if settings.include_preview {
        match &post.description {
            Some(d) => {
                m.append("\n> ");
                let preview = truncate_text(d.as_str(), SIMPLE_PREVIEW_MAX);
                m.append(preview.as_str());
            },
            None => {},
        }
    }
    proof {
        assert(m@ =~= spec_render_simple(post@, *settings));
    }
    m
}

/// Joins tags with ", ".
fn join_tags(tags: &Vec<String>) -> (r: String)
    ensures
        r@ == join_comma(tags.deep_view()),
{
    let n = tags.len();
    let mut out = String::new();
    let mut i: usize = 0;
    proof {
        assert(tags.deep_view().subrange(0, 0) =~= Seq::<Seq<char>>::empty());
    }
    while i < n
        invariant
            n == tags@.len(),
            0 <= i <= n,
            out@ == join_comma(tags.deep_view().subrange(0, i as int)),
        decreases n - i,
    {
        let ghost prefix = tags.deep_view().subrange(0, i as int);
        if i > 0 {
            out.append(", ");
        }
        out.append(tags[i].as_str());
        proof {
            let ext = tags.deep_view().subrange(0, i + 1);
            assert(ext.drop_last() =~= prefix);
            assert(ext.last() == tags.deep_view()[i as int]);
            if i == 0 {
                assert(ext.len() == 1);
                assert(out@ =~= ext[0]);
            } else {
                assert(out@ =~= join_comma(prefix) + ", "@ + tags.deep_view()[i as int]);
            }
        }
        i = i + 1;
    }
    proof {
        assert(tags.deep_view().subrange(0, n as int) =~= tags.deep_view());
    }
    out
}

/// Renders one rich message.
pub fn render_rich(post: &BlogPost, settings: &NotificationSettings) -> (r: RenderedMessage)
    ensures
        r@ == spec_render_rich(post@, *settings),
{
    let description = if settings.include_preview {
        match &post.description {
            Some(d) => Some(truncate_text(d.as_str(), RICH_PREVIEW_MAX)),
            None => None,
        }
    } else {
        None
    };
    let author = match &post.author {
        Some(a) => Some(a.clone()),
        None => None,
    };
    let tags_line = if post.tags.len() > 0 {
        let joined = join_tags(&post.tags);
        Some(truncate_text(joined.as_str(), TAGS_LINE_MAX))
    } else {
        None
    };
    let mut footer = "Source: ".to_owned();
    footer.append(post.source_id.as_str());
    let embed = EmbedData {
        title: post.title.clone(),
        url: post.link.clone(),
        description,
        author,
        tags_line,
        footer,
        timestamp: post.published,
        color: RICH_COLOR,
    };
    let r = RenderedMessage::Embed { content: render_mention_tag(settings.mention_role), embed };
    proof {
        assert(r@ =~= spec_render_rich(post@, *settings));
    }
    r
}

/// Renders the digest message for one batch.
pub fn render_digest(posts: &Vec<BlogPost>, settings: &NotificationSettings, now: i64) -> (r:
    RenderedMessage)
    ensures
        r@ == spec_render_digest(posts.deep_view(), *settings, now),
{
    let n = posts.len();
    let mut body = String::new();
    let mut i: usize = 0;
    proof {
        assert(posts.deep_view().subrange(0, 0) =~= Seq::<BlogPostV>::empty());
    }
    while i < n
        invariant
            n == posts@.len(),
            0 <= i <= n,
            body@ == digest_lines(posts.deep_view().subrange(0, i as int)),
        decreases n - i,
    {
        let ghost prefix = posts.deep_view().subrange(0, i as int);
        if i > 0 {
            body.append("\n\n");
        }
        let post = &posts[i];
        body.append("**[");
        let t = truncate_text(post.title.as_str(), DIGEST_TITLE_MAX);
        body.append(t.as_str());
        body.append("](");
        body.append(post.link.as_str());
        body.append(")**");
        match &post.author {
            Some(a) => {
                body.append(" - ");
                body.append(a.as_str());
            },
            None => {},
        }
        proof {
            let ext = posts.deep_view().subrange(0, i + 1);
            assert(ext.drop_last() =~= prefix);
            assert(ext.last() == posts.deep_view()[i as int]);
            if i == 0 {
                assert(ext.len() == 1);
                assert(body@ =~= digest_line(ext[0]));
            } else {
                assert(body@ =~= digest_lines(prefix) + "\n\n"@ + digest_line(
                    posts.deep_view()[i as int],
                ));
            }
        }
        i = i + 1;
    }
    proof {
        assert(posts.deep_view().subrange(0, n as int) =~= posts.deep_view());
    }
    let mut title = u64_to_dec(n as u64);
    title.append(" new posts");
    let embed = EmbedData {
        title,
        url: String::new(),
        description: Some(truncate_text(body.as_str(), DIGEST_TOTAL_MAX)),
        author: None,
        tags_line: None,
        footer: String::new(),
        timestamp: Some(now),
        color: DIGEST_COLOR,
    };
    let r = RenderedMessage::Embed { content: render_mention_tag(settings.mention_role), embed };
    proof {
        assert(posts.deep_view().len() == n as nat);
        assert(r@ =~= spec_render_digest(posts.deep_view(), *settings, now));
    }
    r
}

/// Renders one batch under the destination's format preference.
pub fn render_batch(posts: &Vec<BlogPost>, settings: &NotificationSettings, now: i64) -> (r: Vec<
    RenderedMessage,
>)
    ensures
        r.deep_view() == spec_render_batch(posts.deep_view(), *settings, now),
{
    let mut out: Vec<RenderedMessage> = Vec::new();
    match settings.format {
        NotificationFormat::Summary => {
            out.push(render_digest(posts, settings, now));
            proof {
                assert(out.deep_view() =~= spec_render_batch(posts.deep_view(), *settings, now));
            }
        },
        NotificationFormat::Simple => {
            let n = posts.len();
            let mut i: usize = 0;
            while i < n
                invariant
                    n == posts@.len(),
                    0 <= i <= n,
                    settings.format == NotificationFormat::Simple,
                    out.deep_view() == posts.deep_view().subrange(0, i as int).map_values(
                        simple_msg_of(*settings),
                    ),
                decreases n - i,
            {
                let msg = render_simple(&posts[i], settings);
                let ghost before = out.deep_view();
                out.push(RenderedMessage::Text(msg));
                proof {
                    let f = simple_msg_of(*settings);
                    let pv = posts.deep_view()[i as int];
                    assert(pv == posts@[i as int]@);
                    assert(f(pv) == RenderedMessageV::Text(spec_render_simple(pv, *settings)));
                    lemma_map_values_push(posts.deep_view(), f, i as int);
                    assert(out.deep_view() =~= before.push(f(pv)));
                }
                i = i + 1;
            }
            proof {
                assert(posts.deep_view().subrange(0, n as int) =~= posts.deep_view());
            }
        },
        NotificationFormat::Rich => {
            let n = posts.len();
            let mut i: usize = 0;
            while i < n
                invariant
                    n == posts@.len(),
                    0 <= i <= n,
                    settings.format == NotificationFormat::Rich,
                    out.deep_view() == posts.deep_view().subrange(0, i as int).map_values(
                        rich_msg_of(*settings),
                    ),
                decreases n - i,
            {
                let msg = render_rich(&posts[i], settings);
                let ghost before = out.deep_view();
                out.push(msg);
                proof {
                    let f = rich_msg_of(*settings);
                    let pv = posts.deep_view()[i as int];
                    assert(pv == posts@[i as int]@);
                    assert(f(pv) == spec_render_rich(pv, *settings));
                    lemma_map_values_push(posts.deep_view(), f, i as int);
                    assert(out.deep_view() =~= before.push(f(pv)));
                }
                i = i + 1;
            }
            proof {
                assert(posts.deep_view().subrange(0, n as int) =~= posts.deep_view());
            }
        },
    }
    out
}

/// Plans the dispatch of `posts` to one destination: batches of the preferred
/// size, rendered per format, a fixed pacing pause owed after every batch.
/// Empty input plans nothing.
pub fn dispatch_plan(posts: &Vec<BlogPost>, settings: &NotificationSettings, now: i64) -> (r: Vec<
    DispatchBatch,
>)
    requires
        settings.max_posts_per_batch >= 1,
    ensures
        r.deep_view() == spec_dispatch_plan(posts.deep_view(), *settings, now),
        posts@.len() == 0 ==> r@.len() == 0,
{
    let size = settings.max_posts_per_batch as usize;
    let batches = make_batches(posts, size);
    let ghost chunks = chunks_of(posts.deep_view(), settings.max_posts_per_batch as nat);
    let n = batches.len();
    let mut out: Vec<DispatchBatch> = Vec::new();
    let mut i: usize = 0;
    while i < n
        invariant
            n == batches@.len(),
            0 <= i <= n,
            batches.deep_view() == chunks,
            out.deep_view() == chunks.subrange(0, i as int).map_values(
                batch_plan_of(*settings, now),
            ),
        decreases n - i,
    {
        let messages = render_batch(&batches[i], settings, now);
        let ghost msgs_view = messages.deep_view();
        let ghost before = out.deep_view();
        out.push(DispatchBatch { messages, pause_after_ms: PACING_DELAY_MS });
        proof {
            let f = batch_plan_of(*settings, now);
            assert(batches.deep_view()[i as int] == chunks[i as int]);
            assert(batches@[i as int].deep_view() == chunks[i as int]);
            assert(msgs_view == spec_render_batch(chunks[i as int], *settings, now));
            assert(f(chunks[i as int]) == DispatchBatchV {
                messages: spec_render_batch(chunks[i as int], *settings, now),
                pause_after_ms: PACING_DELAY_MS,
            });
            lemma_map_values_push(chunks, f, i as int);
            assert(out.deep_view() =~= before.push(f(chunks[i as int])));
        }
        i = i + 1;
    }
    proof {
        assert(chunks.subrange(0, n as int) =~= chunks);
        if posts@.len() == 0 {
            assert(posts.deep_view().len() == 0);
        }
    }
    out
}

/// Every planned batch owes the fixed pacing pause, and the batches carry the
/// items in order, none over the preferred size: dispatching `k` items in
/// batches of `s` yields exactly the chunked shape, with a pause after each.
pub proof fn lemma_dispatch_plan_paced(posts: Seq<BlogPostV>, s: NotificationSettings, now: i64)
    requires
        s.max_posts_per_batch >= 1,
    ensures
        spec_dispatch_plan(posts, s, now).len() == chunks_of(
            posts,
            s.max_posts_per_batch as nat,
        ).len(),
        forall|i: int|
            0 <= i < spec_dispatch_plan(posts, s, now).len() ==> (#[trigger] spec_dispatch_plan(
                posts,
                s,
                now,
            )[i]).pause_after_ms == PACING_DELAY_MS,
        forall|i: int|
            0 <= i < spec_dispatch_plan(posts, s, now).len() ==> (#[trigger] spec_dispatch_plan(
                posts,
                s,
                now,
            )[i]).messages == spec_render_batch(
                chunks_of(posts, s.max_posts_per_batch as nat)[i],
                s,
                now,
            ),
{
}

} // verus!
