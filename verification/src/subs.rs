//! The subscription index: which destinations follow which sources, with
//! per-destination filters. Resolution is tenant-scoped: a destination only
//! ever sees sources of its own tenant scope, whatever source ids it lists.

use vstd::prelude::*;
use vstd::seq_lib::*;

use crate::models::{
    BlogPost, BlogPostV, ChannelSubscription, ChannelSubscriptionV, NotificationFormat,
    NotificationSettings, SubscriptionFilters, SubscriptionFiltersV,
};
use crate::registry::scope_eq;
use crate::text::{contains_ci, contains_seq, lower_seq, str_eq};

verus! {

/// What an unsubscribe found.
#[derive(Clone, Copy, Debug, PartialEq, Eq, Structural)]
pub enum UnsubscribeOutcome {
    /// The source was subscribed and is now removed.
    Removed,
    /// The destination exists but did not follow that source.
    NotSubscribed,
    /// The destination has no subscriptions at all.
    NoChannel,
}

/// The index of the first entry for `channel_id`, or -1.
pub open spec fn index_of_channel(e: Seq<ChannelSubscriptionV>, channel_id: u64) -> int
    decreases e.len(),
{
    if e.len() == 0 {
        -1
    } else if e.first().channel_id == channel_id {
        0
    } else {
        let r = index_of_channel(e.drop_first(), channel_id);
        if r == -1 {
            -1
        } else {
            r + 1
        }
    }
}

/// `index_of_channel` finds exactly the least entry for the channel.
pub proof fn lemma_index_of_channel_at(e: Seq<ChannelSubscriptionV>, channel_id: u64, i: int)
    requires
        0 <= i < e.len(),
        e[i].channel_id == channel_id,
        forall|j: int| 0 <= j < i ==> e[j].channel_id != channel_id,
    ensures
        index_of_channel(e, channel_id) == i,
    decreases e.len(),
{
    if i > 0 {
        lemma_index_of_channel_at(e.drop_first(), channel_id, i - 1);
    }
}

/// Where the channel has no entry, `index_of_channel` is -1.
pub proof fn lemma_index_of_channel_none(e: Seq<ChannelSubscriptionV>, channel_id: u64)
    requires
        forall|j: int| 0 <= j < e.len() ==> (#[trigger] e[j]).channel_id != channel_id,
    ensures
        index_of_channel(e, channel_id) == -1,
    decreases e.len(),
{
    if e.len() > 0 {
        lemma_index_of_channel_none(e.drop_first(), channel_id);
    }
}

/// What `index_of_channel` returns is an entry of the channel.
pub proof fn lemma_index_of_channel_props(e: Seq<ChannelSubscriptionV>, channel_id: u64)
    ensures
        index_of_channel(e, channel_id) == -1 || (0 <= index_of_channel(e, channel_id) < e.len()
            && e[index_of_channel(e, channel_id)].channel_id == channel_id),
        index_of_channel(e, channel_id) == -1 ==> forall|j: int|
            0 <= j < e.len() ==> (#[trigger] e[j]).channel_id != channel_id,
    decreases e.len(),
{
    if e.len() > 0 {
        lemma_index_of_channel_props(e.drop_first(), channel_id);
        let idx = index_of_channel(e, channel_id);
        if idx == -1 {
            assert forall|j: int| 0 <= j < e.len() implies (#[trigger] e[j]).channel_id
                != channel_id by {
                if j == 0 {
                    assert(e[0] == e.first());
                } else {
                    assert(e[j] == e.drop_first()[j - 1]);
                }
            }
        } else if idx > 0 {
            assert(e[idx] == e.drop_first()[idx - 1]);
        }
    }
}

/// The index of the first occurrence of `s` in a list of strings, or -1.
pub open spec fn index_of_str(e: Seq<Seq<char>>, s: Seq<char>) -> int
    decreases e.len(),
{
    if e.len() == 0 {
        -1
    } else if e.first() == s {
        0
    } else {
        let r = index_of_str(e.drop_first(), s);
        if r == -1 {
            -1
        } else {
            r + 1
        }
    }
}

/// `index_of_str` finds exactly the least occurrence.
pub proof fn lemma_index_of_str_at(e: Seq<Seq<char>>, s: Seq<char>, i: int)
    requires
        0 <= i < e.len(),
        e[i] == s,
        forall|j: int| 0 <= j < i ==> e[j] != s,
    ensures
        index_of_str(e, s) == i,
    decreases e.len(),
{
    if i > 0 {
        lemma_index_of_str_at(e.drop_first(), s, i - 1);
    }
}

/// Where `s` does not occur, `index_of_str` is -1.
pub proof fn lemma_index_of_str_none(e: Seq<Seq<char>>, s: Seq<char>)
    requires
        forall|j: int| 0 <= j < e.len() ==> #[trigger] e[j] != s,
    ensures
        index_of_str(e, s) == -1,
    decreases e.len(),
{
    if e.len() > 0 {
        lemma_index_of_str_none(e.drop_first(), s);
    }
}

/// What `index_of_str` returns is an occurrence, and -1 means none.
pub proof fn lemma_index_of_str_props(e: Seq<Seq<char>>, s: Seq<char>)
    ensures
        index_of_str(e, s) == -1 || (0 <= index_of_str(e, s) < e.len() && e[index_of_str(e, s)]
            == s),
        index_of_str(e, s) == -1 ==> forall|j: int| 0 <= j < e.len() ==> #[trigger] e[j] != s,
        index_of_str(e, s) != -1 ==> e.contains(s),
    decreases e.len(),
{
    if e.len() > 0 {
        lemma_index_of_str_props(e.drop_first(), s);
        let idx = index_of_str(e, s);
        if idx == -1 {
            assert forall|j: int| 0 <= j < e.len() implies #[trigger] e[j] != s by {
                if j == 0 {
                    assert(e[0] == e.first());
                } else {
                    assert(e[j] == e.drop_first()[j - 1]);
                }
            }
        } else if idx > 0 {
            assert(e[idx] == e.drop_first()[idx - 1]);
        }
    }
}

/// The position of the first occurrence of `s` in `v`, if any.
pub fn find_string(v: &Vec<String>, s: &str) -> (r: Option<usize>)
    ensures
        r matches Some(i) ==> i < v@.len() && index_of_str(v.deep_view(), s@) == i as int,
        r is None ==> index_of_str(v.deep_view(), s@) == -1,
{
    let n = v.len();
    let mut i: usize = 0;
    while i < n
        invariant
            n == v@.len(),
            0 <= i <= n,
            forall|j: int| 0 <= j < i ==> v.deep_view()[j] != s@,
        decreases n - i,
    {
        if str_eq(v[i].as_str(), s) {
            proof {
                lemma_index_of_str_at(v.deep_view(), s@, i as int);
            }
            return Some(i);
        }
        i = i + 1;
    }
    proof {
        lemma_index_of_str_none(v.deep_view(), s@);
    }
    None
}

/// Whether the two tag sets share an element.
pub open spec fn tags_intersect(a: Seq<Seq<char>>, b: Seq<Seq<char>>) -> bool {
    exists|i: int, j: int| 0 <= i < a.len() && 0 <= j < b.len() && a[i] == b[j]
}

/// Whether `a` and `b` share a tag.
pub fn tags_intersect_exec(a: &Vec<String>, b: &Vec<String>) -> (r: bool)
    ensures
        r == tags_intersect(a.deep_view(), b.deep_view()),
{
    let n = a.len();
    let mut i: usize = 0;
    while i < n
        invariant
            n == a@.len(),
            0 <= i <= n,
            forall|x: int, y: int|
                0 <= x < i && 0 <= y < b@.len() ==> a.deep_view()[x] != b.deep_view()[y],
        decreases n - i,
    {
        match find_string(b, a[i].as_str()) {
            Some(j) => {
                proof {
                    lemma_index_of_str_props(b.deep_view(), a.deep_view()[i as int]);
                }
                return true;
            },
            None => {
                proof {
                    lemma_index_of_str_props(b.deep_view(), a.deep_view()[i as int]);
                }
            },
        }
        i = i + 1;
    }
    false
}

/// Whether a keyword occurs, up to ASCII case, in the post's title or summary.
pub open spec fn keyword_hits(kw: Seq<char>, post: BlogPostV) -> bool {
    contains_seq(lower_seq(post.title), lower_seq(kw)) || (post.description matches Some(d)
        && contains_seq(lower_seq(d), lower_seq(kw)))
}

/// Filter evaluation: an item passes when the include tags (if any) intersect
/// its tags, the exclude tags do not, and some keyword (if any are set)
/// occurs in its title or summary, case-insensitively.
pub open spec fn spec_matches_filters(post: BlogPostV, f: SubscriptionFiltersV) -> bool {
    &&& (f.include_tags.len() == 0 || tags_intersect(post.tags, f.include_tags))
    &&& !tags_intersect(post.tags, f.exclude_tags)
    &&& (f.keywords.len() == 0 || exists|k: int|
        0 <= k < f.keywords.len() && keyword_hits(#[trigger] f.keywords[k], post))
}

/// Whether `post` passes `filters` (the publish-interval gate stands apart;
/// see `interval_allows`).
pub fn matches_filters(post: &BlogPost, filters: &SubscriptionFilters) -> (r: bool)
    ensures
        r == spec_matches_filters(post@, filters@),
{
    if filters.include_tags.len() > 0 && !tags_intersect_exec(&post.tags, &filters.include_tags) {
        return false;
    }
    if tags_intersect_exec(&post.tags, &filters.exclude_tags) {
        return false;
    }
    if filters.keywords.len() == 0 {
        return true;
    }
    let n = filters.keywords.len();
    let mut k: usize = 0;
    while k < n
        invariant
            n == filters.keywords@.len(),
            0 <= k <= n,
            filters@.include_tags.len() == 0 || tags_intersect(post@.tags, filters@.include_tags),
            !tags_intersect(post@.tags, filters@.exclude_tags),
            forall|j: int| 0 <= j < k ==> !keyword_hits(#[trigger] filters@.keywords[j], post@),
        decreases n - k,
    {
        let kw = &filters.keywords[k];
        proof {
            assert(kw@ == filters@.keywords[k as int]);
        }
        if contains_ci(post.title.as_str(), kw.as_str()) {
            proof {
                assert(keyword_hits(filters@.keywords[k as int], post@));
            }
            return true;
        }
        match &post.description {
            Some(d) => {
                proof {
                    assert(post@.description == Some(d@));
                }
                if contains_ci(d.as_str(), kw.as_str()) {
                    proof {
                        assert(keyword_hits(filters@.keywords[k as int], post@));
                    }
                    return true;
                }
            },
            None => {},
        }
        proof {
            assert(!keyword_hits(filters@.keywords[k as int], post@));
        }
        k = k + 1;
    }
    false
}

/// The minimum-publish-interval gate: with an interval set, an item published
/// less than the interval after the previously delivered item of the same
/// (destination, source) pair is suppressed. Undated items, or a pair with no
/// delivery yet, always pass.
pub open spec fn interval_allows(
    f: SubscriptionFiltersV,
    last_delivered: Option<i64>,
    published: Option<i64>,
) -> bool {
    match f.min_publish_interval {
        None => true,
        Some(iv) => match (last_delivered, published) {
            (Some(l), Some(p)) => p - l >= iv,
            _ => true,
        },
    }
}

/// Whether the interval gate lets an item through.
pub fn interval_allows_exec(
    filters: &SubscriptionFilters,
    last_delivered: Option<i64>,
    published: Option<i64>,
) -> (r: bool)
    ensures
        r == interval_allows(filters@, last_delivered, published),
{
    match filters.min_publish_interval {
        None => true,
        Some(iv) => match (last_delivered, published) {
            (Some(l), Some(p)) => (p as i128) - (l as i128) >= (iv as i128),
            _ => true,
        },
    }
}

/// The items of `posts` that pass the filters and the interval gate, in
/// order, the "previously delivered" time of the interval check advancing
/// with each dated item that passes.
pub open spec fn select_rec(
    posts: Seq<BlogPostV>,
    f: SubscriptionFiltersV,
    last: Option<i64>,
) -> Seq<BlogPostV>
    decreases posts.len(),
{
    if posts.len() == 0 {
        Seq::empty()
    } else {
        let p = posts.first();
        if spec_matches_filters(p, f) && interval_allows(f, last, p.published) {
            let next = if p.published is Some {
                p.published
            } else {
                last
            };
            seq![p] + select_rec(posts.drop_first(), f, next)
        } else {
            select_rec(posts.drop_first(), f, last)
        }
    }
}

/// Selects the deliverable items for one destination: those that pass the
/// filters, paced by the minimum publish interval starting from
/// `last_delivered`.
pub fn select_posts(
    posts: &Vec<BlogPost>,
    filters: &SubscriptionFilters,
    last_delivered: Option<i64>,
) -> (r: Vec<BlogPost>)
    ensures
        r.deep_view() == select_rec(posts.deep_view(), filters@, last_delivered),
{
    let n = posts.len();
    let mut out: Vec<BlogPost> = Vec::new();
    let mut last = last_delivered;
    let mut i: usize = 0;
    proof {
        assert(posts.deep_view().subrange(0, n as int) =~= posts.deep_view());
        assert(out.deep_view() =~= Seq::<BlogPostV>::empty());
        assert(out.deep_view() + select_rec(posts.deep_view(), filters@, last_delivered)
            =~= select_rec(posts.deep_view(), filters@, last_delivered));
    }
    while i < n
        invariant
            n == posts@.len(),
            0 <= i <= n,
            select_rec(posts.deep_view(), filters@, last_delivered) == out.deep_view()
                + select_rec(
                posts.deep_view().subrange(i as int, n as int),
                filters@,
                last,
            ),
        decreases n - i,
    {
        let ghost rest = posts.deep_view().subrange(i as int, n as int);
        proof {
            assert(rest.first() == posts.deep_view()[i as int]);
            assert(rest.drop_first() =~= posts.deep_view().subrange(i + 1, n as int));
        }
        let post = &posts[i];
        let ghost out_before = out.deep_view();
        let ghost pv = posts.deep_view()[i as int];
        if matches_filters(post, filters) && interval_allows_exec(filters, last, post.published) {
            out.push(post.clone());
            if post.published.is_some() {
                last = post.published;
            }
            proof {
                assert(out.deep_view() =~= out_before.push(pv));
                assert(out_before.push(pv) + select_rec(rest.drop_first(), filters@, last)
                    =~= out_before + (seq![pv] + select_rec(rest.drop_first(), filters@, last)));
            }
        }
        i = i + 1;
    }
    proof {
        assert(posts.deep_view().subrange(n as int, n as int) =~= Seq::<BlogPostV>::empty());
        assert(out.deep_view() + Seq::<BlogPostV>::empty() =~= out.deep_view());
    }
    out
}

/// The predicate "subscribed, in tenant scope `guild_id`, to source `sid`".
pub open spec fn subscriber_pred(guild_id: Option<u64>, sid: Seq<char>) -> spec_fn(
    ChannelSubscriptionV,
) -> bool {
    |c: ChannelSubscriptionV| c.guild_id == guild_id && c.subscribed_sources.contains(sid)
}

/// The subscription index, all destinations together.
#[derive(Debug)]
pub struct SubscriptionIndex {
    pub subs: Vec<ChannelSubscription>,
}

impl SubscriptionIndex {
    /// The index's mathematical contents, in insertion order.
    pub open spec fn model(&self) -> Seq<ChannelSubscriptionV> {
        self.subs.deep_view()
    }

    /// Well-formed: one entry per destination.
    pub open spec fn wf(&self) -> bool {
        forall|i: int, j: int|
            0 <= i < j < self.model().len() ==> (#[trigger] self.model()[i]).channel_id != (
            #[trigger] self.model()[j]).channel_id
    }

    /// An empty index.
    pub fn new() -> (r: SubscriptionIndex)
        ensures
            r.model() == Seq::<ChannelSubscriptionV>::empty(),
            r.wf(),
    {
        let r = SubscriptionIndex { subs: Vec::new() };
        proof {
            assert(r.model() =~= Seq::<ChannelSubscriptionV>::empty());
        }
        r
    }

    /// The position of the entry for `channel_id`, if any.
    fn find_index(&self, channel_id: u64) -> (r: Option<usize>)
        ensures
            r matches Some(i) ==> i < self.model().len() && index_of_channel(
                self.model(),
                channel_id,
            ) == i as int,
            r is None ==> index_of_channel(self.model(), channel_id) == -1,
    {
        let n = self.subs.len();
        let mut i: usize = 0;
        while i < n
            invariant
                n == self.subs@.len(),
                0 <= i <= n,
                forall|j: int|
                    0 <= j < i ==> (#[trigger] self.model()[j]).channel_id != channel_id,
            decreases n - i,
        {
            if self.subs[i].channel_id == channel_id {
                proof {
                    lemma_index_of_channel_at(self.model(), channel_id, i as int);
                }
                return Some(i);
            }
            i = i + 1;
        }
        proof {
            lemma_index_of_channel_none(self.model(), channel_id);
        }
        None
    }

    /// The destination's subscription record, if it has one.
    pub fn list_for_destination(&self, channel_id: u64) -> (r: Option<&ChannelSubscription>)
        ensures
            r matches Some(s) ==> ({
                let i = index_of_channel(self.model(), channel_id);
                0 <= i < self.model().len() && s@ == self.model()[i] && s@.channel_id == channel_id
            }),
            r is None <==> index_of_channel(self.model(), channel_id) == -1,
    {
        proof {
            lemma_index_of_channel_props(self.model(), channel_id);
        }
        match self.find_index(channel_id) {
            Some(i) => Some(&self.subs[i]),
            None => None,
        }
    }

    /// Subscribes `channel_id` (in tenant scope `guild_id`) to `source_id`.
    /// A destination seen for the first time gets a fresh record with default
    /// filters and preferences; an existing one gains the source unless it
    /// already follows it.
    pub fn subscribe(&mut self, channel_id: u64, guild_id: Option<u64>, source_id: &str)
        requires
            old(self).wf(),
        ensures
            final(self).wf(),
            ({
                let i = index_of_channel(old(self).model(), channel_id);
                if i == -1 {
                    &&& final(self).model().len() == old(self).model().len() + 1
                    &&& final(self).model().subrange(
                        0,
                        old(self).model().len() as int,
                    ) == old(self).model()
                    &&& ({
                        let fresh = final(self).model().last();
                        &&& fresh.channel_id == channel_id
                        &&& fresh.guild_id == guild_id
                        &&& fresh.subscribed_sources == seq![source_id@]
                        &&& fresh.filters == (SubscriptionFiltersV {
                            include_tags: Seq::empty(),
                            exclude_tags: Seq::empty(),
                            keywords: Seq::empty(),
                            min_publish_interval: None,
                        })
                        &&& fresh.notification_settings.format == NotificationFormat::Rich
                        &&& fresh.notification_settings.include_preview == true
                        &&& fresh.notification_settings.mention_role is None
                        &&& fresh.notification_settings.max_posts_per_batch == 5
                    })
                } else {
                    let prior = old(self).model()[i];
                    if prior.subscribed_sources.contains(source_id@) {
                        final(self).model() == old(self).model()
                    } else {
                        final(self).model() == old(self).model().update(
                            i,
                            ChannelSubscriptionV {
                                subscribed_sources: prior.subscribed_sources.push(source_id@),
                                ..prior
                            },
                        )
                    }
                }
            }),
    {
        let ghost old_model = self.model();
        match self.find_index(channel_id) {
            Some(i) => {
                proof {
                    lemma_index_of_channel_props(old_model, channel_id);
                }
                match find_string(&self.subs[i].subscribed_sources, source_id) {
                    Some(_) => {
                        proof {
                            lemma_index_of_str_props(
                                old_model[i as int].subscribed_sources,
                                source_id@,
                            );
                            assert(self.model() =~= old_model);
                        }
                    },
                    None => {
                        proof {
                            lemma_index_of_str_props(
                                old_model[i as int].subscribed_sources,
                                source_id@,
                            );
                        }
                        let mut entry = self.subs[i].clone();
                        entry.subscribed_sources.push(source_id.to_owned());
                        self.subs[i] = entry;
                        proof {
                            assert(self.model()[i as int].subscribed_sources
                                =~= old_model[i as int].subscribed_sources.push(source_id@));
                            assert(self.model() =~= old_model.update(
                                i as int,
                                ChannelSubscriptionV {
                                    subscribed_sources: old_model[i as int].subscribed_sources.push(
                                        source_id@,
                                    ),
                                    ..old_model[i as int]
                                },
                            ));
                            assert forall|a: int, b: int|
                                0 <= a < b < self.model().len() implies (
                            #[trigger] self.model()[a]).channel_id != (
                            #[trigger] self.model()[b]).channel_id by {
                                assert(self.model()[a].channel_id == old_model[a].channel_id);
                                assert(self.model()[b].channel_id == old_model[b].channel_id);
                            }
                        }
                    },
                }
            },
            None => {
                proof {
                    lemma_index_of_channel_props(old_model, channel_id);
                }
                let mut sources: Vec<String> = Vec::new();
                sources.push(source_id.to_owned());
                let fresh = ChannelSubscription {
                    channel_id,
                    guild_id,
                    subscribed_sources: sources,
                    filters: SubscriptionFilters::default(),
                    notification_settings: NotificationSettings::default(),
                };
                proof {
                    assert(fresh@.subscribed_sources =~= seq![source_id@]);
                    assert(fresh@.filters.include_tags =~= Seq::<Seq<char>>::empty());
                    assert(fresh@.filters.exclude_tags =~= Seq::<Seq<char>>::empty());
                    assert(fresh@.filters.keywords =~= Seq::<Seq<char>>::empty());
                }
                let ghost fv = fresh@;
                self.subs.push(fresh);
                proof {
                    assert(self.model() =~= old_model.push(fv));
                    assert(self.model().subrange(0, old_model.len() as int) =~= old_model);
                    assert(fv.filters =~= SubscriptionFiltersV {
                        include_tags: Seq::empty(),
                        exclude_tags: Seq::empty(),
                        keywords: Seq::empty(),
                        min_publish_interval: None,
                    });
                }
            },
        }
    }

    /// Unsubscribes `channel_id` from `source_id`: the first occurrence in
    /// the destination's list leaves; everything else stays.
    pub fn unsubscribe(&mut self, channel_id: u64, source_id: &str) -> (r: UnsubscribeOutcome)
        requires
            old(self).wf(),
        ensures
            final(self).wf(),
            r == UnsubscribeOutcome::NoChannel <==> index_of_channel(
                old(self).model(),
                channel_id,
            ) == -1,
            r != UnsubscribeOutcome::Removed ==> final(self).model() == old(self).model(),
            ({
                let i = index_of_channel(old(self).model(), channel_id);
                i != -1 ==> ({
                    let k = index_of_str(old(self).model()[i].subscribed_sources, source_id@);
                    &&& (r == UnsubscribeOutcome::NotSubscribed <==> (i != -1 && k == -1))
                    &&& (k != -1 ==> r == UnsubscribeOutcome::Removed && final(self).model()
                        == old(self).model().update(
                        i,
                        ChannelSubscriptionV {
                            subscribed_sources: old(self).model()[i].subscribed_sources.remove(k),
                            ..old(self).model()[i]
                        },
                    ))
                })
            }),
    {
        let ghost old_model = self.model();
        match self.find_index(channel_id) {
            Some(i) => {
                proof {
                    lemma_index_of_channel_props(old_model, channel_id);
                }
                match find_string(&self.subs[i].subscribed_sources, source_id) {
                    Some(k) => {
                        let mut entry = self.subs[i].clone();
                        let _ = entry.subscribed_sources.remove(k);
                        self.subs[i] = entry;
                        proof {
                            assert(self.model()[i as int].subscribed_sources
                                =~= old_model[i as int].subscribed_sources.remove(k as int));
                            assert(self.model() =~= old_model.update(
                                i as int,
                                ChannelSubscriptionV {
                                    subscribed_sources: old_model[i as int].subscribed_sources.remove(
                                        k as int,
                                    ),
                                    ..old_model[i as int]
                                },
                            ));
                            assert forall|a: int, b: int|
                                0 <= a < b < self.model().len() implies (
                            #[trigger] self.model()[a]).channel_id != (
                            #[trigger] self.model()[b]).channel_id by {
                                assert(self.model()[a].channel_id == old_model[a].channel_id);
                                assert(self.model()[b].channel_id == old_model[b].channel_id);
                            }
                        }
                        UnsubscribeOutcome::Removed
                    },
                    None => {
                        proof {
                            assert(self.model() =~= old_model);
                        }
                        UnsubscribeOutcome::NotSubscribed
                    },
                }
            },
            None => {
                proof {
                    lemma_index_of_channel_props(old_model, channel_id);
                }
                UnsubscribeOutcome::NoChannel
            },
        }
    }

    /// The destinations subscribed to (`guild_id`, `source_id`), in index
    /// order. Only destinations of the source's own tenant scope are
    /// returned: a destination of another tenant never appears, however the
    /// source ids read.
    pub fn resolve_subscribers(&self, guild_id: Option<u64>, source_id: &str) -> (r: Vec<
        ChannelSubscription,
    >)
        ensures
            r.deep_view() == self.model().filter(subscriber_pred(guild_id, source_id@)),
            forall|k: int|
                0 <= k < r.deep_view().len() ==> self.model().contains(#[trigger] r.deep_view()[k]),
    {
        let n = self.subs.len();
        let mut out: Vec<ChannelSubscription> = Vec::new();
        let mut i: usize = 0;
        proof {
            reveal_with_fuel(Seq::<_>::filter, 2);
            assert(self.model().subrange(0, 0) =~= Seq::<ChannelSubscriptionV>::empty());
            assert(out.deep_view() =~= Seq::<ChannelSubscriptionV>::empty());
            assert(Seq::<ChannelSubscriptionV>::empty().filter(
                subscriber_pred(guild_id, source_id@),
            ) =~= Seq::<ChannelSubscriptionV>::empty());
        }
        while i < n
            invariant
                n == self.subs@.len(),
                0 <= i <= n,
                out.deep_view() == self.model().subrange(0, i as int).filter(
                    subscriber_pred(guild_id, source_id@),
                ),
                forall|k: int|
                    0 <= k < out.deep_view().len() ==> self.model().contains(
                        #[trigger] out.deep_view()[k],
                    ),
            decreases n - i,
        {
            let ghost prefix = self.model().subrange(0, i as int);
            let ghost cur = self.model()[i as int];
            proof {
                assert(self.model().subrange(0, i + 1) =~= prefix + seq![cur]);
                Seq::<ChannelSubscriptionV>::filter_distributes_over_add(
                    prefix,
                    seq![cur],
                    subscriber_pred(guild_id, source_id@),
                );
                assert(seq![cur].drop_last() =~= Seq::<ChannelSubscriptionV>::empty());
            }
            let entry = &self.subs[i];
            let ghost mapped_before = out.deep_view();
            let follows = match find_string(&entry.subscribed_sources, source_id) {
                Some(_) => {
                    proof {
                        lemma_index_of_str_props(cur.subscribed_sources, source_id@);
                    }
                    true
                },
                None => {
                    proof {
                        lemma_index_of_str_props(cur.subscribed_sources, source_id@);
                    }
                    false
                },
            };
            if scope_eq(entry.guild_id, guild_id) && follows {
                out.push(entry.clone());
                proof {
                    reveal_with_fuel(Seq::<_>::filter, 2);
                    assert(self.model()[i as int] == cur);
                    assert(self.model().contains(cur));
                    assert(subscriber_pred(guild_id, source_id@)(cur));
                    assert(seq![cur].filter(subscriber_pred(guild_id, source_id@)) =~= seq![cur]);
                    assert(out.deep_view() =~= mapped_before.push(cur));
                }
            } else {
                proof {
                    reveal_with_fuel(Seq::<_>::filter, 2);
                    assert(!subscriber_pred(guild_id, source_id@)(cur));
                    assert(seq![cur].filter(subscriber_pred(guild_id, source_id@)) =~= Seq::<
                        ChannelSubscriptionV,
                    >::empty());
                }
            }
            proof {
                assert(out.deep_view() =~= self.model().subrange(0, i + 1).filter(
                    subscriber_pred(guild_id, source_id@),
                ));
            }
            i = i + 1;
        }
        proof {
            assert(self.model().subrange(0, n as int) =~= self.model());
        }
        out
    }
}

/// How many destinations of `e` sit in tenant scope `guild_id`.
pub open spec fn spec_count_channels(e: Seq<ChannelSubscriptionV>, guild_id: Option<u64>) -> nat
    decreases e.len(),
{
    if e.len() == 0 {
        0nat
    } else {
        spec_count_channels(e.drop_last(), guild_id) + (if e.last().guild_id == guild_id {
            1nat
        } else {
            0nat
        })
    }
}

/// The total number of subscriptions held by destinations of scope `guild_id`.
pub open spec fn spec_total_subscribed(e: Seq<ChannelSubscriptionV>, guild_id: Option<u64>) -> nat
    decreases e.len(),
{
    if e.len() == 0 {
        0nat
    } else {
        spec_total_subscribed(e.drop_last(), guild_id) + (if e.last().guild_id == guild_id {
            e.last().subscribed_sources.len()
        } else {
            0nat
        })
    }
}

impl SubscriptionIndex {
    /// Counts the destinations of tenant scope `guild_id`.
    pub fn count_channels_for(&self, guild_id: Option<u64>) -> (r: usize)
        ensures
            r as nat == spec_count_channels(self.model(), guild_id),
    {
        let n = self.subs.len();
        let mut acc: usize = 0;
        let mut i: usize = 0;
        proof {
            assert(self.model().subrange(0, 0) =~= Seq::<ChannelSubscriptionV>::empty());
        }
        while i < n
            invariant
                n == self.subs@.len(),
                0 <= i <= n,
                acc as nat == spec_count_channels(self.model().subrange(0, i as int), guild_id),
                acc <= i,
            decreases n - i,
        {
            proof {
                assert(self.model().subrange(0, i + 1).drop_last() =~= self.model().subrange(
                    0,
                    i as int,
                ));
                assert(self.model().subrange(0, i + 1).last() == self.model()[i as int]);
            }
            if scope_eq(self.subs[i].guild_id, guild_id) {
                acc = acc + 1;
            }
            i = i + 1;
        }
        proof {
            assert(self.model().subrange(0, n as int) =~= self.model());
        }
        acc
    }

    /// Sums the subscriptions of the destinations in tenant scope `guild_id`.
    /// The sum must fit the machine word.
    pub fn total_subscribed_for(&self, guild_id: Option<u64>) -> (r: usize)
        requires
            spec_total_subscribed(self.model(), guild_id) <= usize::MAX,
        ensures
            r as nat == spec_total_subscribed(self.model(), guild_id),
    {
        let n = self.subs.len();
        let mut acc: usize = 0;
        let mut i: usize = 0;
        proof {
            assert(self.model().subrange(0, 0) =~= Seq::<ChannelSubscriptionV>::empty());
        }
        while i < n
            invariant
                n == self.subs@.len(),
                0 <= i <= n,
                acc as nat == spec_total_subscribed(self.model().subrange(0, i as int), guild_id),
                spec_total_subscribed(self.model(), guild_id) <= usize::MAX,
            decreases n - i,
        {
            proof {
                assert(self.model().subrange(0, i + 1).drop_last() =~= self.model().subrange(
                    0,
                    i as int,
                ));
                assert(self.model().subrange(0, i + 1).last() == self.model()[i as int]);
                lemma_total_subscribed_prefix_le(self.model(), guild_id, i + 1, n as int);
                assert(self.model().subrange(0, n as int) =~= self.model());
            }
            if scope_eq(self.subs[i].guild_id, guild_id) {
                acc = acc + self.subs[i].subscribed_sources.len();
            }
            i = i + 1;
        }
        proof {
            assert(self.model().subrange(0, n as int) =~= self.model());
        }
        acc
    }
}

/// A longer prefix never sums to less.
proof fn lemma_total_subscribed_prefix_le(
    e: Seq<ChannelSubscriptionV>,
    guild_id: Option<u64>,
    i: int,
    j: int,
)
    requires
        0 <= i <= j <= e.len(),
    ensures
        spec_total_subscribed(e.subrange(0, i), guild_id) <= spec_total_subscribed(
            e.subrange(0, j),
            guild_id,
        ),
    decreases j - i,
{
    if i < j {
        lemma_total_subscribed_prefix_le(e, guild_id, i, j - 1);
        assert(e.subrange(0, j).drop_last() =~= e.subrange(0, j - 1));
    }
}

/// Tenant isolation: every destination that resolution returns for scope
/// `guild_id` carries exactly that scope, so resolving a source of one tenant
/// never reaches another tenant's destinations, whatever source ids they list.
pub proof fn lemma_tenant_isolation(
    e: Seq<ChannelSubscriptionV>,
    guild_id: Option<u64>,
    sid: Seq<char>,
)
    ensures
        forall|k: int|
            0 <= k < e.filter(subscriber_pred(guild_id, sid)).len() ==> (#[trigger] e.filter(
                subscriber_pred(guild_id, sid),
            )[k]).guild_id == guild_id,
{
    let filtered = e.filter(subscriber_pred(guild_id, sid));
    assert forall|k: int| 0 <= k < filtered.len() implies (#[trigger] filtered[k]).guild_id
        == guild_id by {
        Seq::<ChannelSubscriptionV>::lemma_filter_pred(e, subscriber_pred(guild_id, sid), k);
    }
}

} // verus!
