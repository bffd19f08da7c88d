//! Watermark deduplication. The policy implemented here is the minimal one:
//! an item whose publish time lies after the source's watermark is new, and
//! an item without a publish time is treated as new on every poll. The
//! duplicate-delivery risk of undated items is accepted (at-least-once);
//! downstream consumers must tolerate repeats. After a successful poll the
//! watermark advances to the newest publish time observed, or to the poll
//! time when none was.

use vstd::prelude::*;

use crate::models::{BlogPost, BlogPostV};

verus! {

/// Whether an item counts as new against a watermark: undated items always
/// do; dated items exactly when published after the watermark (or the source
/// was never polled).
pub open spec fn spec_is_new(post: BlogPostV, watermark: Option<i64>) -> bool {
    match post.published {
        None => true,
        Some(p) => match watermark {
            None => true,
            Some(w) => p > w,
        },
    }
}

/// The predicate "new against `watermark`".
pub open spec fn new_pred(watermark: Option<i64>) -> spec_fn(BlogPostV) -> bool {
    |p: BlogPostV| spec_is_new(p, watermark)
}

/// Whether `post` is new against `watermark`.
pub fn is_new(post: &BlogPost, watermark: Option<i64>) -> (r: bool)
    ensures
        r == spec_is_new(post@, watermark),
{
    match post.published {
        None => true,
        Some(p) => match watermark {
            None => true,
            Some(w) => p > w,
        },
    }
}

/// Keeps exactly the items that are new against the watermark, in fetch order.
pub fn filter_new_posts(posts: &Vec<BlogPost>, watermark: Option<i64>) -> (r: Vec<BlogPost>)
    ensures
        r.deep_view() == posts.deep_view().filter(new_pred(watermark)),
{
    let n = posts.len();
    let mut out: Vec<BlogPost> = Vec::new();
    let mut i: usize = 0;
    proof {
        reveal_with_fuel(Seq::<_>::filter, 2);
        assert(posts.deep_view().subrange(0, 0) =~= Seq::<BlogPostV>::empty());
        assert(out.deep_view() =~= Seq::<BlogPostV>::empty());
        assert(Seq::<BlogPostV>::empty().filter(new_pred(watermark)) =~= Seq::<
            BlogPostV,
        >::empty());
    }
    while i < n
        invariant
            n == posts@.len(),
            0 <= i <= n,
            out.deep_view() == posts.deep_view().subrange(0, i as int).filter(
                new_pred(watermark),
            ),
        decreases n - i,
    {
        let ghost prefix = posts.deep_view().subrange(0, i as int);
        let ghost cur = posts.deep_view()[i as int];
        proof {
            assert(posts.deep_view().subrange(0, i + 1) =~= prefix + seq![cur]);
            Seq::<BlogPostV>::filter_distributes_over_add(prefix, seq![cur], new_pred(watermark));
            assert(seq![cur].drop_last() =~= Seq::<BlogPostV>::empty());
        }
        let ghost before = out.deep_view();
        if is_new(&posts[i], watermark) {
            out.push(posts[i].clone());
            proof {
                reveal_with_fuel(Seq::<_>::filter, 2);
                assert(new_pred(watermark)(cur));
                assert(seq![cur].filter(new_pred(watermark)) =~= seq![cur]);
                assert(out.deep_view() =~= before.push(cur));
            }
        } else {
            proof {
                reveal_with_fuel(Seq::<_>::filter, 2);
                assert(!new_pred(watermark)(cur));
                assert(seq![cur].filter(new_pred(watermark)) =~= Seq::<BlogPostV>::empty());
            }
        }
        proof {
            assert(out.deep_view() =~= posts.deep_view().subrange(0, i + 1).filter(
                new_pred(watermark),
            ));
        }
        i = i + 1;
    }
    proof {
        assert(posts.deep_view().subrange(0, n as int) =~= posts.deep_view());
    }
    out
}

/// The maximum publish time among the dated items of `posts`, if any is dated.
pub open spec fn spec_max_published(posts: Seq<BlogPostV>) -> Option<i64>
    decreases posts.len(),
{
    if posts.len() == 0 {
        None
    } else {
        let m = spec_max_published(posts.drop_last());
        match (posts.last().published, m) {
            (Some(p), Some(q)) => Some(
                if p > q {
                    p
                } else {
                    q
                },
            ),
            (Some(p), None) => Some(p),
            (None, _) => m,
        }
    }
}

/// The watermark after a successful poll at `poll_time`: the newest publish
/// time observed, or the poll time itself where nothing observed was dated.
pub open spec fn spec_watermark_after(posts: Seq<BlogPostV>, poll_time: i64) -> i64 {
    match spec_max_published(posts) {
        Some(m) => m,
        None => poll_time,
    }
}

/// Computes the watermark after a successful poll at `poll_time`.
pub fn advance_watermark(posts: &Vec<BlogPost>, poll_time: i64) -> (r: i64)
    ensures
        r == spec_watermark_after(posts.deep_view(), poll_time),
{
    let n = posts.len();
    let mut m: Option<i64> = None;
    let mut i: usize = 0;
    proof {
        assert(posts.deep_view().subrange(0, 0) =~= Seq::<BlogPostV>::empty());
    }
    while i < n
        invariant
            n == posts@.len(),
            0 <= i <= n,
            m == spec_max_published(posts.deep_view().subrange(0, i as int)),
        decreases n - i,
    {
        proof {
            assert(posts.deep_view().subrange(0, i + 1).drop_last() =~= posts.deep_view().subrange(
                0,
                i as int,
            ));
            assert(posts.deep_view().subrange(0, i + 1).last() == posts.deep_view()[i as int]);
        }
        match posts[i].published {
            Some(p) => {
                m = match m {
                    Some(q) => if p > q {
                        Some(p)
                    } else {
                        Some(q)
                    },
                    None => Some(p),
                };
            },
            None => {},
        }
        i = i + 1;
    }
    proof {
        assert(posts.deep_view().subrange(0, n as int) =~= posts.deep_view());
    }
    match m {
        Some(v) => v,
        None => poll_time,
    }
}

/// Every dated item the filter keeps is strictly newer than the watermark:
/// what was already seen is never re-emitted.
pub proof fn lemma_filter_new_sound(posts: Seq<BlogPostV>, w: i64)
    ensures
        forall|k: int|
            0 <= k < posts.filter(new_pred(Some(w))).len() ==> (match (#[trigger] posts.filter(
                new_pred(Some(w)),
            )[k]).published {
                Some(p) => p > w,
                None => true,
            }),
{
    let filtered = posts.filter(new_pred(Some(w)));
    assert forall|k: int| 0 <= k < filtered.len() implies (match (#[trigger] filtered[k]).published {
        Some(p) => p > w,
        None => true,
    }) by {
        Seq::<BlogPostV>::lemma_filter_pred(posts, new_pred(Some(w)), k);
    }
}

} // verus!
