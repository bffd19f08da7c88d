//! One sweep step for one source: filter the fetched items to the new ones,
//! resolve the subscribed destinations, plan each destination's batches, and
//! compute the watermark to advance to. The caller performs the deliveries
//! one by one and records each outcome; a failed delivery removes only its
//! own entry from the pending work — every other destination's delivery
//! stays, so one destination's failure never blocks another's.

use vstd::prelude::*;

use crate::dedup::{filter_new_posts, advance_watermark, new_pred, spec_watermark_after};
use crate::models::{BlogPost, BlogPostV, ChannelSubscriptionV, FeedSource};
use crate::notify::{dispatch_plan, spec_dispatch_plan, DispatchBatch, DispatchBatchV};
use crate::subs::{select_posts, select_rec, subscriber_pred, SubscriptionIndex};

verus! {

/// The planned batches for one destination.
#[derive(Debug)]
pub struct PendingDelivery {
    pub channel_id: u64,
    pub batches: Vec<DispatchBatch>,
}

/// The mathematical value of a `PendingDelivery`.
#[verifier::ext_equal]
pub ghost struct PendingDeliveryV {
    pub channel_id: u64,
    pub batches: Seq<DispatchBatchV>,
}

impl View for PendingDelivery {
    type V = PendingDeliveryV;

    open spec fn view(&self) -> PendingDeliveryV {
        PendingDeliveryV { channel_id: self.channel_id, batches: self.batches.deep_view() }
    }
}

impl DeepView for PendingDelivery {
    type V = PendingDeliveryV;

    open spec fn deep_view(&self) -> PendingDeliveryV {
        self.view()
    }
}

/// What one resolved destination is owed for the new items: the items that
/// pass its filters, planned into its batches.
pub open spec fn spec_delivery_of(
    c: ChannelSubscriptionV,
    new_posts: Seq<BlogPostV>,
    now: i64,
) -> PendingDeliveryV {
    PendingDeliveryV {
        channel_id: c.channel_id,
        batches: spec_dispatch_plan(
            select_rec(new_posts, c.filters, None),
            c.notification_settings,
            now,
        ),
    }
}

/// The per-destination planning step as a function value.
pub open spec fn delivery_of(new_posts: Seq<BlogPostV>, now: i64) -> spec_fn(
    ChannelSubscriptionV,
) -> PendingDeliveryV {
    |c: ChannelSubscriptionV| spec_delivery_of(c, new_posts, now)
}

/// The work one successful fetch plans: the deliveries owed, destination by
/// destination, and the watermark to advance to.
#[derive(Debug)]
pub struct SourceSweepPlan {
    pub deliveries: Vec<PendingDelivery>,
    pub new_watermark: i64,
}

/// Plans the sweep of one source from its fetched items at time `now`: the
/// items new against the source's watermark, delivered to exactly the
/// destinations subscribed to this source in this tenant scope (never
/// another tenant's), each under its own filters and preferences; and the
/// watermark the source advances to. The interval gate starts fresh for the
/// sweep; callers that track last-delivered times per destination use
/// `select_posts` themselves.
pub fn plan_source_sweep(
    source: &FeedSource,
    fetched: &Vec<BlogPost>,
    index: &SubscriptionIndex,
    now: i64,
) -> (r: SourceSweepPlan)
    requires
        forall|j: int|
            0 <= j < index.model().len() ==> (
            #[trigger] index.model()[j]).notification_settings.max_posts_per_batch >= 1,
    ensures
        r.new_watermark == spec_watermark_after(
            fetched.deep_view().filter(new_pred(source@.last_updated)),
            now,
        ),
        r.deliveries.deep_view() == index.model().filter(
            subscriber_pred(source@.guild_id, source@.id),
        ).map_values(
            delivery_of(fetched.deep_view().filter(new_pred(source@.last_updated)), now),
        ),
{
    let new_posts = filter_new_posts(fetched, source.last_updated);
    let new_watermark = advance_watermark(&new_posts, now);
    let subscribers = index.resolve_subscribers(source.guild_id, source.id.as_str());
    let ghost subs_view = index.model().filter(subscriber_pred(source@.guild_id, source@.id));
    let ghost nv = fetched.deep_view().filter(new_pred(source@.last_updated));
    let n = subscribers.len();
    let mut deliveries: Vec<PendingDelivery> = Vec::new();
    let mut i: usize = 0;
    while i < n
        invariant
            n == subscribers@.len(),
            0 <= i <= n,
            subscribers.deep_view() == subs_view,
            new_posts.deep_view() == nv,
            forall|k: int|
                0 <= k < subscribers.deep_view().len() ==> index.model().contains(
                    #[trigger] subscribers.deep_view()[k],
                ),
            forall|j: int|
                0 <= j < index.model().len() ==> (
                #[trigger] index.model()[j]).notification_settings.max_posts_per_batch >= 1,
            deliveries.deep_view() == subs_view.subrange(0, i as int).map_values(
                delivery_of(nv, now),
            ),
        decreases n - i,
    {
        let sub = &subscribers[i];
        proof {
            assert(subscribers.deep_view()[i as int] == sub@);
            assert(index.model().contains(sub@));
            let j = choose|j: int| 0 <= j < index.model().len() && index.model()[j] == sub@;
            assert(index.model()[j].notification_settings.max_posts_per_batch >= 1);
        }
        let selected = select_posts(&new_posts, &sub.filters, None);
        let batches = dispatch_plan(&selected, &sub.notification_settings, now);
        let ghost before = deliveries.deep_view();
        deliveries.push(PendingDelivery { channel_id: sub.channel_id, batches });
        proof {
            let f = delivery_of(nv, now);
            assert(f(subs_view[i as int]) == spec_delivery_of(subs_view[i as int], nv, now));
            assert(deliveries.deep_view() =~= before.push(f(subs_view[i as int])));
            assert(subs_view.subrange(0, i + 1).map_values(f) =~= subs_view.subrange(
                0,
                i as int,
            ).map_values(f).push(f(subs_view[i as int])));
        }
        i = i + 1;
    }
    proof {
        assert(subs_view.subrange(0, n as int) =~= subs_view);
    }
    SourceSweepPlan { deliveries, new_watermark }
}

/// The sweep's delivery loop, as a state machine the caller drives: it takes
/// the first pending delivery, performs it outside the library, and records
/// the outcome. Recording removes exactly that one delivery — whether it
/// succeeded or failed — so the rest of the sweep is isolated from any one
/// destination's failure.
#[derive(Debug)]
pub struct SweepState {
    pub pending: Vec<PendingDelivery>,
    pub delivered: Vec<u64>,
    pub failed: Vec<u64>,
}

impl SweepState {
    /// A fresh state owing exactly `deliveries`.
    pub fn new(deliveries: Vec<PendingDelivery>) -> (r: SweepState)
        ensures
            r.pending.deep_view() == deliveries.deep_view(),
            r.delivered@ == Seq::<u64>::empty(),
            r.failed@ == Seq::<u64>::empty(),
    {
        SweepState { pending: deliveries, delivered: Vec::new(), failed: Vec::new() }
    }

    /// The delivery to perform next, if any is owed.
    pub fn next_delivery(&self) -> (r: Option<&PendingDelivery>)
        ensures
            r matches Some(d) ==> self.pending@.len() > 0 && d@ == self.pending.deep_view()[0],
            r is None <==> self.pending@.len() == 0,
    {
        if self.pending.len() > 0 {
            Some(&self.pending[0])
        } else {
            None
        }
    }

    /// Records the first pending delivery's outcome. Success or failure, only
    /// that entry leaves the pending work: every other destination's delivery
    /// stays exactly as planned. The outcome is logged on the matching side.
    pub fn record_outcome(&mut self, ok: bool)
        requires
            old(self).pending@.len() > 0,
        ensures
            final(self).pending.deep_view() == old(self).pending.deep_view().drop_first(),
            ok ==> final(self).delivered@ == old(self).delivered@.push(
                old(self).pending.deep_view()[0].channel_id,
            ) && final(self).failed@ == old(self).failed@,
            !ok ==> final(self).failed@ == old(self).failed@.push(
                old(self).pending.deep_view()[0].channel_id,
            ) && final(self).delivered@ == old(self).delivered@,
    {
        let head = self.pending.remove(0);
        if ok {
            self.delivered.push(head.channel_id);
        } else {
            self.failed.push(head.channel_id);
        }
        proof {
            assert(self.pending.deep_view() =~= old(self).pending.deep_view().drop_first());
        }
    }
}

} // verus!
