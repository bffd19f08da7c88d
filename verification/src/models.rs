//! Data model of the pipeline: sources, posts, destinations, billing records.
//!
//! Timestamps are Unix epoch seconds; durations are whole seconds. A tenant
//! scope is `Option<u64>`: `Some(guild)` for a workspace, `None` where no
//! such boundary exists.

use vstd::prelude::*;

verus! {

/// How many sources a free-tier tenant may keep enabled.
pub const FREE_TIER_FEED_LIMIT: usize = 3;

/// The kind of syndication endpoint a source points at.
#[derive(Clone, Copy, Debug, PartialEq, Eq, Structural)]
pub enum FeedType {
    Rss,
    Atom,
    JsonFeed,
    Newsletter,
}

/// How notifications for a destination are rendered.
#[derive(Clone, Copy, Debug, PartialEq, Eq, Structural)]
pub enum NotificationFormat {
    Simple,
    Rich,
    Summary,
}

/// The state of one recorded payment.
#[derive(Clone, Copy, Debug, PartialEq, Eq, Structural)]
pub enum PaymentStatus {
    Pending,
    Succeeded,
    Failed,
    Canceled,
    Refunded,
}

/// A billing tier: Free has a finite source quota, the others none.
#[derive(Clone, Copy, Debug, PartialEq, Eq, Structural)]
pub enum SubscriptionTier {
    Free,
    Premium,
    Enterprise,
}

impl SubscriptionTier {
    /// The tier's source quota, `None` meaning unlimited.
    pub open spec fn spec_feed_limit(self) -> Option<usize> {
        match self {
            SubscriptionTier::Free => Some(FREE_TIER_FEED_LIMIT),
            SubscriptionTier::Premium => None,
            SubscriptionTier::Enterprise => None,
        }
    }

    /// The source quota as a number, `None` meaning unlimited.
    pub fn feed_limit_number(&self) -> (r: Option<usize>)
        ensures
            r == self.spec_feed_limit(),
    {
        match self {
            SubscriptionTier::Free => Some(FREE_TIER_FEED_LIMIT),
            SubscriptionTier::Premium => None,
            SubscriptionTier::Enterprise => None,
        }
    }

    /// The source quota as display text.
    pub fn feed_limit(&self) -> (r: String)
        ensures
            *self == SubscriptionTier::Free ==> r@ == "3"@,
            *self != SubscriptionTier::Free ==> r@ == "unlimited"@,
    {
        match self {
            SubscriptionTier::Free => "3".to_owned(),
            SubscriptionTier::Premium => "unlimited".to_owned(),
            SubscriptionTier::Enterprise => "unlimited".to_owned(),
        }
    }

    /// The monthly price in USD cents, `None` for the free tier.
    pub fn price_cents(&self) -> (r: Option<u64>)
        ensures
            r == (match *self {
                SubscriptionTier::Free => None::<u64>,
                SubscriptionTier::Premium => Some(999u64),
                SubscriptionTier::Enterprise => Some(2999u64),
            }),
    {
        match self {
            SubscriptionTier::Free => None,
            SubscriptionTier::Premium => Some(999),
            SubscriptionTier::Enterprise => Some(2999),
        }
    }

    /// A one-line description of what the tier offers.
    pub fn description(&self) -> (r: &'static str)
        ensures
            *self == SubscriptionTier::Free ==> r@ == "Basic RSS/Atom feed support"@,
            *self == SubscriptionTier::Premium ==> r@
                == "Unlimited feeds, priority support, advanced filtering"@,
            *self == SubscriptionTier::Enterprise ==> r@
                == "Unlimited feeds, multi-workspace support, dedicated support, custom features"@,
    {
        match self {
            SubscriptionTier::Free => "Basic RSS/Atom feed support",
            SubscriptionTier::Premium => "Unlimited feeds, priority support, advanced filtering",
            SubscriptionTier::Enterprise => "Unlimited feeds, multi-workspace support, dedicated support, custom features",
        }
    }

    /// The tier's display name.
    pub fn display_name(&self) -> (r: &'static str)
        ensures
            *self == SubscriptionTier::Free ==> r@ == "Free"@,
            *self == SubscriptionTier::Premium ==> r@ == "Premium"@,
            *self == SubscriptionTier::Enterprise ==> r@ == "Enterprise"@,
    {
        match self {
            SubscriptionTier::Free => "Free",
            SubscriptionTier::Premium => "Premium",
            SubscriptionTier::Enterprise => "Enterprise",
        }
    }

    /// The tier's lowercase wire name, as carried in checkout metadata.
    pub fn wire_name(&self) -> (r: &'static str)
        ensures
            *self == SubscriptionTier::Free ==> r@ == "free"@,
            *self == SubscriptionTier::Premium ==> r@ == "premium"@,
            *self == SubscriptionTier::Enterprise ==> r@ == "enterprise"@,
    {
        match self {
            SubscriptionTier::Free => "free",
            SubscriptionTier::Premium => "premium",
            SubscriptionTier::Enterprise => "enterprise",
        }
    }
}

/// A syndication endpoint registered by a tenant.
#[derive(Debug)]
pub struct FeedSource {
    pub id: String,
    pub name: String,
    pub url: String,
    pub feed_type: FeedType,
    /// Watermark: publish time of the newest item already processed.
    pub last_updated: Option<i64>,
    pub enabled: bool,
    pub tags: Vec<String>,
    /// Owning tenant scope; `None` is the scope-less sentinel.
    pub guild_id: Option<u64>,
}

/// The mathematical value of a `FeedSource`.
#[verifier::ext_equal]
pub ghost struct FeedSourceV {
    pub id: Seq<char>,
    pub name: Seq<char>,
    pub url: Seq<char>,
    pub feed_type: FeedType,
    pub last_updated: Option<i64>,
    pub enabled: bool,
    pub tags: Seq<Seq<char>>,
    pub guild_id: Option<u64>,
}

impl View for FeedSource {
    type V = FeedSourceV;

    open spec fn view(&self) -> FeedSourceV {
        FeedSourceV {
            id: self.id@,
            name: self.name@,
            url: self.url@,
            feed_type: self.feed_type,
            last_updated: self.last_updated,
            enabled: self.enabled,
            tags: self.tags.deep_view(),
            guild_id: self.guild_id,
        }
    }
}

impl DeepView for FeedSource {
    type V = FeedSourceV;

    open spec fn deep_view(&self) -> FeedSourceV {
        self.view()
    }
}

impl Clone for FeedSource {
    fn clone(&self) -> (r: Self)
        ensures
            r@ == self@,
    {
        let r = FeedSource {
            id: self.id.clone(),
            name: self.name.clone(),
            url: self.url.clone(),
            feed_type: self.feed_type,
            last_updated: self.last_updated,
            enabled: self.enabled,
            tags: clone_strings(&self.tags),
            guild_id: self.guild_id,
        };
        proof {
            assert(r@ =~= self@);
        }
        r
    }
}

/// One discovered content unit, produced by a poll and consumed by dispatch.
#[derive(Debug)]
pub struct BlogPost {
    /// Stable identity derived from (source id, link, title).
    pub id: String,
    pub title: String,
    pub link: String,
    pub description: Option<String>,
    pub author: Option<String>,
    pub published: Option<i64>,
    pub updated: Option<i64>,
    pub source_id: String,
    pub tags: Vec<String>,
    pub content: Option<String>,
}

/// The mathematical value of a `BlogPost`.
#[verifier::ext_equal]
pub ghost struct BlogPostV {
    pub id: Seq<char>,
    pub title: Seq<char>,
    pub link: Seq<char>,
    pub description: Option<Seq<char>>,
    pub author: Option<Seq<char>>,
    pub published: Option<i64>,
    pub updated: Option<i64>,
    pub source_id: Seq<char>,
    pub tags: Seq<Seq<char>>,
    pub content: Option<Seq<char>>,
}

impl View for BlogPost {
    type V = BlogPostV;

    open spec fn view(&self) -> BlogPostV {
        BlogPostV {
            id: self.id@,
            title: self.title@,
            link: self.link@,
            description: self.description.deep_view(),
            author: self.author.deep_view(),
            published: self.published,
            updated: self.updated,
            source_id: self.source_id@,
            tags: self.tags.deep_view(),
            content: self.content.deep_view(),
        }
    }
}

impl DeepView for BlogPost {
    type V = BlogPostV;

    open spec fn deep_view(&self) -> BlogPostV {
        self.view()
    }
}

impl Clone for BlogPost {
    fn clone(&self) -> (r: Self)
        ensures
            r@ == self@,
    {
        let r = BlogPost {
            id: self.id.clone(),
            title: self.title.clone(),
            link: self.link.clone(),
            description: clone_opt_string(&self.description),
            author: clone_opt_string(&self.author),
            published: self.published,
            updated: self.updated,
            source_id: self.source_id.clone(),
            tags: clone_strings(&self.tags),
            content: clone_opt_string(&self.content),
        };
        proof {
            assert(r@ =~= self@);
        }
        r
    }
}

/// Per-destination filter preferences.
#[derive(Debug)]
pub struct SubscriptionFilters {
    pub include_tags: Vec<String>,
    pub exclude_tags: Vec<String>,
    pub keywords: Vec<String>,
    /// Minimum seconds between delivered items of one source, if set.
    pub min_publish_interval: Option<i64>,
}

/// The mathematical value of `SubscriptionFilters`.
#[verifier::ext_equal]
pub ghost struct SubscriptionFiltersV {
    pub include_tags: Seq<Seq<char>>,
    pub exclude_tags: Seq<Seq<char>>,
    pub keywords: Seq<Seq<char>>,
    pub min_publish_interval: Option<i64>,
}

impl View for SubscriptionFilters {
    type V = SubscriptionFiltersV;

    open spec fn view(&self) -> SubscriptionFiltersV {
        SubscriptionFiltersV {
            include_tags: self.include_tags.deep_view(),
            exclude_tags: self.exclude_tags.deep_view(),
            keywords: self.keywords.deep_view(),
            min_publish_interval: self.min_publish_interval,
        }
    }
}

impl DeepView for SubscriptionFilters {
    type V = SubscriptionFiltersV;

    open spec fn deep_view(&self) -> SubscriptionFiltersV {
        self.view()
    }
}

impl Clone for SubscriptionFilters {
    fn clone(&self) -> (r: Self)
        ensures
            r@ == self@,
    {
        let r = SubscriptionFilters {
            include_tags: clone_strings(&self.include_tags),
            exclude_tags: clone_strings(&self.exclude_tags),
            keywords: clone_strings(&self.keywords),
            min_publish_interval: self.min_publish_interval,
        };
        proof {
            assert(r@ =~= self@);
        }
        r
    }
}

impl Default for SubscriptionFilters {
    fn default() -> (r: Self)
        ensures
            r.include_tags@ == Seq::<String>::empty(),
            r.exclude_tags@ == Seq::<String>::empty(),
            r.keywords@ == Seq::<String>::empty(),
            r.min_publish_interval is None,
    {
        SubscriptionFilters {
            include_tags: Vec::new(),
            exclude_tags: Vec::new(),
            keywords: Vec::new(),
            min_publish_interval: None,
        }
    }
}

/// Per-destination rendering preferences.
#[derive(Clone, Copy, Debug)]
pub struct NotificationSettings {
    pub format: NotificationFormat,
    pub include_preview: bool,
    pub mention_role: Option<u64>,
    pub max_posts_per_batch: u32,
}

impl Default for NotificationSettings {
    fn default() -> (r: Self)
        ensures
            r.format == NotificationFormat::Rich,
            r.include_preview == true,
            r.mention_role is None,
            r.max_posts_per_batch == 5u32,
    {
        NotificationSettings {
            format: NotificationFormat::Rich,
            include_preview: true,
            mention_role: None,
            max_posts_per_batch: 5,
        }
    }
}

/// A delivery destination (one channel) and what it follows.
#[derive(Debug)]
pub struct ChannelSubscription {
    pub channel_id: u64,
    pub guild_id: Option<u64>,
    pub subscribed_sources: Vec<String>,
    pub filters: SubscriptionFilters,
    pub notification_settings: NotificationSettings,
}

/// The mathematical value of a `ChannelSubscription`.
#[verifier::ext_equal]
pub ghost struct ChannelSubscriptionV {
    pub channel_id: u64,
    pub guild_id: Option<u64>,
    pub subscribed_sources: Seq<Seq<char>>,
    pub filters: SubscriptionFiltersV,
    pub notification_settings: NotificationSettings,
}

impl View for ChannelSubscription {
    type V = ChannelSubscriptionV;

    open spec fn view(&self) -> ChannelSubscriptionV {
        ChannelSubscriptionV {
            channel_id: self.channel_id,
            guild_id: self.guild_id,
            subscribed_sources: self.subscribed_sources.deep_view(),
            filters: self.filters@,
            notification_settings: self.notification_settings,
        }
    }
}

impl DeepView for ChannelSubscription {
    type V = ChannelSubscriptionV;

    open spec fn deep_view(&self) -> ChannelSubscriptionV {
        self.view()
    }
}

impl Clone for ChannelSubscription {
    fn clone(&self) -> (r: Self)
        ensures
            r@ == self@,
    {
        let r = ChannelSubscription {
            channel_id: self.channel_id,
            guild_id: self.guild_id,
            subscribed_sources: clone_strings(&self.subscribed_sources),
            filters: self.filters.clone(),
            notification_settings: self.notification_settings,
        };
        proof {
            assert(r@ =~= self@);
        }
        r
    }
}

/// A tenant's billing record.
#[derive(Debug)]
pub struct GuildSubscription {
    pub guild_id: u64,
    pub tier: SubscriptionTier,
    pub stripe_customer_id: Option<String>,
    pub stripe_subscription_id: Option<String>,
    pub created_at: i64,
    pub expires_at: Option<i64>,
    pub last_payment_at: Option<i64>,
    pub is_active: bool,
    /// Cached count of the tenant's sources.
    pub feed_count: usize,
}

/// The mathematical value of a `GuildSubscription`.
#[verifier::ext_equal]
pub ghost struct GuildSubscriptionV {
    pub guild_id: u64,
    pub tier: SubscriptionTier,
    pub stripe_customer_id: Option<Seq<char>>,
    pub stripe_subscription_id: Option<Seq<char>>,
    pub created_at: i64,
    pub expires_at: Option<i64>,
    pub last_payment_at: Option<i64>,
    pub is_active: bool,
    pub feed_count: usize,
}

impl View for GuildSubscription {
    type V = GuildSubscriptionV;

    open spec fn view(&self) -> GuildSubscriptionV {
        GuildSubscriptionV {
            guild_id: self.guild_id,
            tier: self.tier,
            stripe_customer_id: self.stripe_customer_id.deep_view(),
            stripe_subscription_id: self.stripe_subscription_id.deep_view(),
            created_at: self.created_at,
            expires_at: self.expires_at,
            last_payment_at: self.last_payment_at,
            is_active: self.is_active,
            feed_count: self.feed_count,
        }
    }
}

impl DeepView for GuildSubscription {
    type V = GuildSubscriptionV;

    open spec fn deep_view(&self) -> GuildSubscriptionV {
        self.view()
    }
}

impl Clone for GuildSubscription {
    fn clone(&self) -> (r: Self)
        ensures
            r@ == self@,
    {
        GuildSubscription {
            guild_id: self.guild_id,
            tier: self.tier,
            stripe_customer_id: clone_opt_string(&self.stripe_customer_id),
            stripe_subscription_id: clone_opt_string(&self.stripe_subscription_id),
            created_at: self.created_at,
            expires_at: self.expires_at,
            last_payment_at: self.last_payment_at,
            is_active: self.is_active,
            feed_count: self.feed_count,
        }
    }
}

impl GuildSubscription {
    /// A record is valid while active and not past its expiry.
    pub open spec fn spec_is_valid(self, now: i64) -> bool {
        self.is_active && (self.expires_at is None || self.expires_at->0 > now)
    }

    /// Whether the record is valid at time `now`.
    pub fn is_valid(&self, now: i64) -> (r: bool)
        ensures
            r == self.spec_is_valid(now),
    {
        self.is_active && (match self.expires_at {
            None => true,
            Some(exp) => exp > now,
        })
    }

    /// Whether one more source may be added under this record at time `now`,
    /// judged against the cached `feed_count`.
    pub open spec fn spec_can_add_feed(self, now: i64) -> bool {
        self.spec_is_valid(now) && (match self.tier.spec_feed_limit() {
            Some(limit) => self.feed_count < limit,
            None => true,
        })
    }

    /// Whether one more source may be added under this record at time `now`.
    pub fn can_add_feed(&self, now: i64) -> (r: bool)
        ensures
            r == self.spec_can_add_feed(now),
    {
        if !self.is_valid(now) {
            return false;
        }
        match self.tier.feed_limit_number() {
            Some(limit) => self.feed_count < limit,
            None => true,
        }
    }

    /// A fresh free-tier record for `guild_id`, created lazily at time `now`.
    pub fn new_free(guild_id: u64, now: i64) -> (r: Self)
        ensures
            r.guild_id == guild_id,
            r.tier == SubscriptionTier::Free,
            r.stripe_customer_id is None,
            r.stripe_subscription_id is None,
            r.created_at == now,
            r.expires_at is None,
            r.last_payment_at is None,
            r.is_active == true,
            r.feed_count == 0,
    {
        GuildSubscription {
            guild_id,
            tier: SubscriptionTier::Free,
            stripe_customer_id: None,
            stripe_subscription_id: None,
            created_at: now,
            expires_at: None,
            last_payment_at: None,
            is_active: true,
            feed_count: 0,
        }
    }
}

/// One recorded payment.
#[derive(Debug)]
pub struct PaymentHistory {
    pub id: String,
    pub guild_id: u64,
    pub stripe_payment_intent_id: String,
    pub amount_cents: u64,
    pub currency: String,
    pub tier: SubscriptionTier,
    pub status: PaymentStatus,
    pub created_at: i64,
    pub processed_at: Option<i64>,
}

/// Process-wide configuration.
#[derive(Debug)]
pub struct BotConfig {
    /// Seconds between scheduler sweeps.
    pub check_interval_secs: u64,
    pub max_concurrent_feeds: usize,
    pub user_agent: String,
    pub database_url: Option<String>,
}

impl Default for BotConfig {
    fn default() -> (r: Self)
        ensures
            r.check_interval_secs == 1800u64,
            r.max_concurrent_feeds == 10usize,
            r.database_url is None,
    {
        BotConfig {
            check_interval_secs: 1800,
            max_concurrent_feeds: 10,
            user_agent: "epistulus-feed-bot/0.1.0".to_owned(),
            database_url: None,
        }
    }
}

/// Clones a vector of strings, keeping every element's value.
pub fn clone_strings(v: &Vec<String>) -> (r: Vec<String>)
    ensures
        r@ == v@,
{
    let mut r: Vec<String> = Vec::new();
    let mut i: usize = 0;
    while i < v.len()
        invariant
            i <= v.len(),
            r@ == v@.subrange(0, i as int),
        decreases v.len() - i,
    {
        r.push(v[i].clone());
        assert(r@ =~= v@.subrange(0, i + 1));
        i = i + 1;
    }
    assert(r@ =~= v@);
    r
}

/// Clones an optional string, keeping its value.
pub fn clone_opt_string(v: &Option<String>) -> (r: Option<String>)
    ensures
        r == *v,
{
    match v {
        Some(s) => Some(s.clone()),
        None => None,
    }
}

} // verus!
