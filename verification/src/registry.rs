//! The source registry: the set of configured feed sources, partitioned by
//! tenant scope, with the tier-quota gate enforced at registration time.
//! Identity of an entry is the pair (tenant scope, source id); the same URL
//! may be registered independently per tenant. Registration of an id a tenant
//! already holds overwrites that entry.

use vstd::prelude::*;
use vstd::seq_lib::*;

use crate::models::{FeedSource, FeedSourceV, FeedType, GuildSubscription};
use crate::storekeys::first_index_of;
use crate::text::{find_char, push_char, starts_with, str_eq};

verus! {

/// Why a registry operation was refused.
#[derive(Clone, Copy, Debug, PartialEq, Eq, Structural)]
pub enum RegistryError {
    /// The URL does not start with a recognized scheme.
    InvalidUrl,
    /// The tenant's tier does not admit another source.
    QuotaExceeded,
    /// No source with that id exists in the tenant's scope.
    NotFound,
}

/// Whether entry `s` sits at key (`guild_id`, `id`).
pub open spec fn src_key_matches(s: FeedSourceV, guild_id: Option<u64>, id: Seq<char>) -> bool {
    s.guild_id == guild_id && s.id == id
}

/// The index of the first entry at key (`guild_id`, `id`), or -1.
pub open spec fn index_of_key(e: Seq<FeedSourceV>, guild_id: Option<u64>, id: Seq<char>) -> int
    decreases e.len(),
{
    if e.len() == 0 {
        -1
    } else if src_key_matches(e.first(), guild_id, id) {
        0
    } else {
        let r = index_of_key(e.drop_first(), guild_id, id);
        if r == -1 {
            -1
        } else {
            r + 1
        }
    }
}

/// `index_of_key` finds exactly the least entry at the key.
pub proof fn lemma_index_of_key_at(
    e: Seq<FeedSourceV>,
    guild_id: Option<u64>,
    id: Seq<char>,
    i: int,
)
    requires
        0 <= i < e.len(),
        src_key_matches(e[i], guild_id, id),
        forall|j: int| 0 <= j < i ==> !src_key_matches(e[j], guild_id, id),
    ensures
        index_of_key(e, guild_id, id) == i,
    decreases e.len(),
{
    if i > 0 {
        lemma_index_of_key_at(e.drop_first(), guild_id, id, i - 1);
    }
}

/// Where no entry sits at the key, `index_of_key` is -1.
pub proof fn lemma_index_of_key_none(e: Seq<FeedSourceV>, guild_id: Option<u64>, id: Seq<char>)
    requires
        forall|j: int| 0 <= j < e.len() ==> !src_key_matches(#[trigger] e[j], guild_id, id),
    ensures
        index_of_key(e, guild_id, id) == -1,
    decreases e.len(),
{
    if e.len() > 0 {
        lemma_index_of_key_none(e.drop_first(), guild_id, id);
    }
}

/// What `index_of_key` returns is an entry at the key, and nothing before it is.
pub proof fn lemma_index_of_key_props(e: Seq<FeedSourceV>, guild_id: Option<u64>, id: Seq<char>)
    ensures
        index_of_key(e, guild_id, id) == -1 || (0 <= index_of_key(e, guild_id, id) < e.len()
            && src_key_matches(e[index_of_key(e, guild_id, id)], guild_id, id)),
        index_of_key(e, guild_id, id) == -1 ==> forall|j: int|
            0 <= j < e.len() ==> !src_key_matches(#[trigger] e[j], guild_id, id),
    decreases e.len(),
{
    if e.len() > 0 {
        lemma_index_of_key_props(e.drop_first(), guild_id, id);
        let idx = index_of_key(e, guild_id, id);
        if idx == -1 {
            assert forall|j: int| 0 <= j < e.len() implies !src_key_matches(
                #[trigger] e[j],
                guild_id,
                id,
            ) by {
                if j == 0 {
                    assert(e[0] == e.first());
                } else {
                    assert(e[j] == e.drop_first()[j - 1]);
                }
            }
        } else if idx > 0 {
            assert(e[idx] == e.drop_first()[idx - 1]);
        }
    }
}

/// 1 where the entry counts toward `guild_id`'s enabled sources, else 0.
pub open spec fn enabled_contrib(s: FeedSourceV, guild_id: Option<u64>) -> nat {
    if s.guild_id == guild_id && s.enabled {
        1nat
    } else {
        0nat
    }
}

/// How many entries of `e` are enabled sources of tenant `guild_id`.
pub open spec fn count_enabled(e: Seq<FeedSourceV>, guild_id: Option<u64>) -> nat
    decreases e.len(),
{
    if e.len() == 0 {
        0nat
    } else {
        count_enabled(e.drop_last(), guild_id) + enabled_contrib(e.last(), guild_id)
    }
}

/// Appending one entry adds exactly its own contribution, for every tenant.
pub proof fn lemma_count_enabled_push(e: Seq<FeedSourceV>, s: FeedSourceV)
    ensures
        forall|t: Option<u64>|
            count_enabled(#[trigger] e.push(s), t) == count_enabled(e, t) + enabled_contrib(s, t),
{
    assert forall|t: Option<u64>|
        count_enabled(#[trigger] e.push(s), t) == count_enabled(e, t) + enabled_contrib(
        s,
        t,
    ) by {
        assert(e.push(s).drop_last() =~= e);
        assert(e.push(s).last() == s);
    }
}

/// Replacing one entry swaps its contribution for the new one's, for every tenant.
pub proof fn lemma_count_enabled_update(e: Seq<FeedSourceV>, i: int, s: FeedSourceV)
    requires
        0 <= i < e.len(),
    ensures
        forall|t: Option<u64>|
            count_enabled(#[trigger] e.update(i, s), t) + enabled_contrib(e[i], t) == count_enabled(
                e,
                t,
            ) + enabled_contrib(s, t),
    decreases e.len(),
{
    assert forall|t: Option<u64>|
        count_enabled(#[trigger] e.update(i, s), t) + enabled_contrib(e[i], t) == count_enabled(
        e,
        t,
    ) + enabled_contrib(s, t) by {
        lemma_count_enabled_update_one(e, i, s, t);
    }
}

proof fn lemma_count_enabled_update_one(e: Seq<FeedSourceV>, i: int, s: FeedSourceV, t: Option<
    u64,
>)
    requires
        0 <= i < e.len(),
    ensures
        count_enabled(e.update(i, s), t) + enabled_contrib(e[i], t) == count_enabled(e, t)
            + enabled_contrib(s, t),
    decreases e.len(),
{
    let u = e.update(i, s);
    if i == e.len() - 1 {
        assert(u.drop_last() =~= e.drop_last());
        assert(u.last() == s);
    } else {
        assert(u.drop_last() =~= e.drop_last().update(i, s));
        assert(u.last() == e.last());
        lemma_count_enabled_update_one(e.drop_last(), i, s, t);
    }
}

/// Removing one entry subtracts exactly its contribution, for every tenant.
pub proof fn lemma_count_enabled_remove(e: Seq<FeedSourceV>, i: int)
    requires
        0 <= i < e.len(),
    ensures
        forall|t: Option<u64>|
            count_enabled(#[trigger] e.remove(i), t) + enabled_contrib(e[i], t) == count_enabled(
                e,
                t,
            ),
{
    assert forall|t: Option<u64>|
        count_enabled(#[trigger] e.remove(i), t) + enabled_contrib(e[i], t) == count_enabled(
        e,
        t,
    ) by {
        lemma_count_enabled_remove_one(e, i, t);
    }
}

proof fn lemma_count_enabled_remove_one(e: Seq<FeedSourceV>, i: int, t: Option<u64>)
    requires
        0 <= i < e.len(),
    ensures
        count_enabled(e.remove(i), t) + enabled_contrib(e[i], t) == count_enabled(e, t),
    decreases e.len(),
{
    let u = e.remove(i);
    if i == e.len() - 1 {
        assert(u =~= e.drop_last());
    } else {
        assert(u.drop_last() =~= e.drop_last().remove(i));
        assert(u.last() == e.last());
        lemma_count_enabled_remove_one(e.drop_last(), i, t);
    }
}

/// The tier gate: whether the record admits one more source at time `now`,
/// judged against the tenant's current enabled-source count. A side-effect-free
/// read: nothing is mutated by asking.
pub open spec fn spec_admit(record: GuildSubscription, enabled_count: nat, now: i64) -> bool {
    record.spec_is_valid(now) && (match record.tier.spec_feed_limit() {
        Some(limit) => enabled_count < limit,
        None => true,
    })
}

/// Whether `record` admits one more source when the tenant already holds
/// `enabled_count` enabled sources at time `now`.
pub fn tier_gate_admit(record: &GuildSubscription, enabled_count: usize, now: i64) -> (r: bool)
    ensures
        r == spec_admit(*record, enabled_count as nat, now),
{
    if !record.is_valid(now) {
        return false;
    }
    match record.tier.feed_limit_number() {
        Some(limit) => enabled_count < limit,
        None => true,
    }
}

/// The scheme prefix "http://".
pub open spec fn http_prefix() -> Seq<char> {
    seq!['h', 't', 't', 'p', ':', '/', '/']
}

/// The scheme prefix "https://".
pub open spec fn https_prefix() -> Seq<char> {
    seq!['h', 't', 't', 'p', 's', ':', '/', '/']
}

/// A URL is accepted when it starts with a recognized scheme.
pub open spec fn spec_valid_url(u: Seq<char>) -> bool {
    (u.len() >= 7 && u.subrange(0, 7) == http_prefix()) || (u.len() >= 8 && u.subrange(0, 8)
        == https_prefix())
}

/// Whether `url` starts with a recognized scheme.
pub fn valid_url(url: &str) -> (r: bool)
    ensures
        r == spec_valid_url(url@),
{
    proof {
        reveal_strlit("http://");
        reveal_strlit("https://");
        assert("http://"@ =~= http_prefix());
        assert("https://"@ =~= https_prefix());
    }
    starts_with(url, "http://") || starts_with(url, "https://")
}

/// The URL with its scheme prefix stripped.
pub open spec fn after_scheme(u: Seq<char>) -> Seq<char>
    recommends
        spec_valid_url(u),
{
    if u.len() >= 8 && u.subrange(0, 8) == https_prefix() {
        u.subrange(8, u.len() as int)
    } else {
        u.subrange(7, u.len() as int)
    }
}

/// The network location: what stands before the first '/' after the scheme.
pub open spec fn host_of(u: Seq<char>) -> Seq<char> {
    let a = after_scheme(u);
    let i = first_index_of(a, '/');
    if i == -1 {
        a
    } else {
        a.subrange(0, i)
    }
}

/// The source id derived from a URL: its host with '.' replaced by '_'.
pub open spec fn spec_derive_feed_id(u: Seq<char>) -> Seq<char> {
    host_of(u).map_values(|c: char| if c == '.' { '_' } else { c })
}

/// Derives the stable source id from a URL: the host part with dots
/// replaced by underscores, so the id is deterministic for the endpoint.
pub fn derive_feed_id(url: &str) -> (r: String)
    requires
        spec_valid_url(url@),
    ensures
        r@ == spec_derive_feed_id(url@),
{
    proof {
        reveal_strlit("http://");
        reveal_strlit("https://");
        assert("http://"@ =~= http_prefix());
        assert("https://"@ =~= https_prefix());
    }
    let len = url.unicode_len();
    let rest = if starts_with(url, "https://") {
        url.substring_char(8, len)
    } else {
        url.substring_char(7, len)
    };
    proof {
        assert(rest@ == after_scheme(url@));
    }
    let host = match find_char(rest, '/') {
        Some(i) => {
            proof {
                crate::storekeys::lemma_first_index_of(rest@, '/', i as int);
            }
            rest.substring_char(0, i)
        },
        None => {
            proof {
                crate::storekeys::lemma_first_index_of_none(rest@, '/');
            }
            rest
        },
    };
    proof {
        assert(host@ == host_of(url@));
    }
    let hlen = host.unicode_len();
    let mut id = String::new();
    let mut i: usize = 0;
    while i < hlen
        invariant
            hlen == host@.len(),
            0 <= i <= hlen,
            id@ == host@.subrange(0, i as int).map_values(
                |c: char| if c == '.' {
                    '_'
                } else {
                    c
                },
            ),
        decreases hlen - i,
    {
        let c = host.get_char(i);
        let mapped = if c == '.' {
            '_'
        } else {
            c
        };
        push_char(&mut id, mapped);
        proof {
            assert(id@ =~= host@.subrange(0, i + 1).map_values(
                |c: char| if c == '.' {
                    '_'
                } else {
                    c
                },
            ));
        }
        i = i + 1;
    }
    proof {
        assert(host@.subrange(0, hlen as int) =~= host@);
    }
    id
}

/// The predicate "owned by tenant `guild_id`".
pub open spec fn owned_by(guild_id: Option<u64>) -> spec_fn(FeedSourceV) -> bool {
    |s: FeedSourceV| s.guild_id == guild_id
}

/// Whether two tenant scopes are the same.
pub fn scope_eq(a: Option<u64>, b: Option<u64>) -> (r: bool)
    ensures
        r == (a == b),
{
    match (a, b) {
        (None, None) => true,
        (Some(x), Some(y)) => x == y,
        _ => false,
    }
}

/// The registry of configured sources, all tenants together.
#[derive(Debug)]
pub struct SourceRegistry {
    pub sources: Vec<FeedSource>,
}

impl SourceRegistry {
    /// The registry's mathematical contents, in insertion order.
    pub open spec fn model(&self) -> Seq<FeedSourceV> {
        Seq::new(self.sources@.len(), |i: int| self.sources@[i]@)
    }

    /// Well-formed: no two entries share a (tenant scope, source id) key.
    pub open spec fn wf(&self) -> bool {
        forall|i: int, j: int|
            0 <= i < j < self.model().len() ==> !src_key_matches(
                #[trigger] self.model()[j],
                #[trigger] self.model()[i].guild_id,
                self.model()[i].id,
            )
    }

    /// An empty registry.
    pub fn new() -> (r: SourceRegistry)
        ensures
            r.model() == Seq::<FeedSourceV>::empty(),
            r.wf(),
    {
        let r = SourceRegistry { sources: Vec::new() };
        proof {
            assert(r.model() =~= Seq::<FeedSourceV>::empty());
        }
        r
    }

    /// The position of the entry at (`guild_id`, `id`), if any.
    fn find_index(&self, guild_id: Option<u64>, id: &str) -> (r: Option<usize>)
        ensures
            r matches Some(i) ==> i < self.model().len() && index_of_key(
                self.model(),
                guild_id,
                id@,
            ) == i as int,
            r is None ==> index_of_key(self.model(), guild_id, id@) == -1,
    {
        let n = self.sources.len();
        let mut i: usize = 0;
        while i < n
            invariant
                n == self.sources@.len(),
                0 <= i <= n,
                forall|j: int|
                    0 <= j < i ==> !src_key_matches(#[trigger] self.model()[j], guild_id, id@),
            decreases n - i,
        {
            let entry = &self.sources[i];
            if scope_eq(entry.guild_id, guild_id) && str_eq(entry.id.as_str(), id) {
                proof {
                    lemma_index_of_key_at(self.model(), guild_id, id@, i as int);
                }
                return Some(i);
            }
            i = i + 1;
        }
        proof {
            lemma_index_of_key_none(self.model(), guild_id, id@);
        }
        None
    }

    /// Counts the enabled sources owned by tenant `guild_id`.
    pub fn count_enabled_for(&self, guild_id: Option<u64>) -> (r: usize)
        ensures
            r as nat == count_enabled(self.model(), guild_id),
    {
        let n = self.sources.len();
        let mut acc: usize = 0;
        let mut i: usize = 0;
        proof {
            assert(self.model().subrange(0, 0) =~= Seq::<FeedSourceV>::empty());
        }
        while i < n
            invariant
                n == self.sources@.len(),
                0 <= i <= n,
                acc as nat == count_enabled(self.model().subrange(0, i as int), guild_id),
                acc <= i,
            decreases n - i,
        {
            let entry = &self.sources[i];
            proof {
                assert(self.model().subrange(0, i + 1).drop_last() =~= self.model().subrange(
                    0,
                    i as int,
                ));
                assert(self.model().subrange(0, i + 1).last() == self.model()[i as int]);
            }
            if entry.enabled && scope_eq(entry.guild_id, guild_id) {
                acc = acc + 1;
            }
            i = i + 1;
        }
        proof {
            assert(self.model().subrange(0, n as int) =~= self.model());
        }
        acc
    }

    /// Registers (or overwrites) a source for tenant `guild_id`. The URL must
    /// carry a recognized scheme; the tier gate must admit the tenant, judged
    /// against the billing record and the tenant's current enabled count.
    /// On refusal nothing changes. With a finite tier limit, the tenant's
    /// enabled count never ends above that limit, and no other tenant's
    /// count moves.
    pub fn register(
        &mut self,
        guild_id: Option<u64>,
        name: String,
        url: String,
        billing: &GuildSubscription,
        now: i64,
    ) -> (r: Result<FeedSource, RegistryError>)
        requires
            old(self).wf(),
        ensures
            final(self).wf(),
            r == Err::<FeedSource, RegistryError>(RegistryError::InvalidUrl) <==> !spec_valid_url(
                url@,
            ),
            spec_valid_url(url@) ==> (r == Err::<FeedSource, RegistryError>(
                RegistryError::QuotaExceeded,
            ) <==> !spec_admit(*billing, count_enabled(old(self).model(), guild_id), now)),
            r is Ok <==> (spec_valid_url(url@) && spec_admit(
                *billing,
                count_enabled(old(self).model(), guild_id),
                now,
            )),
            r is Err ==> final(self).model() == old(self).model(),
            r matches Ok(src) ==> src@.id == spec_derive_feed_id(url@) && src@.name == name@
                && src@.url == url@ && src@.feed_type == FeedType::Rss && src@.last_updated is None
                && src@.enabled && src@.tags == Seq::<Seq<char>>::empty() && src@.guild_id
                == guild_id,
            r matches Ok(src) ==> ({
                let i = index_of_key(old(self).model(), guild_id, src@.id);
                if i == -1 {
                    final(self).model() == old(self).model().push(src@)
                } else {
                    final(self).model() == old(self).model().update(i, src@)
                }
            }),
            r is Ok ==> count_enabled(final(self).model(), guild_id) <= count_enabled(
                old(self).model(),
                guild_id,
            ) + 1,
            r is Ok ==> (match billing.tier.spec_feed_limit() {
                Some(limit) => count_enabled(final(self).model(), guild_id) <= limit,
                None => true,
            }),
            forall|t: Option<u64>|
                t != guild_id ==> count_enabled(final(self).model(), t) == count_enabled(
                    old(self).model(),
                    t,
                ),
    {
        if !valid_url(url.as_str()) {
            return Err(RegistryError::InvalidUrl);
        }
        let current = self.count_enabled_for(guild_id);
        if !tier_gate_admit(billing, current, now) {
            return Err(RegistryError::QuotaExceeded);
        }
        let id = derive_feed_id(url.as_str());
        let source = FeedSource {
            id,
            name,
            url,
            feed_type: FeedType::Rss,
            last_updated: None,
            enabled: true,
            tags: Vec::new(),
            guild_id,
        };
        let returned = source.clone();
        let ghost old_model = self.model();
        match self.find_index(guild_id, source.id.as_str()) {
            Some(i) => {
                proof {
                    lemma_index_of_key_props(old_model, guild_id, source@.id);
                    lemma_count_enabled_update(old_model, i as int, source@);
                }
                self.sources[i] = source;
                proof {
                    assert(self.model() =~= old_model.update(i as int, returned@));
                    assert(old_model[i as int].guild_id == guild_id);
                }
            },
            None => {
                proof {
                    lemma_index_of_key_props(old_model, guild_id, source@.id);
                    lemma_count_enabled_push(old_model, source@);
                }
                self.sources.push(source);
                proof {
                    assert(self.model() =~= old_model.push(returned@));
                }
            },
        }
        Ok(returned)
    }

    /// Looks a source up by tenant scope and id.
    pub fn get(&self, guild_id: Option<u64>, id: &str) -> (r: Option<&FeedSource>)
        ensures
            r matches Some(s) ==> ({
                let i = index_of_key(self.model(), guild_id, id@);
                0 <= i < self.model().len() && s@ == self.model()[i] && src_key_matches(
                    s@,
                    guild_id,
                    id@,
                )
            }),
            r is None <==> index_of_key(self.model(), guild_id, id@) == -1,
    {
        proof {
            lemma_index_of_key_props(self.model(), guild_id, id@);
        }
        match self.find_index(guild_id, id) {
            Some(i) => Some(&self.sources[i]),
            None => None,
        }
    }

    /// Removes the source at (`guild_id`, `id`), returning it, or reports
    /// that no such source exists. Nothing else moves.
    pub fn remove(&mut self, guild_id: Option<u64>, id: &str) -> (r: Result<
        FeedSource,
        RegistryError,
    >)
        requires
            old(self).wf(),
        ensures
            final(self).wf(),
            r == Err::<FeedSource, RegistryError>(RegistryError::NotFound) <==> index_of_key(
                old(self).model(),
                guild_id,
                id@,
            ) == -1,
            r is Ok <==> index_of_key(old(self).model(), guild_id, id@) != -1,
            r is Err ==> final(self).model() == old(self).model(),
            r matches Ok(s) ==> ({
                let i = index_of_key(old(self).model(), guild_id, id@);
                &&& 0 <= i < old(self).model().len()
                &&& s@ == old(self).model()[i]
                &&& final(self).model() == old(self).model().remove(i)
            }),
    {
        let ghost old_model = self.model();
        match self.find_index(guild_id, id) {
            Some(i) => {
                proof {
                    lemma_index_of_key_props(old_model, guild_id, id@);
                }
                let removed = self.sources.remove(i);
                proof {
                    assert(self.model() =~= old_model.remove(i as int));
                    assert forall|a: int, b: int|
                        0 <= a < b < self.model().len() implies !src_key_matches(
                        self.model()[b],
                        self.model()[a].guild_id,
                        self.model()[a].id,
                    ) by {
                        let oa = if a < i as int {
                            a
                        } else {
                            a + 1
                        };
                        let ob = if b < i as int {
                            b
                        } else {
                            b + 1
                        };
                        assert(self.model()[a] == old_model[oa]);
                        assert(self.model()[b] == old_model[ob]);
                    }
                }
                Ok(removed)
            },
            None => Err(RegistryError::NotFound),
        }
    }

    /// The tenant's own sources, in registry order. Never exposes another
    /// tenant's entries.
    pub fn list(&self, guild_id: Option<u64>) -> (r: Vec<FeedSource>)
        ensures
            Seq::new(r@.len(), |i: int| r@[i]@) == self.model().filter(owned_by(guild_id)),
    {
        let n = self.sources.len();
        let mut out: Vec<FeedSource> = Vec::new();
        let mut i: usize = 0;
        proof {
            assert(self.model().subrange(0, 0) =~= Seq::<FeedSourceV>::empty());
            assert(Seq::new(out@.len(), |k: int| out@[k]@) =~= Seq::<FeedSourceV>::empty());
            reveal_with_fuel(Seq::<_>::filter, 2);
            assert(Seq::<FeedSourceV>::empty().filter(owned_by(guild_id)) =~= Seq::<
                FeedSourceV,
            >::empty());
        }
        while i < n
            invariant
                n == self.sources@.len(),
                0 <= i <= n,
                Seq::new(out@.len(), |k: int| out@[k]@) == self.model().subrange(
                    0,
                    i as int,
                ).filter(owned_by(guild_id)),
            decreases n - i,
        {
            let ghost prefix = self.model().subrange(0, i as int);
            let ghost cur = self.model()[i as int];
            proof {
                assert(self.model().subrange(0, i + 1) =~= prefix + seq![cur]);
                seq_lib_filter_add::<FeedSourceV>(prefix, seq![cur], owned_by(guild_id));
                assert(seq![cur].drop_last() =~= Seq::<FeedSourceV>::empty());
            }
            let entry = &self.sources[i];
            let ghost mapped_before = Seq::new(out@.len(), |k: int| out@[k]@);
            if scope_eq(entry.guild_id, guild_id) {
                out.push(entry.clone());
                proof {
                    reveal_with_fuel(Seq::<_>::filter, 2);
                    assert(owned_by(guild_id)(cur));
                    assert(seq![cur].filter(owned_by(guild_id)) =~= seq![cur]);
                    assert(Seq::new(out@.len(), |k: int| out@[k]@) =~= mapped_before.push(cur));
                }
            } else {
                proof {
                    reveal_with_fuel(Seq::<_>::filter, 2);
                    assert(!owned_by(guild_id)(cur));
                    assert(seq![cur].filter(owned_by(guild_id)) =~= Seq::<FeedSourceV>::empty());
                }
            }
            proof {
                assert(Seq::new(out@.len(), |k: int| out@[k]@) =~= self.model().subrange(
                    0,
                    i + 1,
                ).filter(owned_by(guild_id)));
            }
            i = i + 1;
        }
        proof {
            assert(self.model().subrange(0, n as int) =~= self.model());
        }
        out
    }

    /// Advances the watermark of the source at (`guild_id`, `id`) to `ts`.
    /// Returns whether the source was found; nothing else changes.
    pub fn update_watermark(&mut self, guild_id: Option<u64>, id: &str, ts: i64) -> (r: bool)
        requires
            old(self).wf(),
        ensures
            final(self).wf(),
            r <==> index_of_key(old(self).model(), guild_id, id@) != -1,
            !r ==> final(self).model() == old(self).model(),
            r ==> ({
                let i = index_of_key(old(self).model(), guild_id, id@);
                final(self).model() == old(self).model().update(
                    i,
                    FeedSourceV { last_updated: Some(ts), ..old(self).model()[i] },
                )
            }),
    {
        let ghost old_model = self.model();
        match self.find_index(guild_id, id) {
            Some(i) => {
                proof {
                    lemma_index_of_key_props(old_model, guild_id, id@);
                }
                let mut entry = self.sources[i].clone();
                entry.last_updated = Some(ts);
                self.sources[i] = entry;
                proof {
                    assert(self.model() =~= old_model.update(
                        i as int,
                        FeedSourceV { last_updated: Some(ts), ..old_model[i as int] },
                    ));
                    assert forall|a: int, b: int|
                        0 <= a < b < self.model().len() implies !src_key_matches(
                        self.model()[b],
                        self.model()[a].guild_id,
                        self.model()[a].id,
                    ) by {
                        assert(self.model()[a].guild_id == old_model[a].guild_id);
                        assert(self.model()[a].id == old_model[a].id);
                        assert(self.model()[b].guild_id == old_model[b].guild_id);
                        assert(self.model()[b].id == old_model[b].id);
                    }
                }
                true
            },
            None => false,
        }
    }

    /// Puts back what stood at (`guild_id`, `id`) before a registration, for
    /// the caller that must roll a failed durable write back: the fresh entry
    /// leaves, and the previous one (if any) returns to its place.
    pub fn revert_registration(
        &mut self,
        guild_id: Option<u64>,
        id: &str,
        previous: Option<FeedSource>,
    )
        requires
            old(self).wf(),
            previous matches Some(p) ==> src_key_matches(p@, guild_id, id@),
        ensures
            final(self).wf(),
            ({
                let i = index_of_key(old(self).model(), guild_id, id@);
                match previous {
                    Some(p) => {
                        if i == -1 {
                            final(self).model() == old(self).model().push(p@)
                        } else {
                            final(self).model() == old(self).model().update(i, p@)
                        }
                    },
                    None => {
                        if i == -1 {
                            final(self).model() == old(self).model()
                        } else {
                            final(self).model() == old(self).model().remove(i)
                        }
                    },
                }
            }),
    {
        let ghost old_model = self.model();
        match self.find_index(guild_id, id) {
            Some(i) => {
                proof {
                    lemma_index_of_key_props(old_model, guild_id, id@);
                }
                match previous {
                    Some(p) => {
                        let ghost pv = p@;
                        self.sources[i] = p;
                        proof {
                            assert(self.model() =~= old_model.update(i as int, pv));
                            assert forall|a: int, b: int|
                                0 <= a < b < self.model().len() implies !src_key_matches(
                                self.model()[b],
                                self.model()[a].guild_id,
                                self.model()[a].id,
                            ) by {
                                assert(self.model()[a].guild_id == old_model[a].guild_id);
                                assert(self.model()[a].id == old_model[a].id);
                                assert(self.model()[b].guild_id == old_model[b].guild_id);
                                assert(self.model()[b].id == old_model[b].id);
                            }
                        }
                    },
                    None => {
                        let _ = self.sources.remove(i);
                        proof {
                            assert(self.model() =~= old_model.remove(i as int));
                            assert forall|a: int, b: int|
                                0 <= a < b < self.model().len() implies !src_key_matches(
                                self.model()[b],
                                self.model()[a].guild_id,
                                self.model()[a].id,
                            ) by {
                                let oa = if a < i as int {
                                    a
                                } else {
                                    a + 1
                                };
                                let ob = if b < i as int {
                                    b
                                } else {
                                    b + 1
                                };
                                assert(self.model()[a] == old_model[oa]);
                                assert(self.model()[b] == old_model[ob]);
                            }
                        }
                    },
                }
            },
            None => {
                proof {
                    lemma_index_of_key_props(old_model, guild_id, id@);
                }
                match previous {
                    Some(p) => {
                        let ghost pv = p@;
                        self.sources.push(p);
                        proof {
                            assert(self.model() =~= old_model.push(pv));
                        }
                    },
                    None => {},
                }
            },
        }
    }
}

/// Filtering distributes over concatenation (vstd's lemma, re-exported here
/// under a callable name).
proof fn seq_lib_filter_add<A>(a: Seq<A>, b: Seq<A>, pred: spec_fn(A) -> bool)
    ensures
        (a + b).filter(pred) == a.filter(pred) + b.filter(pred),
{
    Seq::<A>::filter_distributes_over_add(a, b, pred);
}

} // verus!
