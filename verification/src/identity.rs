//! Stable item identity. An item's identity is a deterministic hash over
//! (source id, link, title): the same triple always yields the same id, so a
//! repeated poll recognizes an item it has already seen, while a title edit
//! under an unchanged link deliberately yields a new identity.

use vstd::prelude::*;

use crate::text::{hex_of_u64, u64_to_hex};

verus! {

/// FNV-1a offset basis.
pub const FNV_OFFSET: u64 = 0xcbf29ce484222325;

/// FNV-1a prime.
pub const FNV_PRIME: u64 = 0x100000001b3;

/// Separator folded between the three identity fields, so that
/// ("ab", "c") and ("a", "bc") hash differently.
pub const FIELD_SEP: char = '\u{1f}';

/// One FNV-1a step: fold one character into the running hash.
pub open spec fn fnv_step(h: u64, c: char) -> u64 {
    (h ^ (c as u64)).wrapping_mul(FNV_PRIME)
}

/// FNV-1a over a character string, starting from `h`.
pub open spec fn fnv_seq(s: Seq<char>, h: u64) -> u64
    decreases s.len(),
{
    if s.len() == 0 {
        h
    } else {
        fnv_seq(s.drop_first(), fnv_step(h, s.first()))
    }
}

/// Hashing a concatenation hashes the parts in order.
pub proof fn lemma_fnv_seq_append(a: Seq<char>, b: Seq<char>, h: u64)
    ensures
        fnv_seq(a + b, h) == fnv_seq(b, fnv_seq(a, h)),
    decreases a.len(),
{
    if a.len() == 0 {
        assert(a + b =~= b);
    } else {
        assert((a + b).drop_first() =~= a.drop_first() + b);
        assert((a + b).first() == a.first());
        lemma_fnv_seq_append(a.drop_first(), b, fnv_step(h, a.first()));
    }
}

/// Folding the separator extends the hashed string by one separator.
proof fn lemma_fnv_sep(pre: Seq<char>, h: u64)
    requires
        h == fnv_seq(pre, FNV_OFFSET),
    ensures
        fnv_step(h, FIELD_SEP) == fnv_seq(pre + seq![FIELD_SEP], FNV_OFFSET),
{
    let sep = seq![FIELD_SEP];
    lemma_fnv_seq_append(pre, sep, FNV_OFFSET);
    assert(sep.drop_first() =~= Seq::<char>::empty());
    assert(fnv_seq(sep, h) == fnv_seq(sep.drop_first(), fnv_step(h, sep.first())));
    assert(fnv_seq(sep.drop_first(), fnv_step(h, sep.first())) == fnv_step(h, FIELD_SEP));
}

/// The identity hash over the three fields, separators between them.
pub open spec fn identity_hash(source_id: Seq<char>, link: Seq<char>, title: Seq<char>) -> u64 {
    fnv_seq(source_id + seq![FIELD_SEP] + link + seq![FIELD_SEP] + title, FNV_OFFSET)
}

/// The full identity string: the source id, an underscore, and the hash in hex.
pub open spec fn post_identity(source_id: Seq<char>, link: Seq<char>, title: Seq<char>) -> Seq<
    char,
> {
    source_id + seq!['_'] + hex_of_u64(identity_hash(source_id, link, title) as nat)
}

/// Folds one string into the running hash.
fn fnv_str(s: &str, h: u64) -> (r: u64)
    ensures
        r == fnv_seq(s@, h),
{
    let len = s.unicode_len();
    let mut acc = h;
    let mut i: usize = 0;
    proof {
        assert(s@.subrange(0, len as int) =~= s@);
    }
    while i < len
        invariant
            len == s@.len(),
            0 <= i <= len,
            fnv_seq(s@, h) == fnv_seq(s@.subrange(i as int, len as int), acc),
        decreases len - i,
    {
        let c = s.get_char(i);
        proof {
            let rest = s@.subrange(i as int, len as int);
            assert(rest.first() == s@[i as int]);
            assert(rest.drop_first() =~= s@.subrange(i + 1, len as int));
        }
        acc = (acc ^ (c as u64)).wrapping_mul(FNV_PRIME);
        i = i + 1;
    }
    proof {
        assert(s@.subrange(len as int, len as int) =~= Seq::<char>::empty());
    }
    acc
}

/// Computes the stable identity for an item of `source_id` with the given
/// link and title. A pure function of its three arguments.
pub fn generate_post_id(source_id: &str, link: &str, title: &str) -> (r: String)
    ensures
        r@ == post_identity(source_id@, link@, title@),
{
    let ghost sep = seq![FIELD_SEP];
    let mut h = fnv_str(source_id, FNV_OFFSET);
    proof {
        lemma_fnv_sep(source_id@, h);
    }
    h = (h ^ (FIELD_SEP as u64)).wrapping_mul(FNV_PRIME);
    proof {
        assert(h == fnv_seq(source_id@ + sep, FNV_OFFSET));
        lemma_fnv_seq_append(source_id@ + sep, link@, FNV_OFFSET);
    }
    h = fnv_str(link, h);
    proof {
        assert(h == fnv_seq(source_id@ + sep + link@, FNV_OFFSET));
        lemma_fnv_sep(source_id@ + sep + link@, h);
    }
    h = (h ^ (FIELD_SEP as u64)).wrapping_mul(FNV_PRIME);
    proof {
        assert(h == fnv_seq(source_id@ + sep + link@ + sep, FNV_OFFSET));
        lemma_fnv_seq_append(source_id@ + sep + link@ + sep, title@, FNV_OFFSET);
    }
    h = fnv_str(title, h);
    proof {
        assert(h == identity_hash(source_id@, link@, title@));
    }
    let mut id = source_id.to_owned();
    id.append("_");
    let hex = u64_to_hex(h);
    id.append(hex.as_str());
    proof {
        reveal_strlit("_");
        assert(id@ =~= post_identity(source_id@, link@, title@));
    }
    id
}

/// The identity is a pure function: equal inputs give equal identities.
pub proof fn lemma_identity_deterministic(
    sa: Seq<char>,
    la: Seq<char>,
    ta: Seq<char>,
    sb: Seq<char>,
    lb: Seq<char>,
    tb: Seq<char>,
)
    requires
        sa == sb,
        la == lb,
        ta == tb,
    ensures
        post_identity(sa, la, ta) == post_identity(sb, lb, tb),
{
}

} // verus!
