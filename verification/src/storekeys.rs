//! Composite document keys for the durable store. A source's document key is
//! "{tenant}:{feed id}", with the literal prefix "global" standing in where
//! no tenant scope exists. The I/O against the store itself lives outside
//! the library; only the key codec is logic.

use vstd::prelude::*;

use crate::text::{
    all_dec_digits, dec_of, dec_val, find_char, is_dec_digit, lemma_dec_of_val, parse_u64, str_eq,
    u64_to_dec,
};

verus! {

/// The characters of the scope-less key prefix.
pub open spec fn global_chars() -> Seq<char> {
    seq!['g', 'l', 'o', 'b', 'a', 'l']
}

/// The key under which a source of tenant `guild_id` with id `feed_id` is stored.
pub open spec fn spec_feed_key(guild_id: Option<u64>, feed_id: Seq<char>) -> Seq<char> {
    match guild_id {
        Some(g) => dec_of(g as nat) + seq![':'] + feed_id,
        None => global_chars() + seq![':'] + feed_id,
    }
}

/// The index of the first occurrence of `c` in `s`, or -1 if there is none.
pub open spec fn first_index_of(s: Seq<char>, c: char) -> int
    decreases s.len(),
{
    if s.len() == 0 {
        -1
    } else if s.first() == c {
        0
    } else {
        let r = first_index_of(s.drop_first(), c);
        if r == -1 {
            -1
        } else {
            r + 1
        }
    }
}

/// `first_index_of` finds exactly the least occurrence.
pub proof fn lemma_first_index_of(s: Seq<char>, c: char, i: int)
    requires
        0 <= i < s.len(),
        s[i] == c,
        forall|j: int| 0 <= j < i ==> s[j] != c,
    ensures
        first_index_of(s, c) == i,
    decreases s.len(),
{
    if i > 0 {
        lemma_first_index_of(s.drop_first(), c, i - 1);
    }
}

/// Where `c` does not occur, `first_index_of` is -1.
pub proof fn lemma_first_index_of_none(s: Seq<char>, c: char)
    requires
        forall|j: int| 0 <= j < s.len() ==> s[j] != c,
    ensures
        first_index_of(s, c) == -1,
    decreases s.len(),
{
    if s.len() > 0 {
        lemma_first_index_of_none(s.drop_first(), c);
    }
}

/// What a key reads back to: tenant scope and feed id. A key without a
/// separator, or with an unreadable prefix, is taken whole as a feed id
/// without a scope.
pub open spec fn spec_parse_feed_key(key: Seq<char>) -> (Option<u64>, Seq<char>) {
    let i = first_index_of(key, ':');
    if i == -1 {
        (None, key)
    } else {
        let prefix = key.subrange(0, i);
        let rest = key.subrange(i + 1, key.len() as int);
        if prefix == global_chars() {
            (None, rest)
        } else if prefix.len() > 0 && all_dec_digits(prefix) && dec_val(prefix) <= u64::MAX {
            (Some(dec_val(prefix) as u64), rest)
        } else {
            (None, key)
        }
    }
}

/// The key codec of the durable store.
pub struct FirestoreService {}

impl FirestoreService {
    /// A fresh codec.
    pub fn new() -> FirestoreService {
        FirestoreService {  }
    }

    /// Renders the document key for a source of `guild_id` with id `feed_id`.
    pub fn create_feed_key(&self, guild_id: Option<u64>, feed_id: &str) -> (r: String)
        ensures
            r@ == spec_feed_key(guild_id, feed_id@),
    {
        let mut key = match guild_id {
            Some(g) => u64_to_dec(g),
            None => {
                proof {
                    reveal_strlit("global");
                }
                let s = "global".to_owned();
                proof {
                    assert(s@ =~= global_chars());
                }
                s
            },
        };
        key.append(":");
        key.append(feed_id);
        proof {
            reveal_strlit(":");
            assert(key@ =~= spec_feed_key(guild_id, feed_id@));
        }
        key
    }

    /// Splits a document key back into tenant scope and feed id.
    pub fn parse_feed_key(&self, key: &str) -> (r: (Option<u64>, String))
        ensures
            r.0 == spec_parse_feed_key(key@).0,
            r.1@ == spec_parse_feed_key(key@).1,
    {
        let len = key.unicode_len();
        match find_char(key, ':') {
            None => {
                proof {
                    lemma_first_index_of_none(key@, ':');
                }
                (None, key.to_owned())
            },
            Some(i) => {
                proof {
                    lemma_first_index_of(key@, ':', i as int);
                }
                let prefix = key.substring_char(0, i);
                let rest = key.substring_char(i + 1, len);
                proof {
                    reveal_strlit("global");
                }
                if str_eq(prefix, "global") {
                    proof {
                        assert("global"@ =~= global_chars());
                        assert(prefix@ =~= global_chars());
                    }
                    (None, rest.to_owned())
                } else {
                    proof {
                        assert("global"@ =~= global_chars());
                        assert(prefix@ != global_chars());
                    }
                    match parse_u64(prefix) {
                        Some(g) => (Some(g), rest.to_owned()),
                        None => (None, key.to_owned()),
                    }
                }
            },
        }
    }
}

/// Parsing a rendered key gives back the scope and the feed id, for every
/// scope and every feed id.
pub proof fn lemma_feed_key_roundtrip(guild_id: Option<u64>, feed_id: Seq<char>)
    ensures
        spec_parse_feed_key(spec_feed_key(guild_id, feed_id)) == (guild_id, feed_id),
{
    let key = spec_feed_key(guild_id, feed_id);
    match guild_id {
        Some(g) => {
            lemma_dec_of_val(g as nat);
            let p = dec_of(g as nat);
            assert(key[p.len() as int] == ':');
            assert(forall|j: int| 0 <= j < p.len() ==> key[j] == p[j] && #[trigger] is_dec_digit(
                key[j],
            ));
            assert(forall|j: int| 0 <= j < p.len() ==> key[j] != ':');
            lemma_first_index_of(key, ':', p.len() as int);
            assert(key.subrange(0, p.len() as int) =~= p);
            assert(key.subrange(p.len() as int + 1, key.len() as int) =~= feed_id);
            assert(p != global_chars()) by {
                assert(is_dec_digit(p[0]));
            }
        },
        None => {
            let p = global_chars();
            assert(key[p.len() as int] == ':');
            assert(forall|j: int| 0 <= j < p.len() ==> key[j] == p[j]);
            assert(forall|j: int| 0 <= j < p.len() ==> key[j] != ':');
            lemma_first_index_of(key, ':', p.len() as int);
            assert(key.subrange(0, p.len() as int) =~= p);
            assert(key.subrange(p.len() as int + 1, key.len() as int) =~= feed_id);
        },
    }
}

} // verus!
