//! Character-level text helpers: decimal and hex rendering, number parsing,
//! ASCII case folding and substring search. All of it is plain logic over
//! `Seq<char>` views; the one trusted item is the single-character push of
//! std's `String`.

use vstd::prelude::*;

verus! {

/// Relies on std's `String::push`: appends exactly the one character.
#[verifier::external_body]
pub fn push_char(s: &mut String, c: char)
    ensures
        final(s)@ == old(s)@.push(c),
{
    s.push(c);
}

/// The decimal digit character for `d`.
pub open spec fn dec_digit(d: nat) -> char
    recommends
        d < 10,
{
    if d == 0 {
        '0'
    } else if d == 1 {
        '1'
    } else if d == 2 {
        '2'
    } else if d == 3 {
        '3'
    } else if d == 4 {
        '4'
    } else if d == 5 {
        '5'
    } else if d == 6 {
        '6'
    } else if d == 7 {
        '7'
    } else if d == 8 {
        '8'
    } else {
        '9'
    }
}

/// The decimal rendering of `n`, most significant digit first, no leading zeros.
pub open spec fn dec_of(n: nat) -> Seq<char>
    decreases n,
{
    if n < 10 {
        seq![dec_digit(n)]
    } else {
        dec_of(n / 10).push(dec_digit(n % 10))
    }
}

/// Whether `c` is a decimal digit.
pub open spec fn is_dec_digit(c: char) -> bool {
    '0' <= c && c <= '9'
}

/// The numeric value of a decimal digit character.
pub open spec fn digit_val(c: char) -> nat
    recommends
        is_dec_digit(c),
{
    (c as u32 - '0' as u32) as nat
}

/// Whether every character of `s` is a decimal digit.
pub open spec fn all_dec_digits(s: Seq<char>) -> bool {
    forall|i: int| 0 <= i < s.len() ==> is_dec_digit(#[trigger] s[i])
}

/// The numeric value of a digit string, most significant digit first.
pub open spec fn dec_val(s: Seq<char>) -> nat
    decreases s.len(),
{
    if s.len() == 0 {
        0
    } else {
        10 * dec_val(s.drop_last()) + digit_val(s.last())
    }
}

/// A one-character string slice for the decimal digit `d`.
fn digit_str(d: u64) -> (r: &'static str)
    requires
        d < 10,
    ensures
        r@ == seq![dec_digit(d as nat)],
{
    proof {
        reveal_strlit("0");
        reveal_strlit("1");
        reveal_strlit("2");
        reveal_strlit("3");
        reveal_strlit("4");
        reveal_strlit("5");
        reveal_strlit("6");
        reveal_strlit("7");
        reveal_strlit("8");
        reveal_strlit("9");
    }
    let r = match d {
        0 => "0",
        1 => "1",
        2 => "2",
        3 => "3",
        4 => "4",
        5 => "5",
        6 => "6",
        7 => "7",
        8 => "8",
        _ => "9",
    };
    proof {
        assert(r@ =~= seq![dec_digit(d as nat)]);
    }
    r
}

/// Renders `n` in decimal.
pub fn u64_to_dec(n: u64) -> (r: String)
    ensures
        r@ == dec_of(n as nat),
    decreases n,
{
    if n < 10 {
        digit_str(n).to_owned()
    } else {
        let mut s = u64_to_dec(n / 10);
        s.append(digit_str(n % 10));
        proof {
            assert(s@ =~= dec_of((n / 10) as nat).push(dec_digit((n % 10) as nat)));
        }
        s
    }
}

/// Every decimal rendering is a nonempty all-digit string that reads back
/// to the number it came from.
pub proof fn lemma_dec_of_val(n: nat)
    ensures
        dec_of(n).len() >= 1,
        all_dec_digits(dec_of(n)),
        dec_val(dec_of(n)) == n,
    decreases n,
{
    if n < 10 {
        assert(dec_of(n) =~= seq![dec_digit(n)]);
        assert(dec_of(n).drop_last() =~= Seq::<char>::empty());
        lemma_digit_val_of_dec_digit(n);
        assert(dec_val(dec_of(n)) == 10 * dec_val(dec_of(n).drop_last()) + digit_val(
            dec_of(n).last(),
        ));
        assert(dec_val(dec_of(n).drop_last()) == 0);
        assert(dec_of(n).last() == dec_digit(n));
    } else {
        lemma_digit_val_of_dec_digit(n % 10);
        lemma_dec_of_val(n / 10);
        let s = dec_of(n);
        assert(s =~= dec_of(n / 10).push(dec_digit(n % 10)));
        assert(s.drop_last() =~= dec_of(n / 10));
        assert(s.last() == dec_digit(n % 10));
        assert(dec_val(s) == 10 * dec_val(s.drop_last()) + digit_val(s.last()));
        assert(dec_val(s) == 10 * (n / 10) + (n % 10));
        assert(n == 10 * (n / 10) + (n % 10));
    }
}

/// Rendering a digit and reading it back is the identity.
proof fn lemma_digit_val_of_dec_digit(d: nat)
    requires
        d < 10,
    ensures
        digit_val(dec_digit(d)) == d,
        is_dec_digit(dec_digit(d)),
{
}

/// Appending one digit multiplies the prefix value by ten and adds the digit.
proof fn lemma_dec_val_snoc(s: Seq<char>, i: int)
    requires
        0 <= i < s.len(),
    ensures
        dec_val(s.subrange(0, i + 1)) == 10 * dec_val(s.subrange(0, i)) + digit_val(s[i]),
{
    let t = s.subrange(0, i + 1);
    assert(t.drop_last() =~= s.subrange(0, i));
    assert(t.last() == s[i]);
}

/// Longer digit prefixes never read back to smaller values.
proof fn lemma_dec_val_grows(s: Seq<char>, i: int, j: int)
    requires
        0 <= i <= j <= s.len(),
    ensures
        dec_val(s.subrange(0, i)) <= dec_val(s.subrange(0, j)),
    decreases j - i,
{
    if i < j {
        lemma_dec_val_grows(s, i, j - 1);
        lemma_dec_val_snoc(s, j - 1);
    }
}

/// Parses a nonnegative decimal integer. Returns the value exactly when the
/// string is nonempty, all digits, and the value fits in a `u64`.
pub fn parse_u64(s: &str) -> (r: Option<u64>)
    ensures
        r is Some <==> (s@.len() > 0 && all_dec_digits(s@) && dec_val(s@) <= u64::MAX),
        r matches Some(v) ==> v == dec_val(s@),
{
    let len = s.unicode_len();
    if len == 0 {
        return None;
    }
    let mut acc: u64 = 0;
    let mut i: usize = 0;
    while i < len
        invariant
            len == s@.len(),
            0 <= i <= len,
            forall|k: int| 0 <= k < i ==> is_dec_digit(#[trigger] s@[k]),
            acc == dec_val(s@.subrange(0, i as int)),
        decreases len - i,
    {
        let c = s.get_char(i);
        if !('0' <= c && c <= '9') {
            return None;
        }
        let d: u64 = (c as u32 - 48) as u64;
        proof {
            reveal_strlit("0");
            assert(d == digit_val(s@[i as int]));
        }
        let step = match acc.checked_mul(10) {
            Some(m) => m.checked_add(d),
            None => None,
        };
        match step {
            Some(next) => {
                proof {
                    lemma_dec_val_snoc(s@, i as int);
                }
                acc = next;
            },
            None => {
                proof {
                    lemma_dec_val_snoc(s@, i as int);
                    lemma_dec_val_grows(s@, i + 1, s@.len() as int);
                    assert(s@.subrange(0, s@.len() as int) =~= s@);
                }
                return None;
            },
        }
        i = i + 1;
    }
    proof {
        assert(s@.subrange(0, s@.len() as int) =~= s@);
    }
    Some(acc)
}

/// The lowercase hex digit character for `d`.
pub open spec fn hex_digit(d: nat) -> char
    recommends
        d < 16,
{
    if d < 10 {
        dec_digit(d)
    } else if d == 10 {
        'a'
    } else if d == 11 {
        'b'
    } else if d == 12 {
        'c'
    } else if d == 13 {
        'd'
    } else if d == 14 {
        'e'
    } else {
        'f'
    }
}

/// The lowercase hex rendering of `n`, no leading zeros.
pub open spec fn hex_of_u64(n: nat) -> Seq<char>
    decreases n,
{
    if n < 16 {
        seq![hex_digit(n)]
    } else {
        hex_of_u64(n / 16).push(hex_digit(n % 16))
    }
}

/// The lowercase hex encoding of a byte string: two digits per byte,
/// high nibble first.
pub open spec fn hex_of_bytes(bs: Seq<u8>) -> Seq<char>
    decreases bs.len(),
{
    if bs.len() == 0 {
        Seq::empty()
    } else {
        seq![
            hex_digit((bs.first() / 16) as nat),
            hex_digit((bs.first() % 16) as nat),
        ] + hex_of_bytes(bs.drop_first())
    }
}

/// A one-character string slice for the hex digit `d`.
fn hex_digit_str(d: u64) -> (r: &'static str)
    requires
        d < 16,
    ensures
        r@ == seq![hex_digit(d as nat)],
{
    if d < 10 {
        digit_str(d)
    } else {
        proof {
            reveal_strlit("a");
            reveal_strlit("b");
            reveal_strlit("c");
            reveal_strlit("d");
            reveal_strlit("e");
            reveal_strlit("f");
        }
        let r = match d {
            10 => "a",
            11 => "b",
            12 => "c",
            13 => "d",
            14 => "e",
            _ => "f",
        };
        proof {
            assert(r@ =~= seq![hex_digit(d as nat)]);
        }
        r
    }
}

/// Renders `n` in lowercase hex.
pub fn u64_to_hex(n: u64) -> (r: String)
    ensures
        r@ == hex_of_u64(n as nat),
    decreases n,
{
    if n < 16 {
        hex_digit_str(n).to_owned()
    } else {
        let mut s = u64_to_hex(n / 16);
        s.append(hex_digit_str(n % 16));
        proof {
            assert(s@ =~= hex_of_u64((n / 16) as nat).push(hex_digit((n % 16) as nat)));
        }
        s
    }
}

/// ASCII case folding of one character; other characters are untouched.
pub open spec fn lower_char(c: char) -> char {
    if 'A' <= c && c <= 'Z' {
        ((c as u32 + 32) as u8) as char
    } else {
        c
    }
}

/// ASCII case folding of a character string.
pub open spec fn lower_seq(s: Seq<char>) -> Seq<char> {
    s.map_values(|c: char| lower_char(c))
}

/// Folds one character to ASCII lowercase.
pub fn lower_char_exec(c: char) -> (r: char)
    ensures
        r == lower_char(c),
{
    if 'A' <= c && c <= 'Z' {
        ((c as u32 + 32) as u8) as char
    } else {
        c
    }
}

/// Whether `a` and `b` are the same string.
pub fn str_eq(a: &str, b: &str) -> (r: bool)
    ensures
        r == (a@ == b@),
{
    let alen = a.unicode_len();
    let blen = b.unicode_len();
    if alen != blen {
        return false;
    }
    let mut i: usize = 0;
    while i < alen
        invariant
            alen == a@.len(),
            blen == b@.len(),
            alen == blen,
            0 <= i <= alen,
            forall|k: int| 0 <= k < i ==> a@[k] == b@[k],
        decreases alen - i,
    {
        if a.get_char(i) != b.get_char(i) {
            return false;
        }
        i = i + 1;
    }
    proof {
        assert(a@ =~= b@);
    }
    true
}

/// Whether `a` and `b` are equal up to ASCII case.
pub fn str_eq_ignore_case(a: &str, b: &str) -> (r: bool)
    ensures
        r == (lower_seq(a@) == lower_seq(b@)),
{
    let alen = a.unicode_len();
    let blen = b.unicode_len();
    if alen != blen {
        proof {
            assert(lower_seq(a@).len() == a@.len());
            assert(lower_seq(b@).len() == b@.len());
        }
        return false;
    }
    let mut i: usize = 0;
    while i < alen
        invariant
            alen == a@.len(),
            blen == b@.len(),
            alen == blen,
            0 <= i <= alen,
            forall|k: int| 0 <= k < i ==> lower_char(a@[k]) == lower_char(b@[k]),
        decreases alen - i,
    {
        if lower_char_exec(a.get_char(i)) != lower_char_exec(b.get_char(i)) {
            proof {
                assert(lower_seq(a@)[i as int] != lower_seq(b@)[i as int]);
            }
            return false;
        }
        i = i + 1;
    }
    proof {
        assert(lower_seq(a@) =~= lower_seq(b@));
    }
    true
}

/// Whether `n` occurs in `h` starting at position `i`.
pub open spec fn matches_at(h: Seq<char>, n: Seq<char>, i: int) -> bool {
    0 <= i && i + n.len() <= h.len() && h.subrange(i, i + n.len()) == n
}

/// Whether `n` occurs anywhere in `h`.
pub open spec fn contains_seq(h: Seq<char>, n: Seq<char>) -> bool {
    exists|i: int| matches_at(h, n, i)
}

/// Whether `needle` occurs in `hay` starting at character position `i`.
fn matches_at_exec(hay: &str, needle: &str, i: usize) -> (r: bool)
    requires
        i + needle@.len() <= hay@.len(),
    ensures
        r == matches_at(hay@, needle@, i as int),
{
    let hlen = hay.unicode_len();
    let nlen = needle.unicode_len();
    let mut k: usize = 0;
    while k < nlen
        invariant
            hlen == hay@.len(),
            nlen == needle@.len(),
            i + nlen <= hay@.len(),
            0 <= k <= nlen,
            forall|j: int| 0 <= j < k ==> hay@[i + j] == needle@[j],
        decreases nlen - k,
    {
        if hay.get_char(i + k) != needle.get_char(k) {
            proof {
                assert(hay@.subrange(i as int, i + nlen) != needle@) by {
                    assert(hay@.subrange(i as int, i + nlen)[k as int] != needle@[k as int]);
                }
            }
            return false;
        }
        k = k + 1;
    }
    proof {
        assert(hay@.subrange(i as int, i + nlen) =~= needle@);
    }
    true
}

/// Whether `needle` occurs anywhere in `hay`.
pub fn contains_substr(hay: &str, needle: &str) -> (r: bool)
    ensures
        r == contains_seq(hay@, needle@),
{
    let hlen = hay.unicode_len();
    let nlen = needle.unicode_len();
    if nlen > hlen {
        return false;
    }
    if nlen == 0 {
        proof {
            assert(matches_at(hay@, needle@, 0)) by {
                assert(hay@.subrange(0, 0) =~= needle@);
            }
        }
        return true;
    }
    let mut i: usize = 0;
    while i <= hlen - nlen
        invariant
            hlen == hay@.len(),
            nlen == needle@.len(),
            1 <= nlen <= hlen,
            0 <= i <= hlen - nlen + 1,
            forall|j: int| 0 <= j < i ==> !matches_at(hay@, needle@, j),
        decreases hlen - i,
    {
        if matches_at_exec(hay, needle, i) {
            return true;
        }
        i = i + 1;
    }
    false
}

/// Whether `needle` occurs in `hay` at position `i`, up to ASCII case.
fn matches_at_ci_exec(hay: &str, needle: &str, i: usize) -> (r: bool)
    requires
        i + needle@.len() <= hay@.len(),
    ensures
        r == matches_at(lower_seq(hay@), lower_seq(needle@), i as int),
{
    let hlen = hay.unicode_len();
    let nlen = needle.unicode_len();
    proof {
        assert(lower_seq(hay@).len() == hay@.len());
        assert(lower_seq(needle@).len() == needle@.len());
    }
    let mut k: usize = 0;
    while k < nlen
        invariant
            hlen == hay@.len(),
            nlen == needle@.len(),
            i + nlen <= hay@.len(),
            0 <= k <= nlen,
            forall|j: int|
                0 <= j < k ==> lower_char(hay@[i + j]) == lower_char(#[trigger] needle@[j]),
        decreases nlen - k,
    {
        if lower_char_exec(hay.get_char(i + k)) != lower_char_exec(needle.get_char(k)) {
            proof {
                let lh = lower_seq(hay@);
                let ln = lower_seq(needle@);
                assert(lh.subrange(i as int, i + nlen) != ln) by {
                    assert(lh.subrange(i as int, i + nlen)[k as int] == lower_char(
                        hay@[i + k],
                    ));
                    assert(ln[k as int] == lower_char(needle@[k as int]));
                }
            }
            return false;
        }
        k = k + 1;
    }
    proof {
        let lh = lower_seq(hay@);
        let ln = lower_seq(needle@);
        assert forall|j: int| 0 <= j < nlen implies lh.subrange(i as int, i + nlen)[j]
            == ln[j] by {
            assert(lh.subrange(i as int, i + nlen)[j] == lower_char(hay@[i + j]));
            assert(ln[j] == lower_char(needle@[j]));
        }
        assert(lh.subrange(i as int, i + nlen) =~= ln);
    }
    true
}

/// Whether `needle` occurs anywhere in `hay`, up to ASCII case.
pub fn contains_ci(hay: &str, needle: &str) -> (r: bool)
    ensures
        r == contains_seq(lower_seq(hay@), lower_seq(needle@)),
{
    let hlen = hay.unicode_len();
    let nlen = needle.unicode_len();
    proof {
        assert(lower_seq(hay@).len() == hay@.len());
        assert(lower_seq(needle@).len() == needle@.len());
    }
    if nlen > hlen {
        return false;
    }
    if nlen == 0 {
        proof {
            assert(matches_at(lower_seq(hay@), lower_seq(needle@), 0)) by {
                assert(lower_seq(hay@).subrange(0, 0) =~= lower_seq(needle@));
            }
        }
        return true;
    }
    let mut i: usize = 0;
    while i <= hlen - nlen
        invariant
            hlen == hay@.len(),
            nlen == needle@.len(),
            1 <= nlen <= hlen,
            0 <= i <= hlen - nlen + 1,
            forall|j: int| 0 <= j < i ==> !matches_at(lower_seq(hay@), lower_seq(needle@), j),
        decreases hlen - i,
    {
        if matches_at_ci_exec(hay, needle, i) {
            return true;
        }
        i = i + 1;
    }
    false
}

/// The position of the first occurrence of `c` in `s`, if any.
pub fn find_char(s: &str, c: char) -> (r: Option<usize>)
    ensures
        r matches Some(i) ==> i < s@.len() && s@[i as int] == c && (forall|j: int|
            0 <= j < i ==> s@[j] != c),
        r is None ==> forall|j: int| 0 <= j < s@.len() ==> s@[j] != c,
{
    let len = s.unicode_len();
    let mut i: usize = 0;
    while i < len
        invariant
            len == s@.len(),
            0 <= i <= len,
            forall|j: int| 0 <= j < i ==> s@[j] != c,
        decreases len - i,
    {
        if s.get_char(i) == c {
            return Some(i);
        }
        i = i + 1;
    }
    None
}

/// Whether `s` starts with `prefix`.
pub fn starts_with(s: &str, prefix: &str) -> (r: bool)
    ensures
        r == (prefix@.len() <= s@.len() && s@.subrange(0, prefix@.len() as int) == prefix@),
{
    let plen = prefix.unicode_len();
    if plen > s.unicode_len() {
        return false;
    }
    matches_at_exec(s, prefix, 0)
}

} // verus!
