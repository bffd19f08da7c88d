use epistulus::identity::generate_post_id;
use epistulus::notify::truncate_text;
use epistulus::text::{
    contains_ci, contains_substr, parse_u64, str_eq, str_eq_ignore_case, u64_to_dec, u64_to_hex,
};

#[test]
fn post_identity_is_a_pure_function() {
    let a = generate_post_id("example_com", "https://example.com/a", "Hello");
    let b = generate_post_id("example_com", "https://example.com/a", "Hello");
    assert_eq!(a, b);
}

#[test]
fn post_identity_exact_value() {
    // FNV-1a over (source id, link, title) with unit separators, in hex
    let id = generate_post_id("example_com", "https://example.com/a", "Hello");
    assert_eq!(id, "example_com_d1ae90fc8efd53a3");
}

#[test]
fn a_different_link_or_title_changes_the_identity() {
    let a = generate_post_id("example_com", "https://example.com/a", "Hello");
    let b = generate_post_id("example_com", "https://example.com/b", "Hello");
    let c = generate_post_id("example_com", "https://example.com/a", "Hello!");
    assert_eq!(b, "example_com_8ecce28aa888d61a");
    assert_ne!(a, b);
    assert_ne!(a, c);
    assert_ne!(b, c);
}

#[test]
fn identity_fields_do_not_bleed_into_each_other() {
    // the separator keeps ("ab", "c") apart from ("a", "bc")
    let a = generate_post_id("s", "ab", "c");
    let b = generate_post_id("s", "a", "bc");
    assert_ne!(a, b);
}

#[test]
fn decimal_and_hex_rendering() {
    assert_eq!(u64_to_dec(0), "0");
    assert_eq!(u64_to_dec(12345), "12345");
    assert_eq!(u64_to_dec(u64::MAX), "18446744073709551615");
    assert_eq!(u64_to_hex(0), "0");
    assert_eq!(u64_to_hex(255), "ff");
    assert_eq!(u64_to_hex(0xdeadbeef), "deadbeef");
}

#[test]
fn parse_u64_accepts_exactly_fitting_digit_strings() {
    assert_eq!(parse_u64("0"), Some(0));
    assert_eq!(parse_u64("007"), Some(7));
    assert_eq!(parse_u64("18446744073709551615"), Some(u64::MAX));
    assert_eq!(parse_u64("18446744073709551616"), None); // one past the top
    assert_eq!(parse_u64(""), None);
    assert_eq!(parse_u64("12a"), None);
    assert_eq!(parse_u64("-3"), None);
}

#[test]
fn substring_search_and_case_folding() {
    assert!(contains_substr("application/rss+xml; charset=utf-8", "application/rss+xml"));
    assert!(!contains_substr("application/xml", "application/rss+xml"));
    assert!(contains_substr("abc", ""));
    assert!(contains_ci("Rust and VERUS", "verus"));
    assert!(contains_ci("Rust and VERUS", "rust AND"));
    assert!(!contains_ci("Rust", "rusty"));
    assert!(str_eq("abc", "abc"));
    assert!(!str_eq("abc", "abd"));
    assert!(str_eq_ignore_case("FreE", "fREe"));
    assert!(!str_eq_ignore_case("free", "fre"));
}

#[test]
fn truncation_is_exact() {
    // ten characters cut to five: two kept, three dots, length exactly five
    let t = truncate_text("abcdefghij", 5);
    assert_eq!(t, "ab...");
    assert_eq!(t.chars().count(), 5);
    assert!(t.ends_with("..."));
    // short enough text is untouched
    assert_eq!(truncate_text("abc", 5), "abc");
    assert_eq!(truncate_text("abcde", 5), "abcde");
    // a ceiling under the marker length keeps only the marker
    assert_eq!(truncate_text("abcdef", 2), "...");
}
