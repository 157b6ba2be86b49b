use progress_parser::{identifier, one_of, restrict_string, tag_no_case, till_eol, u8_ref_to_string};

fn chars(s: &str) -> Vec<char> {
    s.chars().collect()
}

#[test]
fn identifier_rules() {
    let s = chars("_a-b9 rest");
    assert_eq!(identifier(&s, 0), Some(("_a-b9".to_string(), 5)));
    let s = chars("9abc");
    assert_eq!(identifier(&s, 0), None);
    let s = chars("  x");
    assert_eq!(identifier(&s, 2), Some(("x".to_string(), 3)));
}

#[test]
fn till_eol_both_terminators() {
    let s = chars("abc\r\ndef\nghi");
    assert_eq!(till_eol(&s, 0), Some(("abc".to_string(), 5)));
    assert_eq!(till_eol(&s, 5), Some(("def".to_string(), 9)));
    assert_eq!(till_eol(&s, 9), None);
}

#[test]
fn tag_no_case_ignores_ascii_case() {
    let s = chars("CrEaTe WINDOW");
    assert_eq!(tag_no_case(&s, 0, "create"), Some(6));
    assert_eq!(tag_no_case(&s, 0, "window"), None);
    assert_eq!(tag_no_case(&s, 7, "window"), Some(13));
}

#[test]
fn one_of_picks_listed_chars() {
    let s = chars("-x");
    assert_eq!(one_of(&s, 0, "_-"), Some(('-', 1)));
    assert_eq!(one_of(&s, 1, "_-"), None);
    assert_eq!(one_of(&s, 2, "_-"), None);
}

#[test]
fn restrict_short_and_long() {
    assert_eq!(restrict_string("short text"), "short text");
    assert_eq!(restrict_string("0123456789abcdefghijKLMNOPQRST"), "0123456789...KLMNOPQRST");
    assert_eq!(restrict_string("0123456789abcdefghij"), "0123456789...abcdefghij");
}

#[test]
fn restrict_cuts_at_bytes() {
    let mixed = format!("{}{}", "\u{e9}".repeat(10), "a".repeat(10));
    assert_eq!(
        restrict_string(&mixed),
        format!("{}...{}", "\u{e9}".repeat(5), "a".repeat(10))
    );
    let wide = "\u{e9}".repeat(15);
    assert_eq!(restrict_string(&wide), format!("{}...{}", "\u{e9}".repeat(5), "\u{e9}".repeat(5)));
    let short = "\u{e9}".repeat(9);
    assert_eq!(restrict_string(&short), short);
}

#[test]
fn lossy_decoding_replaces_invalid_bytes() {
    assert_eq!(u8_ref_to_string(b"ab\xffc"), "ab\u{FFFD}c");
    assert_eq!(u8_ref_to_string("d\u{e9}j\u{e0}".as_bytes()), "d\u{e9}j\u{e0}");
}
