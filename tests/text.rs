use libnexus::remote::{split_commas, trim_text};
use libnexus::text::{char_is_space, has_prefix, push_decimal, same_text, split_whitespace, text_less};

#[test]
fn whitespace_tokens() {
    assert_eq!(split_whitespace("  a bc\t\u{3000}d  "), vec!["a", "bc", "d"]);
    assert!(split_whitespace(" \n ").is_empty());
    assert_eq!(split_whitespace("héllo wörld"), vec!["héllo", "wörld"]);
}

#[test]
fn unicode_spaces() {
    assert!(char_is_space('\u{a0}'));
    assert!(char_is_space('\u{2009}'));
    assert!(!char_is_space('x'));
    assert!(!char_is_space('\u{200b}'));
}

#[test]
fn prefixes_and_equality() {
    assert!(has_prefix("volume", "vol"));
    assert!(has_prefix("volume", ""));
    assert!(!has_prefix("vol", "volume"));
    assert!(same_text("ab", "ab"));
    assert!(!same_text("ab", "abc"));
}

#[test]
fn lexicographic_order() {
    assert!(text_less("block", "pool"));
    assert!(text_less("list", "listing"));
    assert!(!text_less("pool", "pool"));
    assert!(!text_less("b", "a"));
}

#[test]
fn decimal_rendering() {
    let mut s = String::from("n=");
    push_decimal(&mut s, 0);
    assert_eq!(s, "n=0");
    let mut s = String::new();
    push_decimal(&mut s, 1205);
    assert_eq!(s, "1205");
}

#[test]
fn trimming_and_comma_fields() {
    assert_eq!(trim_text("  x y \t"), "x y");
    assert_eq!(trim_text("   "), "");
    assert_eq!(split_commas("a,,b, c"), vec!["a", "", "b", " c"]);
    assert_eq!(split_commas(""), vec![""]);
}
