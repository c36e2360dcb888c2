use smol_cli::text::{decimal_text, trim, truncate};

#[test]
fn truncate_preserves_ascii_within_limit() {
    assert_eq!(truncate("hello world", 5), "hello");
}

#[test]
fn truncate_respects_utf8_boundaries() {
    let sample = "éèê";
    assert_eq!(truncate(sample, 4), "éè");
}

#[test]
fn truncate_returns_empty_when_limit_too_small_for_char() {
    assert_eq!(truncate("é", 1), "");
}

#[test]
fn truncate_keeps_short_text_whole() {
    assert_eq!(truncate("abc", 10), "abc");
    assert_eq!(truncate("", 0), "");
    assert_eq!(truncate("a€b", 4), "a€");
    assert_eq!(truncate("a€b", 3), "a");
}

#[test]
fn trim_strips_unicode_white_space() {
    assert_eq!(trim("  a b \n\t"), "a b");
    assert_eq!(trim("\u{3000}x\u{a0}"), "x");
    assert_eq!(trim("   "), "");
}

#[test]
fn decimal_text_spells_numbers() {
    assert_eq!(decimal_text(0), "0");
    assert_eq!(decimal_text(18), "18");
    assert_eq!(decimal_text(1234567890), "1234567890");
}
