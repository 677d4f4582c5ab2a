use livepeer_payout_bot::text::{i64_text, str_less, trim_text, u64_text};

#[test]
fn decimal_texts() {
    assert_eq!(u64_text(0), "0");
    assert_eq!(u64_text(1_700_000_000), "1700000000");
    assert_eq!(u64_text(u64::MAX), u64::MAX.to_string());
    assert_eq!(i64_text(-42), "-42");
    assert_eq!(i64_text(i64::MIN), i64::MIN.to_string());
}

#[test]
fn trimming_matches_str_trim() {
    assert_eq!(trim_text("  a b \t\n"), "a b");
    assert_eq!(trim_text("\u{3000}x\u{85}"), "\u{3000}x\u{85}".trim());
    assert_eq!(trim_text("   "), "");
}

#[test]
fn text_order_matches_string_order() {
    assert!(str_less("0xa", "0xb"));
    assert!(str_less("0xa", "0xab"));
    assert!(!str_less("0xb", "0xa"));
    assert!(!str_less("same", "same"));
}
