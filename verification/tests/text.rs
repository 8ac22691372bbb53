use headset_battery_indicator::text::{
    parse_u8_from, push_decimal, push_signed_decimal, trim_chars, white_space,
};

fn chars(s: &str) -> Vec<char> {
    s.chars().collect()
}

#[test]
fn decimal_notation() {
    let mut s = String::from("n=");
    push_decimal(&mut s, 0);
    assert_eq!(s, "n=0");
    let mut s = String::new();
    push_decimal(&mut s, 18446744073709551615);
    assert_eq!(s, "18446744073709551615");
    let mut s = String::new();
    push_signed_decimal(&mut s, -42);
    assert_eq!(s, "-42");
    let mut s = String::new();
    push_signed_decimal(&mut s, 7);
    assert_eq!(s, "7");
}

#[test]
fn trims_unicode_white_space() {
    assert_eq!(trim_chars(&chars(" \t a b \r\n")), chars("a b"));
    assert_eq!(trim_chars(&chars("\u{3000}x\u{a0}")), chars("x"));
    assert_eq!(trim_chars(&chars("   ")), chars(""));
    assert!(white_space('\u{2029}'));
    assert!(!white_space('\u{200b}'));
}

#[test]
fn parses_u8_like_std() {
    for text in ["0", "5", "+15", "255", "007", "256", "", "+", "-1", "1 ", " 1", "x", "++1"] {
        let expected: Option<u8> = text.parse().ok();
        assert_eq!(parse_u8_from(&chars(text), 0), expected, "input {text:?}");
    }
    assert_eq!(parse_u8_from(&chars("key=60"), 4), Some(60));
}
