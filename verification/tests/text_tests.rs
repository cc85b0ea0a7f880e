use immich_auto_uploader::text::{decimal_string, is_blank, is_whitespace, push_signed_decimal, trim};

#[test]
fn trim_removes_unicode_whitespace_at_both_ends() {
    assert_eq!(trim("  a b \t\n"), "a b");
    assert_eq!(trim("\u{3000}全角\u{3000}"), "全角");
    assert_eq!(trim("   "), "");
    assert_eq!(trim(""), "");
    assert_eq!(trim("x"), "x");
}

#[test]
fn trim_agrees_with_std() {
    for s in ["", " a", "a ", "\u{a0}b\u{2003}", "\r\n x y \u{85}", "中 文"] {
        assert_eq!(trim(s), s.trim());
    }
}

#[test]
fn blank_means_only_whitespace() {
    assert!(is_blank(""));
    assert!(is_blank(" \t\u{2028}"));
    assert!(!is_blank(" a "));
    for c in ['\u{0}', 'a', ' ', '\u{200b}', '\u{2009}', '\u{feff}'] {
        assert_eq!(is_whitespace(c), c.is_whitespace());
    }
}

#[test]
fn decimal_rendering() {
    assert_eq!(decimal_string(0), "0");
    assert_eq!(decimal_string(7), "7");
    assert_eq!(decimal_string(30), "30");
    assert_eq!(decimal_string(u64::MAX), u64::MAX.to_string());
    let mut s = String::from("code=");
    push_signed_decimal(&mut s, -17);
    assert_eq!(s, "code=-17");
    let mut t = String::new();
    push_signed_decimal(&mut t, i64::MIN);
    assert_eq!(t, i64::MIN.to_string());
}
