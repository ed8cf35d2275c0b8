use mechanics_http_client::text::{
    contains, decimal_text, eq_ignore_ascii_case, parse_unsigned, rsplit_once, same_text,
    split_once, strip_prefix, strip_suffix, trim, CharClass,
};

#[test]
fn trims_each_class() {
    assert_eq!(trim("\u{2003} a b \n", CharClass::Whitespace), "a b");
    assert_eq!(trim("\"\"x\"y\"", CharClass::Quote), "x\"y");
    assert_eq!(trim("[[::1]", CharClass::Bracket), "::1");
    assert_eq!(trim("   ", CharClass::Whitespace), "");
}

#[test]
fn whitespace_is_what_char_says() {
    for n in 0..0x11_0000u32 {
        if let Some(c) = char::from_u32(n) {
            assert_eq!(CharClass::Whitespace.contains(c), c.is_whitespace(), "{n:x}");
        }
    }
}

#[test]
fn splits_at_the_first_and_the_last() {
    assert_eq!(split_once("a=b=c", '='), Some(("a", "b=c")));
    assert_eq!(rsplit_once("a=b=c", '='), Some(("a=b", "c")));
    assert_eq!(split_once("abc", '='), None);
    assert_eq!(rsplit_once("abc", '='), None);
}

#[test]
fn strips_ends() {
    assert_eq!(strip_prefix("\"a", '"'), Some("a"));
    assert_eq!(strip_prefix("a", '"'), None);
    assert_eq!(strip_suffix("a\"", '"'), Some("a"));
    assert_eq!(strip_suffix("", '"'), None);
}

#[test]
fn compares_texts() {
    assert!(same_text("h3", "h3"));
    assert!(!same_text("h3", "H3"));
    assert!(eq_ignore_ascii_case("Ma", "mA"));
    assert!(!eq_ignore_ascii_case("k", "\u{212a}"));
    assert!(contains("a connection", "connect"));
    assert!(contains("abc", ""));
    assert!(!contains("connec", "connect"));
}

#[test]
fn numbers_as_std_reads_them() {
    let max = "18446744073709551615";
    for s in ["0", "+7", "-1", "", "+", "007", max, "18446744073709551616", "1 "] {
        assert_eq!(parse_unsigned(s, u64::MAX), s.parse::<u64>().ok(), "{s}");
        assert_eq!(
            parse_unsigned(s, u16::MAX as u64),
            s.parse::<u16>().ok().map(u64::from),
            "{s}"
        );
    }
}

#[test]
fn decimal_round_trip() {
    for n in [0, 9, 10, 65_535, u64::MAX] {
        assert_eq!(decimal_text(n), n.to_string());
        assert_eq!(parse_unsigned(&decimal_text(n), u64::MAX), Some(n));
    }
}
