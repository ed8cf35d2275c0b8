use mechanics_http_client::alt_svc::{
    parse_alternative, parse_authority, parse_header, parse_str, split_quoted, AltSvcUpdate,
};
use mechanics_http_client::time::{Duration, Instant};
use mechanics_http_client::HeaderValue;

fn start() -> Instant {
    Instant::after_start(Duration::from_secs(1_000))
}

fn at(secs: u64) -> Instant {
    Instant::after_start(Duration::from_secs(secs))
}

#[test]
fn parses_h3_authority_and_max_age() {
    let now = start();
    let parsed = parse_str(r#"h3=":8443"; ma=60"#, now, 443);
    let AltSvcUpdate::Entry(entry) = parsed else {
        panic!("expected entry");
    };
    assert_eq!(entry.host, None);
    assert_eq!(entry.port, 8443);
    assert!(entry.expires_at > now);
}

#[test]
fn ignores_draft_h3_variants() {
    let parsed = parse_str(r#"h3-29=":443"; ma=60"#, start(), 443);
    assert!(matches!(parsed, AltSvcUpdate::Absent));
}

#[test]
fn parses_clear() {
    let parsed = parse_str("clear", start(), 443);
    assert!(matches!(parsed, AltSvcUpdate::Clear));
}

#[test]
fn clear_in_any_case_and_with_space_around() {
    assert!(matches!(parse_str("  CLEAR\t", start(), 443), AltSvcUpdate::Clear));
    assert!(matches!(parse_str("clear, clear", start(), 443), AltSvcUpdate::Absent));
}

#[test]
fn max_age_sets_the_expiry() {
    let AltSvcUpdate::Entry(entry) = parse_str(r#"h3=":443"; ma=60"#, start(), 443) else {
        panic!("expected entry");
    };
    assert_eq!(entry.expires_at, at(1_060));
}

#[test]
fn max_age_is_a_day_unless_given() {
    let AltSvcUpdate::Entry(entry) = parse_str(r#"h3=":443""#, start(), 443) else {
        panic!("expected entry");
    };
    assert_eq!(entry.expires_at, at(1_000 + 24 * 60 * 60));
}

#[test]
fn last_max_age_that_is_a_number_counts() {
    let raw = r#"h3=":443"; MA="60"; ma=90; ma=never; persist=1; ma"#;
    let AltSvcUpdate::Entry(entry) = parse_str(raw, start(), 443) else {
        panic!("expected entry");
    };
    assert_eq!(entry.expires_at, at(1_090));
}

#[test]
fn first_supported_alternative_counts() {
    let raw = r#"h2=":1"; ma=5, h3=broken, h3="alt.example:8443"; ma=7, h3=":9""#;
    let AltSvcUpdate::Entry(entry) = parse_str(raw, start(), 443) else {
        panic!("expected entry");
    };
    assert_eq!(entry.host.as_deref(), Some("alt.example"));
    assert_eq!(entry.port, 8443);
    assert_eq!(entry.expires_at, at(1_007));
}

#[test]
fn separators_in_quotes_do_not_split() {
    assert_eq!(split_quoted(r#"a="x,y",b"#, ','), vec![r#"a="x,y""#, "b"]);
    assert_eq!(split_quoted("", ','), vec![""]);
    assert_eq!(split_quoted(",é,", ','), vec!["", "é", ""]);
    assert_eq!(split_quoted(r#"a",b"#, ','), vec![r#"a",b"#]);
}

#[test]
fn joining_the_parts_gives_the_text_back() {
    let raw = r#"h3=":1,2"; ma=3,, h2="x"#;
    assert_eq!(split_quoted(raw, ',').join(","), raw);
    assert_eq!(split_quoted(raw, ';').join(";"), raw);
    for part in split_quoted(raw, ',') {
        assert_eq!(split_quoted(part, ','), vec![part]);
    }
}

#[test]
fn authorities() {
    assert_eq!(parse_authority(r#"":8443""#, 443), Some((None, 8443)));
    assert_eq!(parse_authority(r#"":+80""#, 443), Some((None, 80)));
    assert_eq!(parse_authority(r#"":65536""#, 443), None);
    assert_eq!(
        parse_authority(r#""a.example:99""#, 443),
        Some((Some("a.example".to_owned()), 99))
    );
    assert_eq!(
        parse_authority(r#""[::1]:99""#, 443),
        Some((Some("::1".to_owned()), 99))
    );
    assert_eq!(
        parse_authority(r#""a.example:https""#, 443),
        Some((Some("a.example".to_owned()), 443))
    );
    assert_eq!(parse_authority(r#""[]:99""#, 443), None);
    assert_eq!(parse_authority(r#""a.example""#, 443), None);
    assert_eq!(parse_authority(":443", 443), None);
    assert_eq!(parse_authority("\"", 443), None);
}

#[test]
fn alternative_without_a_value_is_absent() {
    assert!(matches!(parse_alternative("h3", start(), 443), AltSvcUpdate::Absent));
    assert!(matches!(parse_alternative(" h3 =\":1\"", start(), 443), AltSvcUpdate::Entry(_)));
}

#[test]
fn header_that_is_not_text_is_absent() {
    let text = HeaderValue::from_static("clear");
    assert!(matches!(parse_header(&text, start(), 443), AltSvcUpdate::Clear));
    let opaque = HeaderValue::from_bytes(b"clear\xff").unwrap();
    assert!(matches!(parse_header(&opaque, start(), 443), AltSvcUpdate::Absent));
}
