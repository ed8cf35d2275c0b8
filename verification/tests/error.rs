use mechanics_http_client::Error;

#[test]
fn timeout_and_unreachable_are_told_apart() {
    assert!(Error::Timeout.is_timeout());
    assert!(!Error::Timeout.is_unreachable());
    let unreachable = Error::Unreachable("x".to_owned());
    assert!(unreachable.is_unreachable());
    assert!(!unreachable.is_timeout());
    assert!(!Error::Tls("x".to_owned()).is_unreachable());
}

#[test]
fn messages() {
    let d = || "d".to_owned();
    assert_eq!(Error::Timeout.message(), "request timed out");
    assert_eq!(Error::Unreachable(d()).message(), "upstream unreachable: d");
    assert_eq!(Error::Tls(d()).message(), "TLS error: d");
    assert_eq!(Error::Decode(d()).message(), "response decode error: d");
    assert_eq!(
        Error::BodyTooLarge { limit: 128, seen: 0 }.message(),
        "response body exceeded cap: limit=128, seen=0"
    );
    assert_eq!(Error::InvalidUrl(d()).message(), "invalid URL: d");
    assert_eq!(Error::InvalidHeader(d()).message(), "invalid header: d");
    assert_eq!(Error::SerializeJson(d()).message(), "request JSON serialise: d");
    assert_eq!(Error::Cancelled(d()).message(), "request cancelled: d");
    assert_eq!(Error::Internal(d()).message(), "internal HTTP client error: d");
}
