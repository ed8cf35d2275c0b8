use mechanics_http_client::dns::resolved;
use mechanics_http_client::https_rr::{
    fresh, lookup, parse_https_record, HttpsRecord, IpAddr, SocketAddr,
};
use mechanics_http_client::time::{Duration, Instant};
use mechanics_http_client::tls::configured;
use mechanics_http_client::uri::{accept, parse, UriParts};
use mechanics_http_client::origin::Origin;
use mechanics_http_client::Error;

fn at(secs: u64) -> Instant {
    Instant::after_start(Duration::from_secs(secs))
}

fn record(port: Option<u16>, alpn_h3: bool) -> HttpsRecord {
    HttpsRecord { port, address_hints: vec![IpAddr::V6(1)], alpn_h3, expires_at: at(5) }
}

#[test]
fn record_without_port_stands_for_that_of_the_origin() {
    let entry = parse_https_record(record(None, true), 443);
    assert_eq!((entry.port, entry.has_h3), (443, true));
    assert_eq!(entry.addresses, vec![IpAddr::V6(1)]);
    assert!(fresh(&entry, at(4)));
    assert!(!fresh(&entry, at(5)));
    assert_eq!(parse_https_record(record(Some(1), false), 443).port, 1);
}

#[test]
fn first_record_with_h3_is_chosen() {
    let records = vec![record(Some(1), false), record(Some(2), true), record(Some(3), true)];
    assert_eq!(lookup(Ok(records), 443).unwrap().unwrap().port, 2);
    let records = vec![record(Some(1), false), record(Some(2), false)];
    assert_eq!(lookup(Ok(records), 443).unwrap().unwrap().port, 1);
    assert!(lookup(Ok(Vec::new()), 443).unwrap().is_none());
}

#[test]
fn failed_lookup_leaves_the_upstream_unreachable() {
    match lookup(Err("SERVFAIL".to_owned()), 443) {
        Err(Error::Unreachable(detail)) => assert_eq!(detail, "SERVFAIL"),
        other => panic!("expected Unreachable, got {other:?}"),
    }
}

#[test]
fn no_addresses_are_a_failure() {
    let addr = SocketAddr { ip: IpAddr::V4(1), port: 0 };
    assert_eq!(resolved("h", vec![addr]), Ok(vec![addr]));
    assert_eq!(resolved("h", Vec::new()), Err("no DNS addresses for `h`".to_owned()));
}

#[test]
fn tls_configuration_failure() {
    assert_eq!(configured(Ok(1)).unwrap(), 1);
    match configured::<u8>(Err("why".to_owned())) {
        Err(Error::Internal(message)) => assert_eq!(
            message,
            "aws-lc-rs provider rejected default protocol versions: why"
        ),
        other => panic!("expected Internal, got {other:?}"),
    }
}

#[test]
fn parts_of_a_url() {
    let uri = parse("HTTPS://User@Example.com:8443/p?q#f").unwrap();
    assert_eq!(uri.parts().scheme.as_deref(), Some("https"));
    assert_eq!(uri.parts().host.as_deref(), Some("Example.com"));
    assert_eq!(uri.parts().port, Some(8443));
    let origin = Origin::from_uri(&uri).unwrap();
    assert_eq!((origin.host.as_str(), origin.port), ("Example.com", 8443));
    assert_eq!(Origin::from_uri(&parse("https://h/").unwrap()).unwrap().port, 443);
    assert!(Origin::from_uri(&parse("http://h/").unwrap()).is_none());
}

fn parts(scheme: Option<&str>) -> UriParts {
    UriParts { scheme: scheme.map(str::to_owned), host: None, port: None }
}

#[test]
fn schemes() {
    let uri = accept("u", Ok(parts(Some("http")))).unwrap();
    assert_eq!(uri.url(), "u");
    let uri = accept("u", Ok(parts(Some("https")))).unwrap();
    assert!(Origin::from_uri(&uri).is_none());
    let message = |r: mechanics_http_client::Result<mechanics_http_client::Uri>| match r {
        Err(Error::InvalidUrl(message)) => message,
        other => panic!("expected InvalidUrl, got {other:?}"),
    };
    assert_eq!(message(accept("u", Ok(parts(Some("ws"))))), "unsupported scheme `ws` in `u`");
    assert_eq!(message(accept("u", Ok(parts(None)))), "unsupported scheme `` in `u`");
    assert_eq!(message(accept("u", Err("why".to_owned()))), "could not parse `u`: why");
}
