use mechanics_http_client::alt_svc::AltSvcEntry;
use mechanics_http_client::caches::Http3Caches;
use mechanics_http_client::http3::Http3AttemptError;
use mechanics_http_client::https_rr::{HttpsRrEntry, IpAddr};
use mechanics_http_client::origin::Origin;
use mechanics_http_client::request::Sending;
use mechanics_http_client::response::{BodyRead, ResponseBody};
use mechanics_http_client::send::{
    h3_stream_failure_action, map_legacy_error, request_build_error, H3AttemptCancellationGuard,
    H3StreamFailureAction, Http3Action, Http3Progress, TcpOutcome, Transport, TransportFailure,
    TryHttp3,
};
use mechanics_http_client::time::{Duration, Instant};
use mechanics_http_client::{Client, Error, HeaderMap, HeaderValue, Response, StatusCode};

fn at(secs: u64) -> Instant {
    Instant::after_start(Duration::from_secs(secs))
}

fn origin() -> Origin {
    Origin { host: "example.com".to_owned(), port: 443 }
}

fn negative_for() -> Duration {
    Duration::from_secs(300)
}

fn alt_svc(host: Option<&str>) -> AltSvcEntry {
    AltSvcEntry { host: host.map(str::to_owned), port: 8443, expires_at: at(60) }
}

fn record(has_h3: bool) -> HttpsRrEntry {
    HttpsRrEntry { port: 9443, addresses: vec![IpAddr::V4(7)], has_h3, expires_at: at(60) }
}

fn stale() -> Result<(), Http3AttemptError> {
    Err(Http3AttemptError::Stream { retry_without_h3: true })
}

fn begun() -> Result<(), Http3AttemptError> {
    Err(Http3AttemptError::Stream { retry_without_h3: false })
}

fn handshake() -> Result<(), Http3AttemptError> {
    Err(Http3AttemptError::Handshake("refused".to_owned()))
}

fn start(caches: &mut Http3Caches, now: Instant) -> TryHttp3 {
    TryHttp3::start(caches, origin(), now, negative_for())
}

fn target(state: &TryHttp3) -> (String, u16, Vec<IpAddr>) {
    match state.action() {
        Http3Action::Attempt(target) => {
            (target.authority_host.clone(), target.port, target.addresses.clone())
        }
        other => panic!("expected an attempt, got {other:?}"),
    }
}

fn go_on(
    state: TryHttp3,
    caches: &mut Http3Caches,
    result: Result<(), Http3AttemptError>,
) -> TryHttp3 {
    match state.attempted(caches, result) {
        Http3Progress::Continue(state) => state,
        Http3Progress::Answered(()) => panic!("no answer was given"),
    }
}

#[test]
fn h3_stream_failure_after_retry_budget_uses_tcp_fallback() {
    assert_eq!(
        h3_stream_failure_action(true, 0),
        H3StreamFailureAction::RetryFreshH3
    );
    assert_eq!(
        h3_stream_failure_action(true, 1),
        H3StreamFailureAction::UseTcp
    );
}

#[test]
fn h3_stream_failure_after_request_started_uses_tcp_fallback() {
    assert_eq!(
        h3_stream_failure_action(false, 0),
        H3StreamFailureAction::UseTcp
    );
}

#[test]
fn h3_attempt_cancellation_guard_negative_caches_on_drop() {
    let client = Client::builder().build().expect("client");
    let mut caches = Http3Caches::new();
    let origin = Origin {
        host: "example.com".to_owned(),
        port: 443,
    };
    let now = at(1_000);
    caches.alt_svc.insert(
        origin.clone(),
        AltSvcEntry {
            host: None,
            port: 443,
            expires_at: now.plus(Duration::from_secs(60)),
        },
    );
    assert!(caches.alt_svc.contains_key(&origin));

    let guard = H3AttemptCancellationGuard::new(&origin);
    guard.release(&mut caches, now, client.http3_negative_cache_duration());

    assert!(caches.negative.contains_key(&origin));
    assert!(!caches.alt_svc.contains_key(&origin));
}

#[test]
fn h3_attempt_cancellation_guard_disarms_after_completion() {
    let client = Client::builder().build().expect("client");
    let mut caches = Http3Caches::new();
    let origin = Origin {
        host: "example.com".to_owned(),
        port: 443,
    };

    let mut guard = H3AttemptCancellationGuard::new(&origin);
    guard.disarm();
    guard.release(&mut caches, at(1_000), client.http3_negative_cache_duration());

    assert!(!caches.negative.contains_key(&origin));
}

#[test]
fn alternative_is_tried_before_records() {
    let mut caches = Http3Caches::new();
    caches.alt_svc.insert(origin(), alt_svc(None));
    caches.https_rr.insert(origin(), record(true));
    let state = start(&mut caches, at(10));
    assert_eq!(target(&state), ("example.com".to_owned(), 8443, vec![]));
    let mut caches = Http3Caches::new();
    caches.alt_svc.insert(origin(), alt_svc(Some("alt.example")));
    assert_eq!(target(&start(&mut caches, at(10))).0, "alt.example");
}

#[test]
fn expired_alternative_is_forgotten_and_records_are_used() {
    let mut caches = Http3Caches::new();
    caches.alt_svc.insert(origin(), alt_svc(None));
    let mut fresh = record(true);
    fresh.expires_at = at(100);
    caches.https_rr.insert(origin(), fresh);
    let state = start(&mut caches, at(60));
    assert_eq!(target(&state), ("example.com".to_owned(), 9443, vec![IpAddr::V4(7)]));
    assert!(!caches.alt_svc.contains_key(&origin()));
}

#[test]
fn records_are_looked_up_where_none_is_known() {
    let mut caches = Http3Caches::new();
    let state = start(&mut caches, at(10));
    assert!(matches!(state.action(), Http3Action::LookUp));
    let state = state.looked_up(&mut caches, Some(Ok(Some(record(true)))));
    assert_eq!(target(&state).1, 9443);
    assert!(caches.https_rr.contains_key(&origin()));

    let mut caches = Http3Caches::new();
    for lookup in [None, Some(Err(Error::Timeout)), Some(Ok(None))] {
        let state = start(&mut caches, at(10)).looked_up(&mut caches, lookup);
        assert!(matches!(state.action(), Http3Action::UseTcp));
        assert!(!caches.https_rr.contains_key(&origin()));
    }
    let state = start(&mut caches, at(10)).looked_up(&mut caches, Some(Ok(Some(record(false)))));
    assert!(matches!(state.action(), Http3Action::UseTcp));
    assert!(matches!(start(&mut caches, at(20)).action(), Http3Action::UseTcp));
}

#[test]
fn answer_ends_the_trying_and_leaves_the_caches() {
    let mut caches = Http3Caches::new();
    caches.alt_svc.insert(origin(), alt_svc(None));
    let state = start(&mut caches, at(10));
    assert!(matches!(state.attempted(&mut caches, Ok(5)), Http3Progress::Answered(5)));
    assert!(caches.alt_svc.contains_key(&origin()));
    assert!(!caches.negative.contains_key(&origin()));
}

#[test]
fn stale_connection_is_retried_once() {
    let mut caches = Http3Caches::new();
    caches.alt_svc.insert(origin(), alt_svc(None));
    let state = start(&mut caches, at(10));
    let state = go_on(state, &mut caches, stale());
    assert_eq!(target(&state).1, 8443);
    assert!(!caches.negative.contains_key(&origin()));
    let state = go_on(state, &mut caches, stale());
    assert!(matches!(state.action(), Http3Action::LookUp));
    assert!(caches.negative.contains_key(&origin()));
    assert!(!caches.alt_svc.contains_key(&origin()));
}

#[test]
fn trying_ends_after_five_steps() {
    let mut caches = Http3Caches::new();
    caches.alt_svc.insert(origin(), alt_svc(None));
    let state = start(&mut caches, at(10));
    let state = go_on(state, &mut caches, stale());
    let state = go_on(state, &mut caches, stale());
    let state = state.looked_up(&mut caches, Some(Ok(Some(record(true)))));
    let state = go_on(state, &mut caches, stale());
    let state = go_on(state, &mut caches, stale());
    assert!(matches!(state.action(), Http3Action::UseTcp));
}

#[test]
fn failure_blocks_the_origin_for_the_span() {
    for result in [handshake(), begun()] {
        let mut caches = Http3Caches::new();
        caches.https_rr.insert(origin(), record(true));
        let state = start(&mut caches, at(10));
        let state = go_on(state, &mut caches, result);
        assert!(matches!(state.action(), Http3Action::UseTcp));
        assert!(matches!(start(&mut caches, at(309)).action(), Http3Action::UseTcp));
        assert!(caches.negative.contains_key(&origin()));
        assert!(matches!(start(&mut caches, at(310)).action(), Http3Action::LookUp));
        assert!(!caches.negative.contains_key(&origin()));
    }
}

fn failure(connect: bool, tls: bool, message: &str, causes: &[&str]) -> TransportFailure {
    TransportFailure {
        message: message.to_owned(),
        causes: causes.iter().map(|cause| (*cause).to_owned()).collect(),
        connect,
        tls,
    }
}

fn kind(failure: TransportFailure) -> char {
    let message = failure.message.clone();
    match map_legacy_error(failure) {
        Error::Unreachable(m) if m == message => 'u',
        Error::Tls(m) if m == message => 't',
        Error::Internal(m) if m == message => 'i',
        other => panic!("unexpected {other:?}"),
    }
}

#[test]
fn failed_connection_is_unreachable() {
    let failed = |causes: &[&str]| kind(failure(true, false, "client error (Connect)", causes));
    assert_eq!(failed(&[]), 'u');
    assert_eq!(failed(&["tcp connect error", "Connection refused (os error 111)"]), 'u');
    assert_eq!(failed(&["dns error", "no DNS addresses for `tls.example`"]), 'u');
    assert_eq!(kind(failure(false, false, "client error (Connect)", &[])), 'u');
}

#[test]
fn failed_handshake_is_a_tls_error() {
    let failed = |tls, cause| kind(failure(true, tls, "client error (Connect)", &[cause]));
    assert_eq!(failed(true, "received fatal alert: ProtocolVersion"), 't');
    assert_eq!(failed(true, "invalid peer certificate: not valid for DnsName(\"a\")"), 't');
    assert_eq!(failed(false, "invalid peer certificate: UnknownIssuer"), 't');
    assert_eq!(failed(false, "TLS handshake eof"), 't');
}

#[test]
fn other_transport_failures_by_their_texts() {
    let sent = |causes: &[&str]| kind(failure(false, false, "client error (SendRequest)", causes));
    assert_eq!(sent(&["connection closed before message completed"]), 'u');
    assert_eq!(sent(&["Connection error", "peer closed without TLS close_notify"]), 'u');
    assert_eq!(sent(&["http2 error", "received a tls alert"]), 't');
    assert_eq!(sent(&["bad Certificate"]), 't');
    assert_eq!(sent(&["channel closed"]), 'i');
    assert_eq!(sent(&[]), 'i');
    assert_eq!(kind(failure(false, true, "client error (UserUnsupportedVersion)", &[])), 'i');
    assert_eq!(kind(failure(false, false, "dns error", &[])), 'u');
    assert_eq!(kind(failure(false, false, "invalid peer certificate", &[])), 't');
}

#[test]
fn request_build_errors() {
    let message = |transport| match request_build_error(transport, "bad uri") {
        Error::Internal(message) => message,
        other => panic!("expected Internal, got {other:?}"),
    };
    assert_eq!(message(Transport::Tcp), "request build: bad uri");
    assert_eq!(message(Transport::Quic), "HTTP/3 request build: bad uri");
}

fn sending(url: &str) -> Sending<()> {
    let client = Client::builder()
        .http3_negative_cache_duration(negative_for())
        .build()
        .unwrap();
    client.get(url).send().unwrap()
}

#[test]
fn tcp_timeout_is_reported() {
    let mut caches = Http3Caches::new();
    let outcome: TcpOutcome<()> = TcpOutcome::TimedOut;
    let result = sending("http://example.com/slow").tcp_finished(&mut caches, outcome, at(10));
    match result {
        Err(Error::Timeout) => {}
        other => panic!("expected Timeout, got {other:?}"),
    }
}

#[test]
fn http3_timeout_blocks_the_origin() {
    let mut caches = Http3Caches::new();
    let sending = sending("https://example.com/");
    let outcome = sending.http3_finished::<u8>(&mut caches, None, at(10));
    assert!(matches!(outcome, Err(Error::Timeout)));
    assert!(caches.negative_cache_hit(&origin(), at(309)));
    assert!(!caches.negative_cache_hit(&origin(), at(310)));
}

fn response(body: u8) -> Response<u8> {
    Response::new(StatusCode::OK, http::Version::HTTP_3, HeaderMap::new(), body)
}

#[test]
fn other_http3_outcomes_are_handed_on() {
    let mut caches = Http3Caches::new();
    let sending = sending("https://example.com/");
    let given = sending.http3_finished(&mut caches, Some(Ok(Some(response(1)))), at(1));
    match given.unwrap().unwrap().into_body() {
        ResponseBody::Streamed(body) => assert_eq!(body, 1),
        other => panic!("expected the stream, got {other:?}"),
    }
    assert!(matches!(sending.http3_finished::<u8>(&mut caches, Some(Ok(None)), at(1)), Ok(None)));
    let failed = sending.http3_finished::<u8>(&mut caches, Some(Err(Error::Timeout)), at(1));
    assert!(matches!(failed, Err(Error::Timeout)));
    assert!(!caches.negative.contains_key(&origin()));
}

fn frame_timeout<T>(response: Response<T>) -> Option<Duration> {
    match response.bytes() {
        Ok(BodyRead::Stream(_, reader)) => reader.frame_timeout(),
        _ => panic!("expected a stream"),
    }
}

#[test]
fn timeout_of_the_request_covers_the_frames_of_the_body() {
    let mut caches = Http3Caches::new();
    let client = Client::new().unwrap();
    let limit = Duration::from_secs(7);
    let sending: Sending<()> =
        client.get("https://example.com/").timeout(limit).send().unwrap();
    let given = sending.http3_finished(&mut caches, Some(Ok(Some(response(1)))), at(1));
    assert_eq!(frame_timeout(given.unwrap().unwrap()), Some(limit));
    let given = sending.tcp_finished(&mut caches, TcpOutcome::Answered(response(1)), at(1));
    assert_eq!(frame_timeout(given.unwrap()), Some(limit));
    let sending: Sending<()> = client.get("https://example.com/").send().unwrap();
    let given = sending.tcp_finished(&mut caches, TcpOutcome::Answered(response(1)), at(1));
    assert_eq!(frame_timeout(given.unwrap()), None);
}

fn answer(value: &'static str) -> TcpOutcome<()> {
    let mut headers = HeaderMap::new();
    headers.insert("alt-svc", HeaderValue::from_static(value));
    let status = StatusCode::INTERNAL_SERVER_ERROR;
    TcpOutcome::Answered(Response::new(status, http::Version::HTTP_2, headers, ()))
}

#[test]
fn offered_alternative_is_tried_next() {
    let mut caches = Http3Caches::new();
    let sending = sending("https://example.com/");
    let answered = answer(r#"h3=":8443"; ma=60"#);
    let response = sending.tcp_finished(&mut caches, answered, at(10)).unwrap();
    assert_eq!(response.status(), StatusCode::INTERNAL_SERVER_ERROR);
    assert_eq!(target(&start(&mut caches, at(69))).1, 8443);
    sending.tcp_finished(&mut caches, answer("h2=\":1\""), at(11)).unwrap();
    assert!(caches.alt_svc.contains_key(&origin()));
    sending.tcp_finished(&mut caches, answer("clear"), at(12)).unwrap();
    assert!(matches!(start(&mut caches, at(13)).action(), Http3Action::LookUp));
}

#[test]
fn alternative_of_a_plain_origin_is_ignored() {
    let mut caches = Http3Caches::new();
    let sending = sending("http://example.com/");
    sending.tcp_finished(&mut caches, answer(r#"h3=":8443""#), at(10)).unwrap();
    let plain = Origin { host: "example.com".to_owned(), port: 80 };
    assert!(!caches.alt_svc.contains_key(&plain));
    assert!(!caches.alt_svc.contains_key(&origin()));
}

#[test]
fn failed_tcp_request_is_classified() {
    let mut caches = Http3Caches::new();
    let text = "client error (Connect)";
    let outcome: TcpOutcome<()> = TcpOutcome::Failed(failure(true, false, text, &[]));
    let result = sending("http://example.com/").tcp_finished(&mut caches, outcome, at(10));
    assert!(matches!(result, Err(Error::Unreachable(message)) if message == text));
}
