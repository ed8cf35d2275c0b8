use bytes::Bytes;
use mechanics_http_client::http3::{
    first_socket_addr, h3_transport_settings, hinted_socket_addr,
    stream_error_after_request_started, H3BodyAction, H3Phase, H3ReadOutcome, H3ResponseBody,
    H3ResponseBodyState, Http3AttemptError, PhaseOutcome,
};
use mechanics_http_client::https_rr::{IpAddr, SocketAddr};
use mechanics_http_client::time::Duration;
use mechanics_http_client::Error;

const ALL: [H3Phase; 8] = [
    H3Phase::OpenEndpoint,
    H3Phase::ResolveAddress,
    H3Phase::Connect,
    H3Phase::SetUp,
    H3Phase::OpenStream,
    H3Phase::SendBody,
    H3Phase::Finish,
    H3Phase::ReceiveHead,
];

fn run(has_body: bool) -> Vec<H3Phase> {
    let mut phases = vec![H3Phase::OpenEndpoint];
    while let Some(next) =
        phases[phases.len() - 1].next(has_body, PhaseOutcome::Done).expect("done")
    {
        phases.push(next);
    }
    phases
}

#[test]
fn phases_in_order() {
    assert_eq!(run(true), ALL);
    let without_body: Vec<H3Phase> =
        ALL.into_iter().filter(|phase| *phase != H3Phase::SendBody).collect();
    assert_eq!(run(false), without_body);
}

#[test]
fn time_limits() {
    let millis = |n| Some(Duration::from_millis(n));
    let limits: Vec<Option<Duration>> = ALL.into_iter().map(|phase| phase.timeout()).collect();
    let expected = vec![
        None,
        millis(150),
        millis(500),
        millis(500),
        millis(150),
        millis(500),
        millis(500),
        None,
    ];
    assert_eq!(limits, expected);
}

#[test]
fn handshake_failures_tell_why() {
    let message = |phase: H3Phase, outcome| match phase.next(true, outcome) {
        Err(Http3AttemptError::Handshake(message)) => message,
        other => panic!("expected Handshake, got {other:?}"),
    };
    for phase in &ALL[..4] {
        assert_eq!(message(*phase, PhaseOutcome::Failed("why".to_owned())), "why");
    }
    assert_eq!(
        message(H3Phase::ResolveAddress, PhaseOutcome::TimedOut),
        "HTTP/3 DNS lookup timed out after 150ms"
    );
    assert_eq!(
        message(H3Phase::Connect, PhaseOutcome::TimedOut),
        "HTTP/3 connect timed out after 500ms"
    );
    assert_eq!(
        message(H3Phase::SetUp, PhaseOutcome::TimedOut),
        "HTTP/3 setup timed out after 500ms"
    );
}

#[test]
fn only_opening_a_stream_may_be_retried() {
    let retry = |phase: H3Phase, outcome| match phase.next(true, outcome) {
        Err(Http3AttemptError::Stream { retry_without_h3 }) => retry_without_h3,
        other => panic!("expected Stream, got {other:?}"),
    };
    assert!(retry(H3Phase::OpenStream, PhaseOutcome::TimedOut));
    assert!(retry(H3Phase::OpenStream, PhaseOutcome::Failed(String::new())));
    assert!(!retry(H3Phase::SendBody, PhaseOutcome::TimedOut));
    assert!(!retry(H3Phase::Finish, PhaseOutcome::TimedOut));
    for phase in &ALL[5..] {
        assert!(!retry(*phase, PhaseOutcome::Failed(String::new())));
    }
    assert!(matches!(
        stream_error_after_request_started(),
        Http3AttemptError::Stream { retry_without_h3: false }
    ));
}

#[test]
fn first_address_is_taken() {
    let hints = vec![IpAddr::V4(0x7f00_0001), IpAddr::V6(1)];
    let first = SocketAddr { ip: IpAddr::V4(0x7f00_0001), port: 8443 };
    assert_eq!(hinted_socket_addr(&hints, 8443), Some(first));
    assert_eq!(hinted_socket_addr(&Vec::new(), 8443), None);
    let second = SocketAddr { ip: IpAddr::V6(1), port: 8443 };
    assert_eq!(first_socket_addr("h", 8443, &vec![second, first]), Ok(second));
    assert_eq!(
        first_socket_addr("a.example", 8443, &Vec::new()),
        Err("no socket addresses for a.example:8443".to_owned())
    );
}

type State = H3ResponseBodyState<&'static str, u8>;

#[test]
fn body_is_read_chunk_by_chunk() {
    let mut state = State::new("stream");
    assert!(matches!(state.next_action(), H3BodyAction::Start("stream")));
    state.started(1);
    assert!(matches!(state.next_action(), H3BodyAction::Wait));
    let chunk = H3ReadOutcome::Chunk(Bytes::from_static(b"hello from h3"));
    assert_eq!(state.finished("stream", chunk).unwrap().unwrap(), "hello from h3");
    assert!(matches!(state.next_action(), H3BodyAction::Start("stream")));
    state.started(2);
    assert!(state.finished("stream", H3ReadOutcome::End).is_none());
    for _ in 0..3 {
        assert!(matches!(state.next_action(), H3BodyAction::End));
    }
}

#[test]
fn body_ends_after_a_failure() {
    let mut state = State::new("stream");
    state.next_action();
    state.started(1);
    let failure = H3ReadOutcome::Failed("reset".to_owned());
    match state.finished("stream", failure) {
        Some(Err(Error::Cancelled(message))) => assert_eq!(message, "reset"),
        other => panic!("expected Cancelled, got {other:?}"),
    }
    assert!(matches!(state.next_action(), H3BodyAction::End));
}

#[test]
fn stream_that_was_taken_is_not_there() {
    let mut state = State::new("stream");
    state.next_action();
    assert!(matches!(state.next_action(), H3BodyAction::End));
}

#[test]
fn only_an_idle_stream_is_cancelled() {
    let mut state = State::new("stream");
    assert_eq!(state.abandon(), Some("stream"));
    assert_eq!(state.abandon(), None);
    let mut state = State::new("stream");
    state.next_action();
    state.started(1);
    assert_eq!(state.abandon(), None);
}

/// Asks a body for items until `count` are there, and answers its reads.
fn items(
    body: &mut H3ResponseBody<u32, (), &'static str>,
    reads: Vec<H3ReadOutcome>,
    count: usize,
) -> (Vec<Option<mechanics_http_client::Result<Bytes>>>, usize) {
    let mut reads = reads.into_iter();
    let mut made = 0;
    let mut items = Vec::new();
    while items.len() < count {
        match body.next_action() {
            H3BodyAction::Start(stream) => {
                body.started(());
                assert!(matches!(body.next_action(), H3BodyAction::Wait));
                assert!(body.reading().is_some());
                made += 1;
                items.push(body.finished(stream + 1, reads.next().expect("a read")));
            }
            H3BodyAction::Wait => panic!("nothing is read"),
            H3BodyAction::End => items.push(None),
        }
    }
    (items, made)
}

fn chunk(text: &'static str) -> H3ReadOutcome {
    H3ReadOutcome::Chunk(Bytes::from_static(text.as_bytes()))
}

#[test]
fn body_gives_what_is_read_and_then_its_end() {
    let mut body = H3ResponseBody::new(0, "sender");
    let reads = vec![chunk("a"), chunk(""), chunk("bc"), H3ReadOutcome::End];
    let (items, made) = items(&mut body, reads, 6);
    assert_eq!(made, 4);
    let texts: Vec<Option<Bytes>> =
        items.into_iter().map(|item| item.map(|item| item.unwrap())).collect();
    let given = |text: &'static str| Some(Bytes::from_static(text.as_bytes()));
    assert_eq!(texts, vec![given("a"), given(""), given("bc"), None, None, None]);
    assert_eq!(body.abandon(), None);
}

#[test]
fn body_gives_what_is_read_and_then_the_failure_once() {
    let mut body = H3ResponseBody::new(0, "sender");
    let reads = vec![chunk("a"), H3ReadOutcome::Failed("reset".to_owned())];
    let (items, made) = items(&mut body, reads, 4);
    assert_eq!(made, 2);
    assert!(matches!(&items[0], Some(Ok(bytes)) if *bytes == "a"));
    assert!(matches!(&items[1], Some(Err(Error::Cancelled(message))) if message == "reset"));
    assert!(items[2].is_none() && items[3].is_none());
}

#[test]
fn body_that_is_given_up_hands_its_stream_out() {
    let mut body: H3ResponseBody<u32, (), &str> = H3ResponseBody::new(7, "sender");
    assert!(body.reading().is_none());
    assert_eq!(body.abandon(), Some(7));
}

#[test]
fn connections_are_kept_up() {
    let settings = h3_transport_settings();
    assert_eq!(settings.keep_alive, Duration::from_secs(15));
    assert_eq!(settings.max_idle, Duration::from_secs(120));
}
