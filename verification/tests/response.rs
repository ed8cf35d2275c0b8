use std::io::Write;

use bytes::Bytes;
use mechanics_http_client::response::{
    classify_body_error, decompress, finish_decoding, finish_text, map_hyper_body_error,
    parse_coding, BodyEvent, BodyRead, BodyReader, BodyStep, Coding, ResponseBody,
};
use mechanics_http_client::time::Duration;
use mechanics_http_client::{Error, HeaderMap, HeaderValue, Response, Result, StatusCode};

fn headers(pairs: &[(&'static str, &'static str)]) -> HeaderMap {
    let mut map = HeaderMap::new();
    for (name, value) in pairs {
        map.append(*name, HeaderValue::from_static(value));
    }
    map
}

fn streamed(pairs: &[(&'static str, &'static str)]) -> Response<&'static str> {
    Response::new(StatusCode::OK, http::Version::HTTP_11, headers(pairs), "the stream")
}

fn buffered(pairs: &[(&'static str, &'static str)], body: &[u8]) -> Response<&'static str> {
    let body = Bytes::copy_from_slice(body);
    Response::new_buffered(StatusCode::OK, http::Version::HTTP_3, headers(pairs), body)
}

fn feed(reader: BodyReader, events: Vec<BodyEvent>) -> BodyStep {
    let mut step = BodyStep::Continue(reader);
    for event in events {
        step = match step {
            BodyStep::Continue(reader) => reader.step(event),
            finished => finished,
        };
    }
    step
}

fn data(bytes: &[u8]) -> BodyEvent {
    BodyEvent::Data(Bytes::copy_from_slice(bytes))
}

fn finished(step: BodyStep) -> Result<Bytes> {
    match step {
        BodyStep::Finished(r) => r,
        BodyStep::Continue(reader) => panic!("not finished: {reader:?}"),
    }
}

fn reader(limit: usize) -> BodyReader {
    BodyReader::new(None, limit, None)
}

fn gzip(bytes: &[u8]) -> Vec<u8> {
    let mut encoder = flate2::write::GzEncoder::new(Vec::new(), flate2::Compression::default());
    encoder.write_all(bytes).unwrap();
    encoder.finish().unwrap()
}

fn zlib(bytes: &[u8]) -> Vec<u8> {
    let mut encoder = flate2::write::ZlibEncoder::new(Vec::new(), flate2::Compression::default());
    encoder.write_all(bytes).unwrap();
    encoder.finish().unwrap()
}

fn brotli(bytes: &[u8]) -> Vec<u8> {
    let mut out = Vec::new();
    let mut encoder = brotli::CompressorWriter::new(&mut out, 4096, 5, 22);
    encoder.write_all(bytes).unwrap();
    drop(encoder);
    out
}

fn decode_message(r: Result<Bytes>) -> String {
    match r {
        Err(Error::Decode(message)) => message,
        other => panic!("expected Decode, got {other:?}"),
    }
}

#[test]
fn head_of_a_response() {
    let response = Response::new(
        StatusCode::NOT_FOUND,
        http::Version::HTTP_2,
        headers(&[("x-a", "1")]),
        (),
    );
    assert_eq!(response.status(), StatusCode::NOT_FOUND);
    assert_eq!(response.version(), http::Version::HTTP_2);
    assert_eq!(response.headers().get("x-a").unwrap(), "1");
}

#[test]
fn content_length() {
    assert_eq!(streamed(&[]).content_length(), None);
    assert_eq!(streamed(&[("content-length", " 42\t")]).content_length(), Some(42));
    let largest = streamed(&[("content-length", "18446744073709551615")]);
    assert_eq!(largest.content_length(), Some(u64::MAX));
    assert_eq!(streamed(&[("content-length", "18446744073709551616")]).content_length(), None);
    assert_eq!(streamed(&[("content-length", "x")]).content_length(), None);
}

#[test]
fn bytes_with_cap_rejects_oversize_body() {
    let BodyRead::Stream(body, reader) = streamed(&[]).bytes_with_cap(128).unwrap() else {
        panic!("expected a stream");
    };
    assert_eq!(body, "the stream");
    let big_body = "x".repeat(1024);
    match finished(feed(reader, vec![data(big_body.as_bytes()), BodyEvent::End])) {
        Err(Error::BodyTooLarge { limit: 128, seen: 0 }) => {}
        other => panic!("expected BodyTooLarge, got {other:?}"),
    }
}

#[test]
fn get_returns_status_and_text() {
    let response = streamed(&[]);
    assert_eq!(response.status(), StatusCode::OK);
    let BodyRead::Stream(_, reader) = response.bytes().unwrap() else {
        panic!("expected a stream");
    };
    let events = vec![data(b"hello world"), BodyEvent::End];
    let read = finished(feed(reader, events));
    let body = Response::<()>::text(read).expect("text");
    assert_eq!(body, "hello world");
}

#[test]
fn frames_may_take_as_long_as_the_response_says() {
    let limit = Some(Duration::from_millis(50));
    match streamed(&[]).with_frame_timeout(limit).bytes_with_cap(9).unwrap() {
        BodyRead::Stream(_, reader) => {
            assert_eq!(reader.frame_timeout(), limit);
            match reader.step(data(b"abc")) {
                BodyStep::Continue(reader) => assert_eq!(reader.frame_timeout(), limit),
                other => panic!("expected more to come, got {other:?}"),
            }
        }
        other => panic!("expected a stream, got {other:?}"),
    }
    match streamed(&[]).bytes().unwrap() {
        BodyRead::Stream(_, reader) => assert_eq!(reader.frame_timeout(), None),
        other => panic!("expected a stream, got {other:?}"),
    }
}

#[test]
fn reading_ends_once() {
    let events = vec![data(b"abc"), BodyEvent::TimedOut, data(b"de"), BodyEvent::End];
    assert!(matches!(finished(feed(reader(5), events)), Err(Error::Timeout)));
}

#[test]
fn cap_is_on_the_sum_of_the_frames() {
    let exact = vec![data(b"abc"), data(b"de"), BodyEvent::Other, BodyEvent::End];
    assert_eq!(finished(feed(reader(5), exact)).unwrap(), "abcde");
    let over = vec![data(b"abc"), data(b"def"), BodyEvent::End];
    match finished(feed(reader(5), over)) {
        Err(Error::BodyTooLarge { limit: 5, seen: 3 }) => {}
        other => panic!("expected BodyTooLarge, got {other:?}"),
    }
    assert_eq!(finished(feed(reader(0), vec![BodyEvent::End])).unwrap(), "");
    match feed(reader(9), vec![data(b"abc"), BodyEvent::Other]) {
        BodyStep::Continue(reader) => assert_eq!(reader.buffered_len(), 3),
        other => panic!("expected more to come, got {other:?}"),
    }
}

#[test]
fn cap_of_a_body_that_has_arrived() {
    match buffered(&[], b"abcde").bytes_with_cap(5).unwrap() {
        BodyRead::Complete(bytes) => assert_eq!(bytes, "abcde"),
        other => panic!("expected the bytes, got {other:?}"),
    }
    match buffered(&[], b"abcde").bytes_with_cap(4) {
        Err(Error::BodyTooLarge { limit: 4, seen: 4 }) => {}
        other => panic!("expected BodyTooLarge, got {other:?}"),
    }
}

#[test]
fn small_body_may_decode_past_the_cap() {
    let body = gzip(&[b'x'; 10_000]);
    assert!(body.len() < 100);
    let BodyRead::Stream(_, reader) =
        streamed(&[("content-encoding", "gzip")]).bytes_with_cap(100).unwrap()
    else {
        panic!("expected a stream");
    };
    let read = finished(feed(reader, vec![data(&body), BodyEvent::End])).unwrap();
    assert_eq!(read.len(), 10_000);
}

#[test]
fn failures_of_reading() {
    let fail = |message: &str| finished(reader(9).step(BodyEvent::Failed(message.to_owned())));
    match fail("operation was Canceled") {
        Err(Error::Cancelled(message)) => assert_eq!(message, "operation was Canceled"),
        other => panic!("expected Cancelled, got {other:?}"),
    }
    match fail("STREAM CANCELLED") {
        Err(Error::Cancelled(message)) => assert_eq!(message, "STREAM CANCELLED"),
        other => panic!("expected Cancelled, got {other:?}"),
    }
    match fail("connection reset") {
        Err(Error::Unreachable(message)) => assert_eq!(message, "connection reset"),
        other => panic!("expected Unreachable, got {other:?}"),
    }
    assert!(matches!(finished(reader(9).step(BodyEvent::TimedOut)), Err(Error::Timeout)));
    let error = Error::Cancelled("peer".to_owned());
    match finished(reader(9).step(BodyEvent::Http3Failed(error))) {
        Err(Error::Cancelled(message)) => assert_eq!(message, "peer"),
        other => panic!("expected Cancelled, got {other:?}"),
    }
}

#[test]
fn body_errors_are_classified_in_lower_case() {
    assert!(matches!(map_hyper_body_error("CANCELED É".to_owned()), Error::Cancelled(_)));
    assert!(matches!(map_hyper_body_error("Σ\u{130}CanCelledΣ".to_owned()), Error::Cancelled(_)));
    assert!(matches!(map_hyper_body_error("cancel".to_owned()), Error::Unreachable(_)));
    let error = classify_body_error("A".to_owned(), "was cancelled");
    assert!(matches!(error, Error::Cancelled(message) if message == "A"));
    let error = classify_body_error("CANCELED".to_owned(), "something else");
    assert!(matches!(error, Error::Unreachable(message) if message == "CANCELED"));
}

#[test]
fn codings() {
    assert_eq!(parse_coding(""), Some(Coding::Identity));
    assert_eq!(parse_coding("identity"), Some(Coding::Identity));
    assert_eq!(parse_coding("gzip"), Some(Coding::Gzip));
    assert_eq!(parse_coding("x-gzip"), Some(Coding::Gzip));
    assert_eq!(parse_coding("deflate"), Some(Coding::Deflate));
    assert_eq!(parse_coding("br"), Some(Coding::Brotli));
    assert_eq!(parse_coding("GZIP"), None);
    assert_eq!(parse_coding("zstd"), None);
}

#[test]
fn decodes_each_coding() {
    let plain = b"some text, some text, some text";
    let decode = |encoding: Option<&str>, body: Vec<u8>| decompress(encoding, Bytes::from(body));
    assert_eq!(decode(None, plain.to_vec()).unwrap(), &plain[..]);
    assert_eq!(decode(Some(" "), plain.to_vec()).unwrap(), &plain[..]);
    assert_eq!(decode(Some("Identity"), plain.to_vec()).unwrap(), &plain[..]);
    assert_eq!(decode(Some(" GZip "), gzip(plain)).unwrap(), &plain[..]);
    assert_eq!(decode(Some("x-gzip"), gzip(plain)).unwrap(), &plain[..]);
    assert_eq!(decode(Some("deflate"), zlib(plain)).unwrap(), &plain[..]);
    assert_eq!(decode(Some("BR"), brotli(plain)).unwrap(), &plain[..]);
}

#[test]
fn decoding_failures() {
    let junk = || Bytes::from_static(b"\x00not compressed");
    assert!(decode_message(decompress(Some("gzip"), junk())).starts_with("gzip decode: "));
    assert!(decode_message(decompress(Some("deflate"), junk())).starts_with("deflate decode: "));
    assert!(decode_message(decompress(Some("br"), junk())).starts_with("brotli decode: "));
    assert_eq!(
        decode_message(decompress(Some(" ZStd"), junk())),
        "unsupported Content-Encoding `zstd`"
    );
    assert_eq!(decode_message(finish_decoding("label: ", Err("why".to_owned()))), "label: why");
    assert_eq!(finish_decoding("label: ", Ok(vec![7])).unwrap(), &[7u8][..]);
}

#[test]
fn content_encoding_header_decides() {
    let body = brotli(b"hello");
    match buffered(&[("content-encoding", "br")], &body).bytes().unwrap() {
        BodyRead::Complete(bytes) => assert_eq!(bytes, "hello"),
        other => panic!("expected the bytes, got {other:?}"),
    }
    match buffered(&[("content-encoding", "br")], &body).into_body() {
        ResponseBody::Buffered(bytes) => assert_eq!(bytes, body),
        other => panic!("expected the raw body, got {other:?}"),
    }
    match streamed(&[("content-encoding", "br")]).into_body() {
        ResponseBody::Streamed(stream) => assert_eq!(stream, "the stream"),
        other => panic!("expected the stream, got {other:?}"),
    }
}

#[test]
fn text_has_to_be_utf8() {
    let text = Response::<()>::text(Ok(Bytes::from("h\u{e9}llo"))).unwrap();
    assert_eq!(text, "h\u{e9}llo");
    let detail = String::from_utf8(vec![b'a', 0xff]).unwrap_err().to_string();
    match Response::<()>::text(Ok(Bytes::from_static(b"a\xff"))) {
        Err(Error::Decode(message)) => {
            assert_eq!(message, format!("response body is not valid UTF-8: {detail}"));
        }
        other => panic!("expected Decode, got {other:?}"),
    }
    assert!(matches!(Response::<()>::text(Err(Error::Timeout)), Err(Error::Timeout)));
    assert_eq!(finish_text(Ok("t".to_owned())).unwrap(), "t");
    match finish_text(Err("why".to_owned())) {
        Err(Error::Decode(message)) => {
            assert_eq!(message, "response body is not valid UTF-8: why");
        }
        other => panic!("expected Decode, got {other:?}"),
    }
}

#[test]
fn json_outcomes() {
    let parse = |bytes: &[u8]| {
        serde_json::from_slice::<Vec<u8>>(bytes).map_err(|error| error.to_string())
    };
    assert_eq!(Response::<()>::json(Ok(parse(b"[1]"))).unwrap(), vec![1]);
    let detail = parse(b"[").unwrap_err();
    match Response::<()>::json(Ok(parse(b"["))) {
        Err(Error::Decode(message)) => {
            assert_eq!(message, format!("response body is not valid JSON: {detail}"));
        }
        other => panic!("expected Decode, got {other:?}"),
    }
    let failed = Response::<()>::json::<u8>(Err(Error::Timeout));
    assert!(matches!(failed, Err(Error::Timeout)));
}
