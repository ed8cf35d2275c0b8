use bytes::Bytes;
use mechanics_http_client::body::RequestPayload;
use mechanics_http_client::request::Sending;
use mechanics_http_client::time::Duration;
use mechanics_http_client::{
    Client, Error, HeaderMap, HeaderName, HeaderValue, Method, RequestBuilder, Response,
};

fn get(url: &str) -> RequestBuilder<Vec<u8>> {
    Client::new().unwrap().get(url)
}

fn sent(builder: RequestBuilder<Vec<u8>>) -> Sending<Vec<u8>> {
    builder.send().unwrap()
}

fn values(sending: &Sending<Vec<u8>>, name: &str) -> Vec<String> {
    let all = sending.head.headers.get_all(name).iter();
    all.map(|v| v.to_str().unwrap().to_owned()).collect()
}

#[test]
fn http_scheme_only_url_is_rejected() {
    let err = get("ftp://example.com/").send().expect_err("must reject non-http scheme");
    assert!(matches!(err, Error::InvalidUrl(_)), "got {err:?}");
    let Error::InvalidUrl(message) = err else {
        panic!("expected InvalidUrl");
    };
    assert_eq!(message, "unsupported scheme `ftp` in `ftp://example.com/`");
}

#[test]
fn url_that_does_not_parse_is_rejected() {
    let url = "https://exa mple/";
    let detail = url.parse::<http::Uri>().unwrap_err().to_string();
    match get(url).send() {
        Err(Error::InvalidUrl(message)) => {
            assert_eq!(message, format!("could not parse `{url}`: {detail}"));
        }
        other => panic!("expected InvalidUrl, got {other:?}"),
    }
    match get("/relative").send() {
        Err(Error::InvalidUrl(message)) => {
            assert_eq!(message, "unsupported scheme `` in `/relative`");
        }
        other => panic!("expected InvalidUrl, got {other:?}"),
    }
}

#[test]
fn methods() {
    let client = Client::new().unwrap();
    let url = "https://example.com/";
    assert_eq!(sent(client.get(url)).head.method.as_str(), "GET");
    assert_eq!(sent(client.post(url)).head.method.as_str(), "POST");
    assert_eq!(sent(client.put(url)).head.method.as_str(), "PUT");
    assert_eq!(sent(client.patch(url)).head.method.as_str(), "PATCH");
    assert_eq!(sent(client.delete(url)).head.method.as_str(), "DELETE");
    assert_eq!(sent(client.head(url)).head.method.as_str(), "HEAD");
    let options = Method::parse("OPTIONS").unwrap();
    assert_eq!(sent(client.request(options, url)).head.method.as_str(), "OPTIONS");
}

#[test]
fn headers_and_bearer_token_are_sent() {
    let builder = get("https://example.com/")
        .bearer_auth("t0ken")
        .header("X-Custom", "v")
        .header("x-custom", "w");
    let sending = sent(builder);
    assert_eq!(values(&sending, "authorization"), vec!["Bearer t0ken"]);
    assert_eq!(values(&sending, "x-custom"), vec!["v", "w"]);
    assert_eq!(sending.head.uri.url(), "https://example.com/");
}

#[test]
fn request_headers_override_defaults_by_name() {
    let mut defaults = HeaderMap::new();
    defaults.append("x-a", HeaderValue::from_static("1"));
    defaults.append("x-a", HeaderValue::from_static("2"));
    defaults.append("x-b", HeaderValue::from_static("3"));
    defaults.append("x-b", HeaderValue::from_static("4"));
    let client = Client::builder()
        .default_headers(defaults)
        .user_agent("default")
        .build()
        .unwrap();
    let builder = client.get("https://example.com/");
    let sending = sent(builder.header("x-a", "5").header("x-a", "6").header("x-c", "7"));
    assert_eq!(values(&sending, "x-a"), vec!["5", "6"]);
    assert_eq!(values(&sending, "x-b"), vec!["3", "4"]);
    assert_eq!(values(&sending, "x-c"), vec!["7"]);
    assert_eq!(values(&sending, "user-agent"), vec!["default"]);
    assert_eq!(sending.head.headers.len(), 6);
    let sending = sent(client.get("https://example.com/").header("User-Agent", "own"));
    assert_eq!(values(&sending, "user-agent"), vec!["own"]);
}

#[test]
fn timeouts() {
    let client = Client::builder().timeout(Duration::from_secs(10)).build().unwrap();
    let default: RequestBuilder<Vec<u8>> = client.get("https://example.com/");
    assert_eq!(sent(default).timeout, Some(Duration::from_secs(10)));
    let own = client.get("https://example.com/").timeout(Duration::from_secs(1));
    assert_eq!(sent(own).timeout, Some(Duration::from_secs(1)));
    assert_eq!(sent(get("https://example.com/")).timeout, None);
}

#[test]
fn json_sets_body_and_content_type() {
    let text = serde_json::to_vec(&vec![1, 2]).unwrap();
    let sending = sent(get("https://example.com/").json(Ok(text)));
    assert_eq!(values(&sending, "content-type"), vec!["application/json"]);
    assert!(matches!(sending.body, RequestPayload::Replayable(bytes) if bytes == "[1,2]"));
    let builder = get("https://example.com/").header("Content-Type", "text/x");
    let sending = sent(builder.json(Ok(Vec::new())));
    assert_eq!(values(&sending, "content-type"), vec!["text/x"]);
}

#[test]
fn json_that_cannot_be_written_is_reported() {
    match get("https://example.com/").json(Err("bad key".to_owned())).send() {
        Err(Error::SerializeJson(detail)) => assert_eq!(detail, "bad key"),
        other => panic!("expected SerializeJson, got {other:?}"),
    }
}

#[test]
fn invalid_headers_are_reported_by_send() {
    let message = |builder: RequestBuilder<Vec<u8>>| match builder.send() {
        Err(Error::InvalidHeader(message)) => message,
        other => panic!("expected InvalidHeader, got {other:?}"),
    };
    let url = "https://example.com/";
    assert_eq!(message(get(url).header("a b", "1")), "header name rejected");
    assert_eq!(message(get(url).header("X-A", "\n")), "header `x-a` value rejected");
    assert_eq!(message(get(url).bearer_auth("\r")), "header `authorization` value rejected");
    assert_eq!(message(get(url).header_value(None, None)), "header name rejected");
    let builder = get("ftp://x/").header("", "1").header("x", "\n").json(Err("late".to_owned()));
    assert_eq!(message(builder.header("fine", "1")), "header name rejected");
}

#[test]
fn http3_is_for_https_and_bodies_that_can_be_sent_again() {
    let sending = sent(get("https://example.com/"));
    let (origin, body) = sending.http3.unwrap();
    assert_eq!((origin.host.as_str(), origin.port), ("example.com", 443));
    assert!(body.is_none());

    let sending = sent(get("https://example.com:8443/").body(Bytes::from_static(b"b")));
    let (origin, body) = sending.http3.unwrap();
    assert_eq!(origin.port, 8443);
    assert_eq!(body.unwrap(), "b");

    assert!(sent(get("http://example.com/")).http3.is_none());
    let streaming = sent(get("https://example.com/").body_streaming(vec![1]));
    assert!(streaming.http3.is_none());
    assert!(matches!(streaming.body, RequestPayload::Streaming(body) if body == vec![1]));
    let client = Client::builder().http3(false).build().unwrap();
    assert!(sent(client.get("https://example.com/")).http3.is_none());
}

#[test]
fn method_names_are_tokens() {
    for name in ["GET", "POST", "PUT", "PATCH", "DELETE", "HEAD", "OPTIONS", "x-y!", "get"] {
        assert_eq!(Method::parse(name).unwrap().as_str(), name);
        assert!(http::Method::from_bytes(name.as_bytes()).is_ok());
    }
    assert_eq!(Method::parse("DELETE"), Some(Method::Delete));
    assert!(matches!(Method::parse("get"), Some(Method::Other(_))));
    for n in 0..256u32 {
        let name = char::from_u32(n).unwrap().to_string();
        assert_eq!(
            Method::parse(&name).is_some(),
            http::Method::from_bytes(name.as_bytes()).is_ok(),
            "{n}"
        );
    }
    assert_eq!(Method::parse(""), None);
}

fn numbered(count: usize) -> HeaderMap {
    let mut headers = HeaderMap::new();
    for i in 0..count {
        let name = HeaderName::from_bytes(format!("x-{i}").as_bytes()).unwrap();
        headers.insert(name, HeaderValue::from_static("1"));
    }
    headers
}

#[test]
fn many_headers_that_override_each_other_fit() {
    let client = Client::builder().default_headers(numbered(4_000)).build().unwrap();
    let mut builder: RequestBuilder<Vec<u8>> = client.get("https://example.com/");
    for i in 0..4_000 {
        builder = builder.header(&format!("x-{i}"), "2");
    }
    let sending = builder.send().unwrap();
    assert_eq!(sending.head.headers.len(), 4_000);
    assert_eq!(values(&sending, "x-3999"), vec!["2"]);
}

#[test]
fn headers_past_the_bound_are_taken_while_the_map_takes_them() {
    let client = Client::builder().default_headers(numbered(10_000)).build().unwrap();
    let builder: RequestBuilder<Vec<u8>> = client.get("https://example.com/");
    let builder = builder.try_header("y", "1").unwrap().try_bearer_auth("t").unwrap();
    let builder = builder.try_json(Ok(b"1".to_vec())).unwrap();
    let sending = builder.try_send().unwrap().unwrap();
    assert_eq!(sending.head.headers.len(), 10_003);
}

#[test]
fn full_map_is_told() {
    let client = Client::builder().default_headers(numbered(24_576)).build().unwrap();
    let builder: RequestBuilder<Vec<u8>> = client.get("https://example.com/");
    assert!(builder.has_room());
    let builder = builder.try_header("y", "1").unwrap();
    assert!(builder.try_send().is_none());
    let builder: RequestBuilder<Vec<u8>> = client.get("ftp://example.com/");
    assert!(builder.header("y", "1").try_send().unwrap().is_err());
}

#[test]
fn request_that_takes_no_more_headers_is_given_back() {
    let client = Client::new().unwrap();
    let mut builder: RequestBuilder<Vec<u8>> = client.get("https://example.com/");
    let mut taken = 0;
    let full = loop {
        match builder.try_header(&format!("x-{taken}"), "1") {
            Ok(more) => {
                builder = more;
                taken += 1;
            }
            Err(full) => break full,
        }
    };
    assert!(taken > 6_553);
    assert!(!full.has_room());
    let full = full.try_bearer_auth("t").unwrap_err();
    let full = full.try_json(Ok(Vec::new())).unwrap_err();
    let full = full.try_json(Err("why".to_owned())).unwrap();
    assert!(matches!(full.try_send(), Some(Err(Error::SerializeJson(_)))));
}

#[test]
fn post_json_round_trips_with_bearer_auth_and_custom_header() {
    let mut question = serde_json::Map::new();
    question.insert("q".to_owned(), serde_json::Value::from(1));
    let client = Client::new().expect("client");
    let builder: RequestBuilder<Vec<u8>> = client
        .post("http://localhost/echo")
        .bearer_auth("t0ken")
        .header("X-Custom", "v")
        .json(serde_json::to_vec(&question).map_err(|error| error.to_string()));
    let sending = builder.send().expect("send");
    assert_eq!(sending.head.method.as_str(), "POST");
    assert_eq!(values(&sending, "Authorization"), vec!["Bearer t0ken"]);
    assert_eq!(values(&sending, "X-Custom"), vec!["v"]);
    assert_eq!(values(&sending, "content-type"), vec!["application/json"]);
    assert!(matches!(sending.body, RequestPayload::Replayable(bytes) if bytes == r#"{"q":1}"#));

    let reply = br#"{"ok":true}"#;
    let parsed = serde_json::from_slice::<serde_json::Value>(reply);
    let value = Response::<()>::json(Ok(parsed.map_err(|error| error.to_string()))).expect("json");
    let mut answer = serde_json::Map::new();
    answer.insert("ok".to_owned(), serde_json::Value::from(true));
    assert_eq!(value, serde_json::Value::Object(answer));
}
