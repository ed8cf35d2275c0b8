use mechanics_http_client::time::Duration;
use mechanics_http_client::{Client, ClientBuilder, Error, HeaderMap, HeaderName, HeaderValue};

#[test]
fn default_settings() {
    let client = Client::new().unwrap();
    assert_eq!(client.default_timeout(), None);
    assert!(client.default_headers().is_empty());
    assert_eq!(client.pool_max_idle_per_host(), None);
    assert_eq!(client.pool_idle_timeout(), None);
    assert!(client.http3_enabled());
    assert_eq!(client.http3_negative_cache_duration(), Duration::from_secs(5 * 60));
}

#[test]
fn settings_are_kept_and_shared_by_clones() {
    let client = Client::builder()
        .timeout(Duration::from_millis(50))
        .pool_max_idle_per_host(0)
        .pool_idle_timeout(Duration::from_secs(9))
        .http3(false)
        .http3_negative_cache_duration(Duration::new(1, 5))
        .user_agent("my-app/1.0")
        .default_header("X-A", "1")
        .default_header("x-a", "2")
        .build()
        .unwrap()
        .clone();
    assert_eq!(client.default_timeout(), Some(Duration::from_millis(50)));
    assert_eq!(client.pool_max_idle_per_host(), Some(0));
    assert_eq!(client.pool_idle_timeout(), Some(Duration::from_secs(9)));
    assert!(!client.http3_enabled());
    assert_eq!(client.http3_negative_cache_duration().as_nanos(), 1_000_000_005);
    let headers = client.default_headers();
    assert_eq!(headers.get("user-agent").unwrap(), "my-app/1.0");
    let values: Vec<_> = headers.get_all("x-a").iter().collect();
    assert_eq!(values, vec!["2"]);
}

#[test]
fn default_headers_replace_what_was_set() {
    let mut headers = HeaderMap::new();
    headers.append("x-b", HeaderValue::from_static("3"));
    let client = ClientBuilder::new()
        .default_header("x-a", "1")
        .default_headers(headers)
        .build()
        .unwrap();
    assert!(!client.default_headers().contains_key("x-a"));
    assert_eq!(client.default_headers().get("x-b").unwrap(), "3");
}

fn message(r: mechanics_http_client::Result<Client>) -> String {
    match r {
        Err(Error::InvalidHeader(message)) => message,
        other => panic!("expected InvalidHeader, got {other:?}"),
    }
}

#[test]
fn invalid_headers_are_reported_by_build() {
    assert_eq!(
        message(ClientBuilder::new().user_agent("a\nb").build()),
        "User-Agent value rejected"
    );
    assert_eq!(
        message(ClientBuilder::new().default_header("a b", "1").build()),
        "default header name rejected"
    );
    assert_eq!(
        message(ClientBuilder::new().default_header("X-A", "\u{0}").build()),
        "default header `x-a` value rejected"
    );
}

#[test]
fn first_invalid_header_wins() {
    let builder = ClientBuilder::default()
        .default_header("", "1")
        .user_agent("\u{7f}")
        .default_header("x-a", "\u{1}")
        .user_agent("fine");
    assert_eq!(message(builder.build()), "default header name rejected");
}

#[test]
fn parsed_headers_are_taken() {
    let client = ClientBuilder::new()
        .default_header_value(
            Some(HeaderName::from_static("x-a")),
            Some(HeaderValue::from_static("1")),
        )
        .user_agent_value(Some(HeaderValue::from_static("ua")))
        .build()
        .unwrap();
    assert_eq!(client.default_headers().get("x-a").unwrap(), "1");
    assert_eq!(client.default_headers().get("user-agent").unwrap(), "ua");
    assert_eq!(
        message(ClientBuilder::new().user_agent_value(None).build()),
        "User-Agent value rejected"
    );
    assert_eq!(
        message(ClientBuilder::new().default_header_value(None, None).build()),
        "default header name rejected"
    );
}

fn numbered(count: usize) -> HeaderMap {
    let mut headers = HeaderMap::new();
    for i in 0..count {
        let name = HeaderName::from_bytes(format!("x-{i}").as_bytes()).unwrap();
        headers.insert(name, HeaderValue::from_static("1"));
    }
    headers
}

#[test]
fn headers_past_the_bound_are_taken_by_the_builder() {
    let builder = ClientBuilder::new().default_headers(numbered(10_000));
    assert!(!builder.has_room());
    let builder = builder.try_default_header("x-a", "1").unwrap().user_agent("ua");
    let client = builder.try_build().unwrap().unwrap();
    assert_eq!(client.default_headers().len(), 10_002);
}

#[test]
fn builder_that_takes_no_more_says_so() {
    let builder = ClientBuilder::new().default_headers(numbered(24_576));
    let builder = builder.try_default_header("x-a", "1").unwrap_err();
    let builder = builder.user_agent("ua");
    assert!(builder.try_build().is_none());
    let builder = ClientBuilder::new().default_headers(numbered(24_576)).user_agent("\n");
    assert!(builder.try_build().unwrap().is_err());
}
