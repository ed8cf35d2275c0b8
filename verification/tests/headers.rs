use mechanics_http_client::headers::{merge, name_count};
use mechanics_http_client::{Client, HeaderMap, HeaderValue, RequestBuilder};

#[test]
fn names_are_counted_once() {
    let mut map = HeaderMap::new();
    assert_eq!(name_count(&map), 0);
    map.append("a", HeaderValue::from_static("1"));
    map.append("a", HeaderValue::from_static("2"));
    map.append("b", HeaderValue::from_static("3"));
    assert_eq!(name_count(&map), 2);
}

#[test]
fn merging_overrides_by_name() {
    let mut defaults = HeaderMap::new();
    defaults.append("a", HeaderValue::from_static("1"));
    defaults.append("b", HeaderValue::from_static("2"));
    let mut own = HeaderMap::new();
    own.append("b", HeaderValue::from_static("3"));
    own.append("b", HeaderValue::from_static("4"));
    own.append("c", HeaderValue::from_static("5"));
    let merged = merge(&defaults, &own).unwrap();
    let values = |name| -> Vec<&[u8]> {
        merged.get_all(name).iter().map(|value| value.as_bytes()).collect()
    };
    assert_eq!(values("a"), vec![b"1"]);
    assert_eq!(values("b"), vec![b"3", b"4"]);
    assert_eq!(values("c"), vec![b"5"]);
    assert_eq!(merged.len(), 4);
}

#[test]
fn each_character_of_names_and_values() {
    let client = Client::new().unwrap();
    for n in 0..256u32 {
        let c = char::from_u32(n).unwrap();
        let text = c.to_string();
        let builder: RequestBuilder<()> = client.get("http://h/");
        let name_ok = n < 128
            && (c.is_ascii_alphanumeric() || "!#$%&'*+-.^_`|~".contains(c));
        assert_eq!(builder.header(&text, "v").send().is_ok(), name_ok, "name {n}");
        let builder: RequestBuilder<()> = client.get("http://h/");
        let value_ok = n == 9 || (n >= 32 && n != 127);
        let sent = builder.header("x", &text).send();
        assert_eq!(sent.is_ok(), value_ok, "value {n}");
        if let Ok(sending) = sent {
            assert_eq!(sending.head.headers.get("x").unwrap().as_bytes(), text.as_bytes());
        }
    }
    let builder: RequestBuilder<()> = client.get("http://h/");
    assert!(builder.header("", "v").send().is_err());
}

#[test]
fn long_names() {
    let client = Client::new().unwrap();
    let builder: RequestBuilder<()> = client.get("http://h/");
    assert!(builder.header(&"a".repeat(65_535), "v").send().is_ok());
    let builder: RequestBuilder<()> = client.get("http://h/");
    assert!(builder.header(&"a".repeat(65_536), "v").send().is_err());
}
