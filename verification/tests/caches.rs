use mechanics_http_client::alt_svc::{AltSvcEntry, AltSvcUpdate};
use mechanics_http_client::caches::Http3Caches;
use mechanics_http_client::https_rr::HttpsRrEntry;
use mechanics_http_client::origin::{Origin, OriginMap};
use mechanics_http_client::time::{Duration, Instant};

fn at(secs: u64) -> Instant {
    Instant::after_start(Duration::from_secs(secs))
}

fn origin(host: &str, port: u16) -> Origin {
    Origin { host: host.to_owned(), port }
}

fn entry(port: u16) -> AltSvcEntry {
    AltSvcEntry { host: None, port, expires_at: at(50) }
}

#[test]
fn map_by_origin() {
    let mut map: OriginMap<Instant> = OriginMap::new();
    map.insert(origin("a", 1), at(1));
    map.insert(origin("a", 2), at(2));
    map.insert(origin("b", 1), at(3));
    map.insert(origin("a", 2), at(4));
    assert_eq!(map.get(&origin("a", 1)), Some(&at(1)));
    assert_eq!(map.get(&origin("a", 2)), Some(&at(4)));
    map.remove(&origin("a", 2));
    map.remove(&origin("c", 2));
    assert!(!map.contains_key(&origin("a", 2)));
    assert!(map.contains_key(&origin("b", 1)));
    assert!(map.contains_key(&origin("a", 1)));
}

#[test]
fn alternative_is_found_until_it_expires() {
    let mut caches = Http3Caches::new();
    let (a, b) = (origin("a", 443), origin("b", 443));
    caches.apply_alt_svc(a.clone(), AltSvcUpdate::Entry(entry(8443)));
    caches.apply_alt_svc(b.clone(), AltSvcUpdate::Entry(entry(9443)));
    assert_eq!(caches.alt_svc_entry(&a, at(49)), Some(entry(8443)));
    assert_eq!(caches.alt_svc_entry(&a, at(50)), None);
    assert!(!caches.alt_svc.contains_key(&a));
    caches.apply_alt_svc(b.clone(), AltSvcUpdate::Absent);
    assert_eq!(caches.alt_svc_entry(&b, at(1)), Some(entry(9443)));
    caches.apply_alt_svc(b.clone(), AltSvcUpdate::Clear);
    assert_eq!(caches.alt_svc_entry(&b, at(1)), None);
}

#[test]
fn record_is_found_until_it_expires() {
    let mut caches = Http3Caches::new();
    let a = origin("a", 443);
    let record =
        HttpsRrEntry { port: 1, addresses: Vec::new(), has_h3: false, expires_at: at(50) };
    assert_eq!(caches.https_rr_entry(&a, Some(Ok(Some(record.clone())))), Some(record.clone()));
    assert_eq!(caches.cached_https_rr(&a, at(49)), Some(record));
    assert_eq!(caches.https_rr_entry(&a, None), None);
    assert!(caches.https_rr.contains_key(&a));
    assert_eq!(caches.cached_https_rr(&a, at(50)), None);
    assert!(!caches.https_rr.contains_key(&a));
}

#[test]
fn failure_blocks_until_the_span_is_over() {
    let mut caches = Http3Caches::new();
    let (a, b) = (origin("a", 443), origin("b", 443));
    caches.apply_alt_svc(a.clone(), AltSvcUpdate::Entry(entry(8443)));
    caches.apply_alt_svc(b.clone(), AltSvcUpdate::Entry(entry(9443)));
    caches.insert_negative(a.clone(), at(10), Duration::from_secs(5));
    assert!(!caches.alt_svc.contains_key(&a));
    assert!(caches.alt_svc.contains_key(&b));
    assert!(!caches.negative_cache_hit(&b, at(11)));
    assert!(caches.negative_cache_hit(&a, at(14)));
    assert!(!caches.negative_cache_hit(&a, at(15)));
    assert!(!caches.negative.contains_key(&a));
}

#[test]
fn asking_changes_no_later_answer() {
    let a = origin("a", 443);
    for asked in 0..60 {
        for later in asked..60 {
            let mut caches = Http3Caches::new();
            caches.insert_negative(a.clone(), at(10), Duration::from_secs(5));
            caches.apply_alt_svc(a.clone(), AltSvcUpdate::Entry(entry(8443)));
            caches.negative_cache_hit(&a, at(asked));
            caches.alt_svc_entry(&a, at(asked));
            caches.cached_https_rr(&a, at(asked));
            assert_eq!(caches.negative_cache_hit(&a, at(later)), later < 15);
            assert_eq!(caches.alt_svc_entry(&a, at(later)).is_some(), later < 50);
        }
    }
}
