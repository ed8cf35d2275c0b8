use mechanics_http_client::time::{Duration, Instant};

#[test]
fn spans() {
    assert_eq!(Duration::from_secs(2).as_nanos(), 2_000_000_000);
    assert_eq!(Duration::from_millis(150).as_nanos(), 150_000_000);
    assert_eq!(Duration::new(1, 999_999_999).as_nanos(), 1_999_999_999);
    assert_eq!(Duration::from_secs(u64::MAX).as_nanos(), u64::MAX as u128 * 1_000_000_000);
}

#[test]
fn moments() {
    let a = Instant::after_start(Duration::from_secs(1));
    let b = a.plus(Duration::from_millis(1));
    assert!(b.is_after(a));
    assert!(!a.is_after(a));
    assert!(b > a);
    assert_eq!(a.plus(Duration::from_secs(0)), a);
    assert!(a.plus(Duration::from_secs(u64::MAX)).is_after(b));
}
