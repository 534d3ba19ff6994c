use pravaha::{retry_delay, HttpConfig, TimeSpan};

#[test]
fn time_span_parts() {
    let t = TimeSpan::from_millis(2500);
    assert_eq!(t.as_secs(), 2);
    assert_eq!(t.subsec_nanos(), 500_000_000);
    assert_eq!(t.as_nanos(), 2_500_000_000);
    assert_eq!(TimeSpan::from_secs(3).as_nanos(), 3_000_000_000);
}

#[test]
fn time_span_new_carries_nanoseconds() {
    let t = TimeSpan::new(1, 2_500_000_000).expect("fits");
    assert_eq!(t.as_secs(), 3);
    assert_eq!(t.subsec_nanos(), 500_000_000);
    assert_eq!(t, TimeSpan::from_millis(3500));
}

#[test]
fn time_span_new_refuses_overflow() {
    assert!(TimeSpan::new(u64::MAX, 1_000_000_000).is_none());
    assert!(TimeSpan::new(u64::MAX, 999_999_999).is_some());
}

#[test]
fn retry_delay_doubles_from_the_base() {
    let base = TimeSpan::from_millis(50);
    let max = TimeSpan::from_secs(2);
    assert_eq!(retry_delay(base, max, 0), TimeSpan::from_millis(50));
    assert_eq!(retry_delay(base, max, 1), TimeSpan::from_millis(100));
    assert_eq!(retry_delay(base, max, 2), TimeSpan::from_millis(200));
    assert_eq!(retry_delay(base, max, 5), TimeSpan::from_millis(1600));
}

#[test]
fn retry_delay_is_capped_by_the_maximum() {
    let base = TimeSpan::from_millis(50);
    let max = TimeSpan::from_secs(2);
    assert_eq!(retry_delay(base, max, 6), max);
    assert_eq!(retry_delay(base, max, 19), max);
}

#[test]
fn retry_delay_stops_doubling_at_twenty() {
    let base = TimeSpan::new(0, 1).expect("fits");
    let max = TimeSpan::from_secs(1000);
    assert_eq!(retry_delay(base, max, 20).as_nanos(), 1_048_576);
    assert_eq!(retry_delay(base, max, 21).as_nanos(), 1_048_576);
    assert_eq!(retry_delay(base, max, usize::MAX).as_nanos(), 1_048_576);
}

#[test]
fn retry_delay_of_a_product_too_large_is_the_maximum() {
    let base = TimeSpan::from_secs(u64::MAX);
    let max = TimeSpan::new(u64::MAX, 999_999_999).expect("fits");
    assert_eq!(retry_delay(base, max, 1), max);
    assert_eq!(retry_delay(base, base, 0), base);
}

#[test]
fn retry_delay_with_zero_base_is_zero() {
    let zero = TimeSpan::from_secs(0);
    assert_eq!(retry_delay(zero, TimeSpan::from_secs(2), 7), zero);
}

#[test]
fn default_config_values() {
    let c = HttpConfig::default();
    assert_eq!(c.chunk_size, 256 * 1024);
    assert!(c.read_ahead);
    assert_eq!(c.read_ahead_trigger, 128 * 1024);
    assert_eq!(c.cache_max_entries, 64);
    assert_eq!(c.cache_max_bytes, 32 * 1024 * 1024);
    assert_eq!(c.retry_max_attempts, 3);
    assert_eq!(c.retry_base_delay, TimeSpan::from_millis(50));
    assert_eq!(c.retry_max_delay, TimeSpan::from_secs(2));
    assert_eq!(c.connect_timeout, TimeSpan::from_secs(10));
    assert_eq!(c.read_timeout, TimeSpan::from_secs(30));
    assert_eq!(c.idle_timeout, TimeSpan::from_secs(30));
}

#[test]
fn config_range_end() {
    let mut c = HttpConfig::default();
    c.chunk_size = 10;
    assert_eq!(c.range_end(0), 9);
    assert_eq!(c.range_end(25), 34);
    assert_eq!(c.range_end(u64::MAX - 3), u64::MAX);
    c.chunk_size = 0;
    assert_eq!(c.range_end(7), 7);
    c.chunk_size = u64::MAX;
    assert_eq!(c.range_end(0), u64::MAX - 1);
    assert_eq!(c.range_end(1), u64::MAX);
}
