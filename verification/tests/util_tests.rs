use sfu_core::utils::{Cache, IdGenerator, MetricsCounter, RateLimiter, Timer, format_bytes, format_duration};

#[test]
fn test_metrics_counter() {
    let mut counter = MetricsCounter::new(0);
    counter.increment_packets_received(10);
    counter.increment_packets_sent(5);
    assert_eq!(counter.get_packets_received(), 10);
    assert_eq!(counter.get_packets_sent(), 5);
}

#[test]
fn test_id_generator() {
    let mut gen = IdGenerator::new("peer");
    let id1 = gen.generate();
    let id2 = gen.generate();
    assert_ne!(id1, id2);
    assert!(id1.starts_with("peer_"));
}

#[test]
fn test_format_bytes() {
    assert_eq!(format_bytes(500), "500.00 B");
    assert_eq!(format_bytes(1024), "1.00 KB");
    assert_eq!(format_bytes(1048576), "1.00 MB");
}

#[test]
fn test_format_duration() {
    assert_eq!(format_duration(30), "30s");
    assert_eq!(format_duration(90), "1m 30s");
    assert_eq!(format_duration(3661), "1h 1m 1s");
}

#[test]
fn test_cache() {
    // One-second time-to-live, with the clock passed in milliseconds.
    let mut cache: Cache<String> = Cache::new(1000);
    cache.insert("key1".to_string(), "value1".to_string(), 0);
    assert_eq!(cache.get("key1", 500), Some("value1".to_string()));

    // Two seconds later the entry has expired.
    assert_eq!(cache.get("key1", 2000), None);
}

#[test]
fn test_rate_limiter() {
    let mut limiter = RateLimiter::new(2, 1000);
    assert!(limiter.check_rate_limit(0));
    assert!(limiter.check_rate_limit(1));
    assert!(!limiter.check_rate_limit(2));

    // Two seconds later the window has passed.
    assert!(limiter.check_rate_limit(2002));
}

#[test]
fn test_cache_replace_and_remove() {
    let mut cache: Cache<u64> = Cache::new(100);
    cache.insert("k".to_string(), 1, 0);
    cache.insert("k".to_string(), 2, 10);
    assert_eq!(cache.len(), 1);
    assert_eq!(cache.get("k", 20), Some(2));
    assert_eq!(cache.remove("k"), Some(2));
    assert!(cache.is_empty());
    assert_eq!(cache.remove("k"), None);
}

#[test]
fn test_cache_cleanup_expired() {
    let mut cache: Cache<u64> = Cache::new(100);
    cache.insert("a".to_string(), 1, 0);
    cache.insert("b".to_string(), 2, 90);
    cache.cleanup_expired(120);
    assert_eq!(cache.len(), 1);
    assert_eq!(cache.get("b", 120), Some(2));
    assert_eq!(cache.get("a", 120), None);
}

#[test]
fn test_metrics_uptime_and_stats() {
    let mut counter = MetricsCounter::new(100);
    counter.increment_connections();
    counter.increment_bytes_received(2_000_000);
    counter.increment_bytes_sent(3_000_000);
    assert_eq!(counter.get_uptime(3825), 3725);
    let text = counter.format_stats(3825);
    assert_eq!(
        text,
        "Metrics:\n- Uptime: 01:02:05\n- Active Connections: 1\n- Total Connections: 1\n- Packets Received: 0\n- Packets Sent: 0\n- Bytes Received: 2 MB\n- Bytes Sent: 3 MB"
    );
    counter.decrement_connections();
    assert_eq!(counter.get_connections_active(), 0);
    assert_eq!(counter.get_connections_total(), 1);
}

#[test]
fn test_id_generator_with_timestamp() {
    let mut gen = IdGenerator::new("conn");
    assert_eq!(gen.generate_with_timestamp(1700000000), "conn_1700000000_0");
    assert_eq!(gen.generate(), "conn_1");
}

#[test]
fn test_timer_elapsed() {
    let timer = Timer::new("op", 50);
    assert_eq!(timer.elapsed(75), 25);
    assert_eq!(timer.elapsed(10), 0);
}

#[test]
fn test_rate_limiter_reset() {
    let mut limiter = RateLimiter::new(1, 1000);
    assert!(limiter.check_rate_limit(0));
    assert!(!limiter.check_rate_limit(1));
    limiter.reset();
    assert!(limiter.check_rate_limit(2));
}

#[test]
fn test_format_bytes_units() {
    assert_eq!(format_bytes(0), "0.00 B");
    assert_eq!(format_bytes(1536), "1.50 KB");
    assert_eq!(format_bytes(1073741824), "1.00 GB");
    assert_eq!(format_bytes(1099511627776), "1.00 TB");
    assert_eq!(format_bytes(1125899906842624), "1.00 PB");
    assert_eq!(format_bytes(u64::MAX), "16383.99 PB");
}

#[test]
fn test_format_duration_days() {
    assert_eq!(format_duration(90061), "1d 1h 1m 1s");
    assert_eq!(format_duration(0), "0s");
}
