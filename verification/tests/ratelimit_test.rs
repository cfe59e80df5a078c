use burngate::admission::{session_permits, Admission, Verdict};
use burngate::config::{Config, Environment};
use burngate::ratelimit::{IpKey, IpRateLimiter, CLEANUP_THRESHOLD, WINDOW_NANOS};

const SECOND: u64 = 1_000_000_000;

fn v4(a: u8, b: u8, c: u8, d: u8) -> IpKey {
    IpKey::V4(u32::from_be_bytes([a, b, c, d]))
}

#[test]
fn allows_up_to_limit() {
    let mut limiter = IpRateLimiter::new(3);
    let ip = v4(10, 0, 0, 1);
    assert!(limiter.check_and_increment(ip, 0));
    assert!(limiter.check_and_increment(ip, 0));
    assert!(limiter.check_and_increment(ip, 0));
    // 4th should be rejected
    assert!(!limiter.check_and_increment(ip, 0));
}

#[test]
fn different_ips_independent() {
    let mut limiter = IpRateLimiter::new(2);
    let ip1 = v4(10, 0, 0, 1);
    let ip2 = v4(10, 0, 0, 2);

    assert!(limiter.check_and_increment(ip1, 5));
    assert!(limiter.check_and_increment(ip1, 5));
    assert!(!limiter.check_and_increment(ip1, 5)); // ip1 exhausted

    // ip2 should still be allowed
    assert!(limiter.check_and_increment(ip2, 5));
    assert!(limiter.check_and_increment(ip2, 5));
    assert!(!limiter.check_and_increment(ip2, 5));
}

#[test]
fn ipv6_works() {
    let mut limiter = IpRateLimiter::new(1);
    let ip = IpKey::V6(1);
    assert!(limiter.check_and_increment(ip, 0));
    assert!(!limiter.check_and_increment(ip, 0));
}

#[test]
fn window_resets_after_expiry() {
    let mut limiter = IpRateLimiter::new(1);
    let ip = v4(192, 168, 1, 1);

    assert!(limiter.check_and_increment(ip, 0));
    assert!(!limiter.check_and_increment(ip, 0));

    // Past the 60s window
    let later = 61 * SECOND;

    // Should be allowed again after window reset
    assert!(limiter.check_and_increment(ip, later));
    assert!(!limiter.check_and_increment(ip, later));
}

#[test]
fn limit_of_one() {
    let mut limiter = IpRateLimiter::new(1);
    let ip = v4(1, 2, 3, 4);
    assert!(limiter.check_and_increment(ip, 7));
    assert!(!limiter.check_and_increment(ip, 7));
    assert!(!limiter.check_and_increment(ip, 7));
}

#[test]
fn many_ips_tracked_independently() {
    let mut limiter = IpRateLimiter::new(1);
    for i in 0..=255u8 {
        let ip = v4(10, 0, 0, i);
        assert!(
            limiter.check_and_increment(ip, 0),
            "first request from 10.0.0.{i} should be allowed"
        );
    }
    // All should now be exhausted
    for i in 0..=255u8 {
        let ip = v4(10, 0, 0, i);
        assert!(
            !limiter.check_and_increment(ip, 0),
            "second request from 10.0.0.{i} should be rejected"
        );
    }
}

#[test]
fn window_ends_exactly_after_sixty_seconds() {
    let mut limiter = IpRateLimiter::new(1);
    let ip = v4(10, 0, 0, 1);
    assert_eq!(WINDOW_NANOS, 60 * SECOND);
    assert!(limiter.check_and_increment(ip, 100));
    assert!(!limiter.check_and_increment(ip, 100 + WINDOW_NANOS - 1));
    assert!(limiter.check_and_increment(ip, 100 + WINDOW_NANOS));
    // the new window started at the reset
    assert!(!limiter.check_and_increment(ip, 100 + 2 * WINDOW_NANOS - 1));
    assert!(limiter.check_and_increment(ip, 100 + 2 * WINDOW_NANOS));
}

#[test]
fn refused_connection_does_not_restart_the_window() {
    let mut limiter = IpRateLimiter::new(1);
    let ip = v4(10, 0, 0, 1);
    assert!(limiter.check_and_increment(ip, 0));
    assert!(!limiter.check_and_increment(ip, 59 * SECOND));
    assert!(limiter.check_and_increment(ip, 60 * SECOND));
}

#[test]
fn earlier_time_counts_as_no_time_passed() {
    let mut limiter = IpRateLimiter::new(1);
    let ip = v4(10, 0, 0, 1);
    assert!(limiter.check_and_increment(ip, 100 * SECOND));
    assert!(!limiter.check_and_increment(ip, 0));
}

#[test]
fn within_one_window_no_more_than_the_cap_is_admitted() {
    let mut limiter = IpRateLimiter::new(4);
    let ip = v4(10, 0, 0, 1);
    let other = v4(10, 0, 0, 2);
    let mut granted = 0;
    for step in 0..60u64 {
        if limiter.check_and_increment(ip, 1000 + step * SECOND) {
            granted += 1;
        }
        limiter.check_and_increment(other, 1000 + step * SECOND);
    }
    assert_eq!(granted, 4);
}

#[test]
fn across_a_window_boundary_twice_the_cap_can_be_admitted() {
    let mut limiter = IpRateLimiter::new(2);
    let ip = v4(10, 0, 0, 1);
    assert!(limiter.check_and_increment(ip, 0));
    assert!(limiter.check_and_increment(ip, 59 * SECOND));
    assert!(limiter.check_and_increment(ip, 60 * SECOND));
    assert!(limiter.check_and_increment(ip, 61 * SECOND));
    assert!(!limiter.check_and_increment(ip, 62 * SECOND));
}

#[test]
fn v4_and_v6_with_the_same_number_are_different_addresses() {
    let mut limiter = IpRateLimiter::new(1);
    assert!(limiter.check_and_increment(IpKey::V4(1), 0));
    assert!(limiter.check_and_increment(IpKey::V6(1), 0));
    assert!(!limiter.check_and_increment(IpKey::V4(1), 0));
    assert!(!limiter.check_and_increment(IpKey::V6(1), 0));
}

#[test]
fn cap_of_zero_admits_nothing() {
    let mut limiter = IpRateLimiter::new(0);
    assert_eq!(limiter.max_per_ip(), 0);
    assert!(!limiter.check_and_increment(v4(1, 1, 1, 1), 0));
}

#[test]
fn eviction_beyond_the_threshold_forgets_only_stale_windows() {
    let mut limiter = IpRateLimiter::new(1);
    let count = (CLEANUP_THRESHOLD + 1) as u32;
    for i in 0..count {
        assert!(limiter.check_and_increment(IpKey::V4(i), 0));
    }
    // Still within the window: nothing is forgotten.
    assert!(!limiter.check_and_increment(IpKey::V4(0), 59 * SECOND));
    assert!(limiter.check_and_increment(IpKey::V4(7), 60 * SECOND));
    // After the eviction the table is small again and old addresses start over.
    assert!(limiter.check_and_increment(IpKey::V4(1), 61 * SECOND));
    assert!(!limiter.check_and_increment(IpKey::V4(1), 61 * SECOND));
    assert!(!limiter.check_and_increment(IpKey::V4(7), 61 * SECOND));
}

fn config_with(per_ip: &str, connections: &str) -> Config {
    let mut env = Environment::empty();
    env.accepted_domains = Some("tempy.email".to_string());
    env.max_connections_per_ip = Some(per_ip.to_string());
    env.max_connections = Some(connections.to_string());
    Config::from_vars(&env).unwrap()
}

#[test]
fn third_connection_from_one_address_is_refused() {
    let config = config_with("2", "1000");
    let mut admission = Admission::new(&config);
    let ip = v4(203, 0, 113, 5);
    assert_eq!(admission.decide(ip, 1), Verdict::Accept);
    assert_eq!(admission.decide(ip, 2), Verdict::Accept);
    assert_eq!(
        admission.decide(ip, 3),
        Verdict::Refuse("421 4.7.0 Too many connections from your IP".to_string())
    );
    assert_eq!(admission.decide(v4(203, 0, 113, 6), 3), Verdict::Accept);
}

#[test]
fn limit_of_zero_switches_the_limiter_off() {
    let config = config_with("0", "1000");
    let mut admission = Admission::new(&config);
    let ip = v4(203, 0, 113, 5);
    for now in 0..100u64 {
        assert_eq!(admission.decide(ip, now), Verdict::Accept);
    }
}

#[test]
fn session_permits_follow_the_cap() {
    assert_eq!(session_permits(&config_with("0", "1000")), Some(1000));
    assert_eq!(session_permits(&config_with("0", "1")), Some(1));
    assert_eq!(session_permits(&config_with("0", "0")), None);
}
