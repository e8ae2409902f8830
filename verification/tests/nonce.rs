use wire_helpers::nonce::{nonce_advance, nonce_drift_exceeded, NonceSource};

#[test]
fn burst_issues_consecutive_values() {
    let mut source = NonceSource::new(1000);
    let mut previous = source.next_nonce_at(1000);
    assert_eq!(previous, 1000);
    for _ in 0..10 {
        let next = source.next_nonce_at(1000);
        assert_eq!(next, previous + 1);
        previous = next;
    }
}

#[test]
fn issued_values_are_unique_and_increasing() {
    let mut source = NonceSource::new(500);
    let clock_readings = [500u64, 500, 499, 600, 480, 600, 601];
    let mut issued: Vec<u64> = Vec::new();
    for now_ms in clock_readings {
        issued.push(source.next_nonce_at(now_ms));
    }
    for pair in issued.windows(2) {
        assert!(pair[0] < pair[1]);
    }
}

#[test]
fn idle_source_rebases_to_the_clock() {
    let mut source = NonceSource::new(1000);
    assert_eq!(source.next_nonce_at(1000), 1000);
    // The stored counter is now 1001 and the clock has moved far
    // past the staleness allowance: the issue follows the clock.
    assert_eq!(source.next_nonce_at(7002), 7002);
    assert_eq!(source.next_nonce_at(7003), 7003);
}

#[test]
fn lag_within_the_allowance_keeps_counting() {
    let mut source = NonceSource::new(1000);
    assert_eq!(source.next_nonce_at(1000), 1000);
    // 1001 + 5000 is not less than 6001: not yet stale.
    assert_eq!(source.next_nonce_at(6001), 1001);
    // One millisecond later the counter is stale and is rebased.
    assert_eq!(source.next_nonce_at(6003), 6003);
}

#[test]
fn advance_step_matches_the_source() {
    assert_eq!(nonce_advance(1000, 1000), (1000, 1001));
    assert_eq!(nonce_advance(1000, 6000), (1000, 1001));
    assert_eq!(nonce_advance(1000, 6001), (6001, 6002));
    assert_eq!(nonce_advance(u64::MAX, 0), (u64::MAX, u64::MAX));
}

#[test]
fn drift_diagnostic_fires_only_past_the_allowance() {
    assert!(!nonce_drift_exceeded(1000, 1000));
    assert!(!nonce_drift_exceeded(2000, 1000));
    assert!(nonce_drift_exceeded(2001, 1000));
    assert!(nonce_drift_exceeded(u64::MAX, u64::MAX - 1001));
}

#[test]
fn clock_seeded_source_tracks_wall_time() {
    let before = chrono::Utc::now().timestamp_millis() as u64;
    let mut source = NonceSource::now_seeded();
    let nonce = source.next_nonce();
    let after = chrono::Utc::now().timestamp_millis() as u64;
    // The issued nonce tracks the wall clock the source was seeded
    // from, within a generous allowance for scheduling delays.
    assert!(nonce >= before);
    assert!(nonce <= after + 1);
}

#[test]
fn clock_driven_calls_strictly_increase() {
    let mut source = NonceSource::now_seeded();
    let first = source.next_nonce();
    let second = source.next_nonce();
    let third = source.next_nonce();
    assert!(first < second);
    assert!(second < third);
}
