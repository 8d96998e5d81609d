use stream_supervisor::backoff::{Backoff, BACKOFF_CAP_MICROS, BACKOFF_FLOOR_MICROS};

#[test]
fn backoff_starts_at_floor() {
    let b = Backoff::new();
    assert_eq!(b.current(), BACKOFF_FLOOR_MICROS);
    assert_eq!(b.current(), 125);
}

#[test]
fn backoff_doubles_each_time() {
    let mut b = Backoff::new();
    let mut expected: u64 = 125;
    for _ in 0..10 {
        assert_eq!(b.current(), expected);
        b.advance();
        expected *= 2;
    }
    assert_eq!(b.current(), 128_000);
}

#[test]
fn backoff_caps_at_five_seconds() {
    let mut b = Backoff::new();
    for _ in 0..20 {
        b.advance();
        assert!(b.current() <= BACKOFF_CAP_MICROS);
    }
    assert_eq!(b.current(), BACKOFF_CAP_MICROS);
    b.advance();
    assert_eq!(b.current(), BACKOFF_CAP_MICROS);
}

#[test]
fn backoff_is_monotone() {
    let mut b = Backoff::new();
    let mut last = b.current();
    for _ in 0..25 {
        b.advance();
        assert!(b.current() >= last);
        last = b.current();
    }
}

#[test]
fn backoff_cap_is_reached_from_below() {
    // 125 * 2^15 = 4_096_000 is the last uncapped delay.
    let mut b = Backoff::new();
    for _ in 0..15 {
        b.advance();
    }
    assert_eq!(b.current(), 4_096_000);
    b.advance();
    assert_eq!(b.current(), 5_000_000);
}
