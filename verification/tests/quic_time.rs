use pcc_vivace::quic_time::{Delta, QuicTime};
use std::cmp::Ordering;

#[test]
fn quic_time_zero_and_infinite() {
    let z = QuicTime::zero();
    assert!(!z.is_initialized());
    let inf = QuicTime::infinite();
    assert!(inf.is_initialized());
    assert_eq!(inf.time, u64::MAX);
}

#[test]
fn quic_time_add_and_sub_delta() {
    let t = QuicTime::zero().add_delta(&Delta::from_milliseconds(5));
    assert_eq!(t.time, 5_000);
    assert!(t.is_initialized());
    let back = t.sub_delta(&Delta::from_microseconds(5_000));
    assert_eq!(back, QuicTime::zero());
    let t2 = t + Delta::new(7);
    assert_eq!(t2.time, 5_007);
    assert_eq!(t2 - Delta::new(7), t);
    assert_eq!((t2 - t).to_microseconds(), 7);
}

#[test]
fn quic_time_order() {
    let a = QuicTime::zero() + Delta::new(1);
    let b = QuicTime::zero() + Delta::new(2);
    assert!(a < b);
    assert_eq!(a.partial_cmp(&b), Some(Ordering::Less));
    assert_eq!(b.partial_cmp(&a), Some(Ordering::Greater));
    assert_eq!(a.partial_cmp(&a), Some(Ordering::Equal));
    assert_eq!(a.cmp(&b), Ordering::Less);
}

#[test]
fn delta_units() {
    assert_eq!(Delta::from_seconds(3).to_microseconds(), 3_000_000);
    assert_eq!(Delta::from_seconds(3).to_seconds(), 3);
    assert_eq!(Delta::from_milliseconds(42).to_milliseconds(), 42);
    assert_eq!(Delta::from_microseconds(1_999_999).to_seconds(), 1);
    assert_eq!(Delta::from_microseconds(1_999).to_milliseconds(), 1);
    assert!(Delta::zero().is_zero());
    assert!(!Delta::new(1).is_zero());
    assert!(Delta::infinite().is_infinite());
    assert!(!Delta::from_seconds(1).is_infinite());
    assert_eq!(Delta::infinite().time_offset, Delta::K_QUIC_INFINITE_TIME_US);
}

#[test]
fn delta_arithmetic() {
    let a = Delta::new(10);
    let b = Delta::new(4);
    assert_eq!((a + b).time_offset, 14);
    assert_eq!((a - b).time_offset, 6);
    assert_eq!((a * 3u64).time_offset, 30);
    assert_eq!((a << 2usize).time_offset, 40);
    assert_eq!((a >> 1usize).time_offset, 5);
    assert!(b < a);
    assert_eq!(a.max(b), a);
}
