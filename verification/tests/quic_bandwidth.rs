use pcc_vivace::quic_bandwidth::QuicBandwidth;
use pcc_vivace::quic_time::Delta;
use std::cmp::Ordering;

#[test]
fn bandwidth_constructors() {
    assert_eq!(QuicBandwidth::new(123).to_bits_per_second(), 123);
    assert_eq!(QuicBandwidth::from_bits_per_second(9).to_bits_per_second(), 9);
    assert_eq!(QuicBandwidth::from_k_bits_per_second(3).to_bits_per_second(), 3_000);
    assert_eq!(QuicBandwidth::from_bytes_per_second(3).to_bits_per_second(), 24);
    assert_eq!(QuicBandwidth::from_k_bytes_per_second(3).to_bits_per_second(), 24_000);
    assert!(QuicBandwidth::zero().is_zero());
    assert_eq!(QuicBandwidth::infinite().to_bits_per_second(), u64::MAX);
}

#[test]
fn bandwidth_round_trips() {
    assert_eq!(QuicBandwidth::from_bytes_per_second(1234).to_bytes_per_second(), 1234);
    assert_eq!(QuicBandwidth::from_k_bits_per_second(77).to_k_bits_per_second(), 77);
    assert_eq!(QuicBandwidth::from_k_bytes_per_second(5).to_k_bytes_per_second(), 5);
}

#[test]
fn bandwidth_from_bytes_and_time_delta() {
    // 1400 * 20 bytes over 100 ms: 2_240_000 bits per second.
    let bw = QuicBandwidth::from_bytes_and_time_delta(20 * 1400, &Delta::from_milliseconds(100));
    assert_eq!(bw.to_bits_per_second(), 2_240_000);
    let zero = QuicBandwidth::from_bytes_and_time_delta(1000, &Delta::zero());
    assert!(zero.is_zero());
    // rounding down: 1 byte over 3 us is 8_000_000 / 3 bits per second
    let odd = QuicBandwidth::from_bytes_and_time_delta(1, &Delta::new(3));
    assert_eq!(odd.to_bits_per_second(), 2_666_666);
}

#[test]
fn bandwidth_bytes_per_period() {
    let bw = QuicBandwidth::from_bytes_per_second(1_000_000);
    assert_eq!(bw.to_bytes_per_period(&Delta::from_milliseconds(10)), 10_000);
    assert_eq!(bw * &Delta::from_milliseconds(10), 10_000);
    assert_eq!(bw.to_k_bytes_per_period(&Delta::from_milliseconds(10)), 10);
    assert_eq!(QuicBandwidth::new(7).to_bytes_per_period(&Delta::from_seconds(1)), 0);
}

#[test]
fn bandwidth_transfer_time() {
    let bw = QuicBandwidth::from_bits_per_second(8_000_000);
    assert_eq!(bw.transfer_time(1500).to_microseconds(), 1500);
    assert!(QuicBandwidth::zero().transfer_time(1500).is_zero());
    let slow = QuicBandwidth::from_bits_per_second(3);
    assert_eq!(slow.transfer_time(1).to_microseconds(), 2_666_666);
}

#[test]
fn bandwidth_order_and_arithmetic() {
    let a = QuicBandwidth::new(100);
    let b = QuicBandwidth::new(40);
    assert_eq!((a + b).to_bits_per_second(), 140);
    assert_eq!((a - b).to_bits_per_second(), 60);
    assert!(b < a);
    assert_eq!(a.partial_cmp(&b), Some(Ordering::Greater));
    assert_eq!(a.cmp(&a), Ordering::Equal);
    assert_eq!(QuicBandwidth::max(a, b), a);
    assert_eq!(QuicBandwidth::min(a, b), b);
    assert_eq!(a, QuicBandwidth::from_bits_per_second(100));
}

#[test]
fn bandwidth_measured_rate_sends_at_most_the_bytes() {
    let delta = Delta::new(777);
    let bw = QuicBandwidth::from_bytes_and_time_delta(12_345, &delta);
    assert!(bw.to_bytes_per_period(&delta) <= 12_345);
}
