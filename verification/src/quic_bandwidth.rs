//! Bandwidth in bits per second, with the conversions that PCC needs.

use vstd::prelude::*;
use vstd::std_specs::cmp::PartialOrdSpecImpl;
use vstd::std_specs::ops::{AddSpecImpl, MulSpecImpl, SubSpecImpl};
use core::cmp::Ordering;
use crate::quic_time::{Delta, order_of};

verus! {

/// Microseconds in one second.
pub const K_NUM_MICROS_PER_SECOND: u64 = 1_000_000;

/// A bandwidth, in bits per second.
#[derive(Clone, Copy, Debug, PartialEq, Eq, Structural, Ord)]
pub struct QuicBandwidth {
    pub bits_per_second: u64,
}

/// Bytes that `bits_per_second` moves in `micros` microseconds, as
/// `to_bytes_per_period` rounds them: whole bytes per second first, then
/// whole bytes in the period.
pub open spec fn bytes_in_period(bits_per_second: u64, micros: u64) -> int {
    ((bits_per_second / 8) * micros) / (K_NUM_MICROS_PER_SECOND as int)
}

/// Microseconds that `bytes` take at `bits_per_second`, rounded down;
/// zero at zero bandwidth.
pub open spec fn transfer_micros(bits_per_second: u64, bytes: u64) -> int {
    if bits_per_second == 0 {
        0
    } else {
        (bytes * 8 * K_NUM_MICROS_PER_SECOND) / (bits_per_second as int)
    }
}

/// Bits per second of `bytes` delivered over `micros` microseconds,
/// rounded down; zero over an empty period.
pub open spec fn rate_of(bytes: u64, micros: u64) -> int {
    if micros == 0 {
        0
    } else {
        (bytes * 8 * K_NUM_MICROS_PER_SECOND) / (micros as int)
    }
}

impl QuicBandwidth {
    /// No bandwidth.
    pub fn zero() -> (r: Self)
        ensures
            r.bits_per_second == 0,
    {
        QuicBandwidth { bits_per_second: 0 }
    }

    /// The largest bandwidth, which stands for an infinite one.
    pub fn infinite() -> (r: Self)
        ensures
            r.bits_per_second == u64::MAX,
    {
        QuicBandwidth { bits_per_second: 0xffff_ffff_ffff_ffffu64 }
    }

    /// A bandwidth of `bits_per_second` bits per second.
    pub fn new(bits_per_second: u64) -> (r: Self)
        ensures
            r.bits_per_second == bits_per_second,
    {
        QuicBandwidth { bits_per_second }
    }

    pub fn from_bits_per_second(bits_per_second: u64) -> (r: Self)
        ensures
            r.bits_per_second == bits_per_second,
    {
        Self::new(bits_per_second)
    }

    pub fn from_k_bits_per_second(k_bits_per_second: u64) -> (r: Self)
        requires
            k_bits_per_second * 1000 <= u64::MAX,
        ensures
            r.bits_per_second == k_bits_per_second * 1000,
    {
        Self::new(k_bits_per_second * 1000)
    }

    pub fn from_bytes_per_second(bytes_per_second: u64) -> (r: Self)
        requires
            bytes_per_second * 8 <= u64::MAX,
        ensures
            r.bits_per_second == bytes_per_second * 8,
    {
        Self::new(bytes_per_second * 8)
    }

    pub fn from_k_bytes_per_second(k_bytes_per_second: u64) -> (r: Self)
        requires
            k_bytes_per_second * 8000 <= u64::MAX,
        ensures
            r.bits_per_second == k_bytes_per_second * 8000,
    {
        Self::new(k_bytes_per_second * 8000)
    }

    /// The rate at which `bytes` were delivered over `delta`.
    pub fn from_bytes_and_time_delta(bytes: u64, delta: &Delta) -> (r: Self)
        requires
            delta.time_offset != 0 ==> bytes * 8 * K_NUM_MICROS_PER_SECOND <= u64::MAX,
        ensures
            r.bits_per_second == rate_of(bytes, delta.time_offset),
    {
        let microseconds = delta.to_microseconds();
        if microseconds == 0 {
            Self::zero()
        } else {
            let bits = bytes * 8 * K_NUM_MICROS_PER_SECOND;
            Self::new(bits / microseconds)
        }
    }

    pub fn to_bits_per_second(&self) -> (r: u64)
        ensures
            r == self.bits_per_second,
    {
        self.bits_per_second
    }

    pub fn to_k_bits_per_second(&self) -> (r: u64)
        ensures
            r == self.bits_per_second / 1000,
    {
        self.bits_per_second / 1000
    }

    pub fn to_bytes_per_second(&self) -> (r: u64)
        ensures
            r == self.bits_per_second / 8,
    {
        self.bits_per_second / 8
    }

    pub fn to_k_bytes_per_second(&self) -> (r: u64)
        ensures
            r == self.bits_per_second / 8000,
    {
        self.bits_per_second / 8000
    }

    /// Bytes sent at this rate over `time_period`.
    pub fn to_bytes_per_period(&self, time_period: &Delta) -> (r: u64)
        requires
            (self.bits_per_second / 8) * time_period.time_offset <= u64::MAX,
        ensures
            r == bytes_in_period(self.bits_per_second, time_period.time_offset),
            r == ((self.bits_per_second / 8) * time_period.time_offset) / 1_000_000,
    {
        let bytes_per_second = self.to_bytes_per_second();
        let microseconds = time_period.to_microseconds();
        (bytes_per_second * microseconds) / K_NUM_MICROS_PER_SECOND
    }

    /// Kilobytes sent at this rate over `time_period`.
    pub fn to_k_bytes_per_period(&self, time_period: &Delta) -> (r: u64)
        requires
            (self.bits_per_second / 8000) * time_period.time_offset <= u64::MAX,
        ensures
            r == ((self.bits_per_second / 8000) * time_period.time_offset) / (K_NUM_MICROS_PER_SECOND as int),
    {
        let k_bytes_per_second = self.to_k_bytes_per_second();
        let microseconds = time_period.to_microseconds();
        (k_bytes_per_second * microseconds) / K_NUM_MICROS_PER_SECOND
    }

    pub fn is_zero(&self) -> (r: bool)
        ensures
            r == (self.bits_per_second == 0),
    {
        self.bits_per_second == 0
    }

    /// The time that `bytes` take to send at this rate.
    pub fn transfer_time(&self, bytes: u64) -> (r: Delta)
        requires
            self.bits_per_second != 0 ==> bytes * 8 * K_NUM_MICROS_PER_SECOND <= u64::MAX,
        ensures
            r.time_offset == transfer_micros(self.bits_per_second, bytes),
    {
        if self.is_zero() {
            Delta::zero()
        } else {
            let bits = bytes * 8;
            let microseconds = (bits * K_NUM_MICROS_PER_SECOND) / self.bits_per_second;
            Delta::from_microseconds(microseconds)
        }
    }
}

impl PartialOrd for QuicBandwidth {
    fn partial_cmp(&self, other: &Self) -> (r: Option<Ordering>) {
        if self.bits_per_second < other.bits_per_second {
            Some(Ordering::Less)
        } else if self.bits_per_second == other.bits_per_second {
            Some(Ordering::Equal)
        } else {
            Some(Ordering::Greater)
        }
    }
}

impl PartialOrdSpecImpl for QuicBandwidth {
    open spec fn obeys_partial_cmp_spec() -> bool {
        true
    }

    open spec fn partial_cmp_spec(&self, other: &Self) -> Option<Ordering> {
        Some(order_of(self.bits_per_second, other.bits_per_second))
    }
}

impl core::ops::Add for QuicBandwidth {
    type Output = Self;

    fn add(self, other: Self) -> (r: Self) {
        Self::new(self.bits_per_second + other.bits_per_second)
    }
}

impl AddSpecImpl for QuicBandwidth {
    open spec fn obeys_add_spec() -> bool {
        true
    }

    open spec fn add_req(self, rhs: Self) -> bool {
        self.bits_per_second + rhs.bits_per_second <= u64::MAX
    }

    open spec fn add_spec(self, rhs: Self) -> Self {
        QuicBandwidth { bits_per_second: (self.bits_per_second + rhs.bits_per_second) as u64 }
    }
}

impl core::ops::Sub for QuicBandwidth {
    type Output = Self;

    fn sub(self, other: Self) -> (r: Self) {
        Self::new(self.bits_per_second - other.bits_per_second)
    }
}

impl SubSpecImpl for QuicBandwidth {
    open spec fn obeys_sub_spec() -> bool {
        true
    }

    open spec fn sub_req(self, rhs: Self) -> bool {
        rhs.bits_per_second <= self.bits_per_second
    }

    open spec fn sub_spec(self, rhs: Self) -> Self {
        QuicBandwidth { bits_per_second: (self.bits_per_second - rhs.bits_per_second) as u64 }
    }
}

impl<'a> core::ops::Mul<&'a Delta> for QuicBandwidth {
    type Output = u64;

    fn mul(self, delta: &'a Delta) -> (r: u64) {
        self.to_bytes_per_period(delta)
    }
}

impl<'a> MulSpecImpl<&'a Delta> for QuicBandwidth {
    open spec fn obeys_mul_spec() -> bool {
        true
    }

    open spec fn mul_req(self, rhs: &'a Delta) -> bool {
        (self.bits_per_second / 8) * rhs.time_offset <= u64::MAX
    }

    open spec fn mul_spec(self, rhs: &'a Delta) -> u64 {
        bytes_in_period(self.bits_per_second, rhs.time_offset) as u64
    }
}

/// Over whole seconds a rate sends its bytes per second once per second,
/// with no cap: `s` seconds send `s` times the bytes of one, and doubling
/// the period doubles the bytes.
pub proof fn lemma_bytes_in_whole_seconds(bits_per_second: u64, s: u64)
    requires
        s * 2 * 1_000_000 <= u64::MAX,
    ensures
        bytes_in_period(bits_per_second, (s * 1_000_000) as u64) == (bits_per_second / 8) * s,
        bytes_in_period(bits_per_second, (2 * s * 1_000_000) as u64) == 2 * bytes_in_period(
            bits_per_second,
            (s * 1_000_000) as u64,
        ),
{
    let b = (bits_per_second / 8) as int;
    let si = s as int;
    assert((b * (si * 1_000_000)) / 1_000_000 == b * si) by (nonlinear_arith)
        requires b >= 0, si >= 0;
    assert((b * (2 * si * 1_000_000)) / 1_000_000 == 2 * (b * si)) by (nonlinear_arith)
        requires b >= 0, si >= 0;
}

/// The bytes of a period grow with the period and with the rate.
pub proof fn lemma_bytes_in_period_monotonic(b1: u64, b2: u64, m1: u64, m2: u64)
    requires
        b1 <= b2,
        m1 <= m2,
    ensures
        bytes_in_period(b1, m1) <= bytes_in_period(b2, m2),
{
    let x1 = (b1 / 8) as int;
    let x2 = (b2 / 8) as int;
    assert(x1 <= x2);
    assert(x1 * m1 <= x2 * m2) by (nonlinear_arith)
        requires 0 <= x1 <= x2, 0 <= m1 <= m2;
    assert((x1 * m1) / 1_000_000 <= (x2 * m2) / 1_000_000) by (nonlinear_arith)
        requires 0 <= x1 * m1 <= x2 * m2;
}

/// A rate given in bytes, kilobits or kilobytes per second reads back in
/// the same unit.
pub proof fn lemma_bandwidth_unit_round_trip(x: u64)
    ensures
        (x * 8) / 8 == x,
        (x * 1000) / 1000 == x,
        (x * 8000) / 8000 == x,
{
    assert((x * 8) / 8 == x) by (nonlinear_arith);
    assert((x * 1000) / 1000 == x) by (nonlinear_arith);
    assert((x * 8000) / 8000 == x) by (nonlinear_arith);
}

/// The rate measured from `bytes` over a period never lets more than
/// `bytes` be sent in that same period.
pub proof fn lemma_rate_of_period(bytes: u64, micros: u64)
    requires
        rate_of(bytes, micros) <= u64::MAX,
    ensures
        bytes_in_period(rate_of(bytes, micros) as u64, micros) <= bytes,
{
    if micros > 0 {
        let b = bytes as int;
        let m = micros as int;
        let rate = (b * 8 * 1_000_000) / m;
        assert(rate * m <= b * 8 * 1_000_000) by (nonlinear_arith)
            requires
                rate == (b * 8 * 1_000_000) / m,
                m > 0,
                b >= 0;
        let bps = rate / 8;
        assert(bps * 8 <= rate);
        assert(bps * m * 8 <= rate * m) by (nonlinear_arith)
            requires
                bps * 8 <= rate,
                m > 0,
                bps >= 0;
        assert(bps * m <= b * 1_000_000);
        assert((bps * m) / 1_000_000 <= b) by (nonlinear_arith)
            requires
                bps * m <= b * 1_000_000,
                bps * m >= 0;
    }
}

} // verus!
