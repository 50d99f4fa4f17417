//! Points in time and time offsets, both counted in microseconds.

use vstd::prelude::*;
use vstd::std_specs::cmp::PartialOrdSpecImpl;
use vstd::std_specs::ops::{AddSpecImpl, MulSpecImpl, ShlSpecImpl, ShrSpecImpl, SubSpecImpl};
use core::cmp::Ordering;

verus! {

/// The monotonic clock of the standard library, carried through as an opaque value.
#[verifier::external_type_specification]
#[verifier::external_body]
pub struct ExInstant(std::time::Instant);

/// `Instant` is `Copy`; its derived `clone` hands back the same reading.
pub assume_specification[ <std::time::Instant as Clone>::clone ](i: &std::time::Instant) -> (r: std::time::Instant)
    ensures
        r == *i,
;

/// `Duration` is `Copy`; its derived `clone` hands back the same length.
pub assume_specification[ <std::time::Duration as Clone>::clone ](d: &std::time::Duration) -> (r: std::time::Duration)
    ensures
        r == *d,
;

/// Reads the monotonic clock through `std::time::Instant::now`; nothing is
/// claimed of the value, which depends on when the call is made.
#[verifier::external_body]
pub(crate) fn instant_now() -> std::time::Instant {
    std::time::Instant::now()
}

/// Whether two clock readings are the same point in time, through the
/// derived `PartialEq` of `std::time::Instant`, which compares the readings
/// field by field; the contract claims that the answer is plain equality.
#[verifier::external_body]
pub(crate) fn instants_equal(a: &std::time::Instant, b: &std::time::Instant) -> (r: bool)
    ensures
        r == (*a == *b),
{
    *a == *b
}

/// A point in time, in microseconds; zero means "not initialized".
#[derive(Clone, Copy, Debug, PartialEq, Eq, Structural, Ord)]
pub struct QuicTime {
    pub time: u64,
}

/// A time offset in microseconds.
#[derive(Clone, Copy, Debug, PartialEq, Eq, Structural, Ord)]
pub struct Delta {
    pub time_offset: u64,
}

/// The value that stands for an infinite time or offset.
pub open spec fn infinite_time_us() -> u64 {
    u64::MAX
}

impl QuicTime {
    /// The zero point of time.
    pub fn zero() -> (r: Self)
        ensures
            r.time == 0,
    {
        QuicTime { time: 0 }
    }

    /// The point of time that stands for "never".
    pub fn infinite() -> (r: Self)
        ensures
            r.time == infinite_time_us(),
    {
        QuicTime { time: Delta::K_QUIC_INFINITE_TIME_US }
    }

    /// Whether this time was ever set, that is, differs from zero.
    pub fn is_initialized(&self) -> (r: bool)
        ensures
            r == (self.time != 0),
    {
        self.time != 0
    }

    /// Reads the current clock; the microsecond value is not converted.
    pub fn to_instant(&self) -> std::time::Instant {
        instant_now()
    }

    /// This time moved forward by `delta`.
    pub fn add_delta(&self, delta: &Delta) -> (r: QuicTime)
        requires
            self.time + delta.time_offset <= u64::MAX,
        ensures
            r.time == self.time + delta.time_offset,
    {
        QuicTime { time: self.time + delta.time_offset }
    }

    /// This time moved back by `delta`.
    pub fn sub_delta(&self, delta: &Delta) -> (r: QuicTime)
        requires
            delta.time_offset <= self.time,
        ensures
            r.time == self.time - delta.time_offset,
    {
        QuicTime { time: self.time - delta.time_offset }
    }
}

impl Delta {
    /// The microsecond value of an infinite offset.
    pub const K_QUIC_INFINITE_TIME_US: u64 = 0xffff_ffff_ffff_ffffu64;

    pub fn new(time_offset: u64) -> (r: Self)
        ensures
            r.time_offset == time_offset,
    {
        Delta { time_offset }
    }

    pub fn zero() -> (r: Self)
        ensures
            r.time_offset == 0,
    {
        Delta { time_offset: 0 }
    }

    pub fn infinite() -> (r: Self)
        ensures
            r.time_offset == infinite_time_us(),
    {
        Delta { time_offset: Self::K_QUIC_INFINITE_TIME_US }
    }

    pub fn from_seconds(secs: u64) -> (r: Self)
        requires
            secs * 1_000_000 <= u64::MAX,
        ensures
            r.time_offset == secs * 1_000_000,
    {
        Delta { time_offset: secs * 1_000_000 }
    }

    pub fn from_milliseconds(ms: u64) -> (r: Self)
        requires
            ms * 1_000 <= u64::MAX,
        ensures
            r.time_offset == ms * 1_000,
    {
        Delta { time_offset: ms * 1_000 }
    }

    pub fn from_microseconds(us: u64) -> (r: Self)
        ensures
            r.time_offset == us,
    {
        Delta { time_offset: us }
    }

    /// Whole seconds in this offset.
    pub fn to_seconds(&self) -> (r: u64)
        ensures
            r == self.time_offset / 1_000_000,
    {
        self.time_offset / 1_000_000
    }

    /// Whole milliseconds in this offset.
    pub fn to_milliseconds(&self) -> (r: u64)
        ensures
            r == self.time_offset / 1_000,
    {
        self.time_offset / 1_000
    }

    pub fn to_microseconds(&self) -> (r: u64)
        ensures
            r == self.time_offset,
    {
        self.time_offset
    }

    pub fn is_zero(&self) -> (r: bool)
        ensures
            r == (self.time_offset == 0),
    {
        self.time_offset == 0
    }

    pub fn is_infinite(&self) -> (r: bool)
        ensures
            r == (self.time_offset == infinite_time_us()),
    {
        self.time_offset == Self::K_QUIC_INFINITE_TIME_US
    }
}

/// The order of two microsecond counts, as `u64::cmp` gives it.
pub open spec fn order_of(a: u64, b: u64) -> Ordering {
    if a < b {
        Ordering::Less
    } else if a == b {
        Ordering::Equal
    } else {
        Ordering::Greater
    }
}

fn order_u64(a: u64, b: u64) -> (r: Ordering)
    ensures
        r == order_of(a, b),
{
    if a < b {
        Ordering::Less
    } else if a == b {
        Ordering::Equal
    } else {
        Ordering::Greater
    }
}

impl PartialOrd for Delta {
    fn partial_cmp(&self, other: &Self) -> (r: Option<Ordering>) {
        Some(order_u64(self.time_offset, other.time_offset))
    }
}

impl PartialOrdSpecImpl for Delta {
    open spec fn obeys_partial_cmp_spec() -> bool {
        true
    }

    open spec fn partial_cmp_spec(&self, other: &Self) -> Option<Ordering> {
        Some(order_of(self.time_offset, other.time_offset))
    }
}

impl PartialOrd for QuicTime {
    fn partial_cmp(&self, other: &Self) -> (r: Option<Ordering>) {
        Some(order_u64(self.time, other.time))
    }
}

impl PartialOrdSpecImpl for QuicTime {
    open spec fn obeys_partial_cmp_spec() -> bool {
        true
    }

    open spec fn partial_cmp_spec(&self, other: &Self) -> Option<Ordering> {
        Some(order_of(self.time, other.time))
    }
}

impl core::ops::Add for Delta {
    type Output = Self;

    fn add(self, other: Self) -> (r: Self) {
        Delta { time_offset: self.time_offset + other.time_offset }
    }
}

impl AddSpecImpl for Delta {
    open spec fn obeys_add_spec() -> bool {
        true
    }

    open spec fn add_req(self, rhs: Self) -> bool {
        self.time_offset + rhs.time_offset <= u64::MAX
    }

    open spec fn add_spec(self, rhs: Self) -> Self {
        Delta { time_offset: (self.time_offset + rhs.time_offset) as u64 }
    }
}

impl core::ops::Sub for Delta {
    type Output = Self;

    fn sub(self, other: Self) -> (r: Self) {
        Delta { time_offset: self.time_offset - other.time_offset }
    }
}

impl SubSpecImpl for Delta {
    open spec fn obeys_sub_spec() -> bool {
        true
    }

    open spec fn sub_req(self, rhs: Self) -> bool {
        rhs.time_offset <= self.time_offset
    }

    open spec fn sub_spec(self, rhs: Self) -> Self {
        Delta { time_offset: (self.time_offset - rhs.time_offset) as u64 }
    }
}

impl core::ops::Mul<u64> for Delta {
    type Output = Self;

    fn mul(self, rhs: u64) -> (r: Self) {
        Delta { time_offset: self.time_offset * rhs }
    }
}

impl MulSpecImpl<u64> for Delta {
    open spec fn obeys_mul_spec() -> bool {
        true
    }

    open spec fn mul_req(self, rhs: u64) -> bool {
        self.time_offset * rhs <= u64::MAX
    }

    open spec fn mul_spec(self, rhs: u64) -> Self {
        Delta { time_offset: (self.time_offset * rhs) as u64 }
    }
}

impl core::ops::Shl<usize> for Delta {
    type Output = Self;

    fn shl(self, rhs: usize) -> (r: Self) {
        Delta { time_offset: self.time_offset << rhs }
    }
}

impl ShlSpecImpl<usize> for Delta {
    open spec fn obeys_shl_spec() -> bool {
        true
    }

    open spec fn shl_req(self, rhs: usize) -> bool {
        rhs < 64
    }

    open spec fn shl_spec(self, rhs: usize) -> Self {
        Delta { time_offset: self.time_offset << rhs }
    }
}

impl core::ops::Shr<usize> for Delta {
    type Output = Self;

    fn shr(self, rhs: usize) -> (r: Self) {
        Delta { time_offset: self.time_offset >> rhs }
    }
}

impl ShrSpecImpl<usize> for Delta {
    open spec fn obeys_shr_spec() -> bool {
        true
    }

    open spec fn shr_req(self, rhs: usize) -> bool {
        rhs < 64
    }

    open spec fn shr_spec(self, rhs: usize) -> Self {
        Delta { time_offset: self.time_offset >> rhs }
    }
}

impl core::ops::Add<Delta> for QuicTime {
    type Output = Self;

    fn add(self, delta: Delta) -> (r: Self) {
        QuicTime { time: self.time + delta.time_offset }
    }
}

impl AddSpecImpl<Delta> for QuicTime {
    open spec fn obeys_add_spec() -> bool {
        true
    }

    open spec fn add_req(self, rhs: Delta) -> bool {
        self.time + rhs.time_offset <= u64::MAX
    }

    open spec fn add_spec(self, rhs: Delta) -> Self {
        QuicTime { time: (self.time + rhs.time_offset) as u64 }
    }
}

impl core::ops::Sub<Delta> for QuicTime {
    type Output = Self;

    fn sub(self, delta: Delta) -> (r: Self) {
        QuicTime { time: self.time - delta.time_offset }
    }
}

impl SubSpecImpl<Delta> for QuicTime {
    open spec fn obeys_sub_spec() -> bool {
        true
    }

    open spec fn sub_req(self, rhs: Delta) -> bool {
        rhs.time_offset <= self.time
    }

    open spec fn sub_spec(self, rhs: Delta) -> Self {
        QuicTime { time: (self.time - rhs.time_offset) as u64 }
    }
}

impl core::ops::Sub for QuicTime {
    type Output = Delta;

    fn sub(self, other: QuicTime) -> (r: Delta) {
        Delta { time_offset: self.time - other.time }
    }
}

impl SubSpecImpl for QuicTime {
    open spec fn obeys_sub_spec() -> bool {
        true
    }

    open spec fn sub_req(self, rhs: QuicTime) -> bool {
        rhs.time <= self.time
    }

    open spec fn sub_spec(self, rhs: QuicTime) -> Delta {
        Delta { time_offset: (self.time - rhs.time) as u64 }
    }
}

/// Whole seconds and milliseconds survive a round trip through microseconds.
pub proof fn lemma_delta_unit_round_trip(secs: u64, ms: u64)
    ensures
        (secs * 1_000_000) / 1_000_000 == secs,
        (ms * 1_000) / 1_000 == ms,
{
    assert((secs * 1_000_000) / 1_000_000 == secs) by (nonlinear_arith);
    assert((ms * 1_000) / 1_000 == ms) by (nonlinear_arith);
}

/// Moving a time forward by an offset and back again gives the time back,
/// and the difference of the two times is the offset.
pub proof fn lemma_time_offset_round_trip(t: u64, offset: u64)
    requires
        t + offset <= u64::MAX,
    ensures
        (t + offset) - offset == t,
        ((t + offset) as u64) - t == offset,
{
}

/// Time order is total and antisymmetric: two times compare equal exactly
/// when they are equal, and swapping them reverses the order.
pub proof fn lemma_order_of(a: u64, b: u64)
    ensures
        (order_of(a, b) == Ordering::Equal) == (a == b),
        order_of(a, b) == Ordering::Less <==> order_of(b, a) == Ordering::Greater,
{
}

} // verus!
