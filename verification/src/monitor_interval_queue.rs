//! The queue of monitor intervals: each interval sends at one rate, collects
//! the acknowledgements and losses of its packets, and is handed on for a
//! utility computation once every one of its bytes is accounted for.

use vstd::prelude::*;
use std::collections::VecDeque;
use std::time::{Duration, Instant};
use crate::quic_bandwidth::QuicBandwidth;
use crate::quic_time::{instant_now, instants_equal};
use crate::quic_type::{AckedPacket, QuicByteCount, QuicPacketNumber};

verus! {

/// Reliable RTT samples that an interval needs before its utility counts.
pub const K_MIN_RELIABLE_RTT: usize = 4;

/// The length of a `std::time::Duration` in nanoseconds, as its method
/// `as_nanos` gives it: a function of the duration alone.
pub uninterp spec fn duration_nanos(d: Duration) -> u128;

/// `std::time::Duration::as_nanos`: the total number of nanoseconds that the
/// duration holds, named `duration_nanos`.
#[verifier::external_body]
pub(crate) fn duration_as_nanos(d: &Duration) -> (r: u128)
    ensures
        r == duration_nanos(*d),
{
    d.as_nanos()
}

/// `std::time::Duration::ZERO`, the duration of zero time; the contract
/// claims only that it holds zero nanoseconds.
#[verifier::external_body]
pub(crate) fn duration_zero() -> (r: Duration)
    ensures
        duration_nanos(r) == 0,
{
    Duration::ZERO
}

/// One RTT measurement, taken when a packet of an interval was acknowledged.
#[derive(Debug, Clone, Copy)]
pub struct PacketRttSample {
    pub packet_number: QuicPacketNumber,
    pub sample_rtt: Duration,
    pub ack_timestamp: Instant,
    pub is_reliable: bool,
    pub is_reliable_for_gradient_calculation: bool,
}

impl Default for PacketRttSample {
    fn default() -> (r: Self)
        ensures
            r.packet_number == 0,
            duration_nanos(r.sample_rtt) == 0,
            !r.is_reliable,
            !r.is_reliable_for_gradient_calculation,
    {
        Self {
            packet_number: 0,
            sample_rtt: duration_zero(),
            ack_timestamp: instant_now(),
            is_reliable: false,
            is_reliable_for_gradient_calculation: false,
        }
    }
}

/// Bytes lost with one packet.
#[derive(Debug, Clone, Copy)]
pub struct LostPacketSample {
    pub packet_number: QuicPacketNumber,
    pub bytes: QuicByteCount,
}

impl Default for LostPacketSample {
    fn default() -> (r: Self)
        ensures
            r.packet_number == 0,
            r.bytes == 0,
    {
        Self { packet_number: 0, bytes: 0 }
    }
}

/// A stretch of sending at one rate, and what became of its packets.
///
/// `rtt_fluctuation_tolerance_ratio_bits` holds the IEEE-754 bits of the
/// tolerance ratio that the utility computation reads; nothing here
/// computes with it.
#[derive(Debug, Clone)]
pub struct MonitorInterval {
    pub sending_rate: QuicBandwidth,
    pub is_useful: bool,
    pub rtt_fluctuation_tolerance_ratio_bits: u64,
    pub first_packet_sent_time: Instant,
    pub last_packet_sent_time: Instant,
    pub first_packet_number: QuicPacketNumber,
    pub last_packet_number: QuicPacketNumber,
    pub bytes_sent: u64,
    pub bytes_acked: u64,
    pub bytes_lost: u64,
    pub rtt_on_monitor_start: Duration,
    pub rtt_on_monitor_end: Duration,
    pub min_rtt: Duration,
    pub num_reliable_rtt: usize,
    pub num_reliable_rtt_for_gradient_calculation: usize,
    pub has_enough_reliable_rtt: bool,
    pub is_monitor_duration_extended: bool,
    pub packet_sent_intervals: Vec<Duration>,
    pub packet_rtt_samples: Vec<PacketRttSample>,
    pub lost_packet_samples: Vec<LostPacketSample>,
}

/// The mathematical value of a monitor interval: counters as naturals and
/// the vectors as sequences.
#[verifier::ext_equal]
pub struct MonitorIntervalView {
    pub sending_rate: QuicBandwidth,
    pub is_useful: bool,
    pub rtt_fluctuation_tolerance_ratio_bits: u64,
    pub first_packet_sent_time: Instant,
    pub last_packet_sent_time: Instant,
    pub first_packet_number: nat,
    pub last_packet_number: nat,
    pub bytes_sent: nat,
    pub bytes_acked: nat,
    pub bytes_lost: nat,
    pub rtt_on_monitor_start: Duration,
    pub rtt_on_monitor_end: Duration,
    pub min_rtt: Duration,
    pub num_reliable_rtt: nat,
    pub num_reliable_rtt_for_gradient_calculation: nat,
    pub has_enough_reliable_rtt: bool,
    pub is_monitor_duration_extended: bool,
    pub packet_sent_intervals: Seq<Duration>,
    pub packet_rtt_samples: Seq<PacketRttSample>,
    pub lost_packet_samples: Seq<LostPacketSample>,
}

impl View for MonitorInterval {
    type V = MonitorIntervalView;

    open spec fn view(&self) -> MonitorIntervalView {
        MonitorIntervalView {
            sending_rate: self.sending_rate,
            is_useful: self.is_useful,
            rtt_fluctuation_tolerance_ratio_bits: self.rtt_fluctuation_tolerance_ratio_bits,
            first_packet_sent_time: self.first_packet_sent_time,
            last_packet_sent_time: self.last_packet_sent_time,
            first_packet_number: self.first_packet_number as nat,
            last_packet_number: self.last_packet_number as nat,
            bytes_sent: self.bytes_sent as nat,
            bytes_acked: self.bytes_acked as nat,
            bytes_lost: self.bytes_lost as nat,
            rtt_on_monitor_start: self.rtt_on_monitor_start,
            rtt_on_monitor_end: self.rtt_on_monitor_end,
            min_rtt: self.min_rtt,
            num_reliable_rtt: self.num_reliable_rtt as nat,
            num_reliable_rtt_for_gradient_calculation:
                self.num_reliable_rtt_for_gradient_calculation as nat,
            has_enough_reliable_rtt: self.has_enough_reliable_rtt,
            is_monitor_duration_extended: self.is_monitor_duration_extended,
            packet_sent_intervals: self.packet_sent_intervals@,
            packet_rtt_samples: self.packet_rtt_samples@,
            lost_packet_samples: self.lost_packet_samples@,
        }
    }
}

impl Default for MonitorInterval {
    fn default() -> (r: Self)
        ensures
            r.sending_rate.bits_per_second == 0,
            !r.is_useful,
            r.rtt_fluctuation_tolerance_ratio_bits == 0,
            r.first_packet_number == 0,
            r.last_packet_number == 0,
            r.bytes_sent == 0,
            r.bytes_acked == 0,
            r.bytes_lost == 0,
            duration_nanos(r.rtt_on_monitor_start) == 0,
            duration_nanos(r.rtt_on_monitor_end) == 0,
            duration_nanos(r.min_rtt) == 0,
            r.num_reliable_rtt == 0,
            r.num_reliable_rtt_for_gradient_calculation == 0,
            !r.has_enough_reliable_rtt,
            !r.is_monitor_duration_extended,
            r.packet_sent_intervals@.len() == 0,
            r.packet_rtt_samples@.len() == 0,
            r.lost_packet_samples@.len() == 0,
    {
        Self {
            sending_rate: QuicBandwidth::zero(),
            is_useful: false,
            rtt_fluctuation_tolerance_ratio_bits: 0,
            first_packet_sent_time: instant_now(),
            last_packet_sent_time: instant_now(),
            first_packet_number: 0,
            last_packet_number: 0,
            bytes_sent: 0,
            bytes_acked: 0,
            bytes_lost: 0,
            rtt_on_monitor_start: duration_zero(),
            rtt_on_monitor_end: duration_zero(),
            min_rtt: duration_zero(),
            num_reliable_rtt: 0,
            num_reliable_rtt_for_gradient_calculation: 0,
            has_enough_reliable_rtt: false,
            is_monitor_duration_extended: false,
            packet_sent_intervals: Vec::new(),
            packet_rtt_samples: Vec::new(),
            lost_packet_samples: Vec::new(),
        }
    }
}

/// Whether `packet_number` lies in the packet range of `iv`.
pub open spec fn contains_packet(iv: MonitorIntervalView, packet_number: nat) -> bool {
    iv.first_packet_number <= packet_number <= iv.last_packet_number
}

/// Whether the utility of `iv` can be computed: it has enough reliable RTT
/// samples and every byte it sent was acknowledged or lost.
pub open spec fn utility_available(iv: MonitorIntervalView) -> bool {
    iv.has_enough_reliable_rtt && iv.bytes_acked + iv.bytes_lost == iv.bytes_sent
}

/// Whether `iv` spans no time, so that no rate can be computed over it.
pub open spec fn invalid_utility(iv: MonitorIntervalView) -> bool {
    iv.first_packet_sent_time == iv.last_packet_sent_time
}

/// Reliable samples in `samples`.
pub open spec fn count_reliable(samples: Seq<PacketRttSample>) -> nat
    decreases samples.len(),
{
    if samples.len() == 0 {
        0
    } else {
        count_reliable(samples.drop_last()) + if samples.last().is_reliable { 1nat } else { 0nat }
    }
}

/// Samples in `samples` that are reliable for the gradient calculation.
pub open spec fn count_reliable_for_gradient(samples: Seq<PacketRttSample>) -> nat
    decreases samples.len(),
{
    if samples.len() == 0 {
        0
    } else {
        count_reliable_for_gradient(samples.drop_last()) + if samples.last().is_reliable_for_gradient_calculation {
            1nat
        } else {
            0nat
        }
    }
}

/// The counters of an interval agree with its samples, and it has enough
/// reliable RTT samples exactly when at least `K_MIN_RELIABLE_RTT` are reliable.
pub open spec fn interval_wf(iv: MonitorIntervalView) -> bool {
    &&& iv.num_reliable_rtt == count_reliable(iv.packet_rtt_samples)
    &&& iv.num_reliable_rtt_for_gradient_calculation == count_reliable_for_gradient(iv.packet_rtt_samples)
    &&& iv.has_enough_reliable_rtt == (iv.num_reliable_rtt >= K_MIN_RELIABLE_RTT)
}

/// The useful intervals of `s`, in order.
pub open spec fn useful_only(s: Seq<MonitorIntervalView>) -> Seq<MonitorIntervalView>
    decreases s.len(),
{
    if s.len() == 0 {
        s
    } else if s.last().is_useful {
        useful_only(s.drop_last()).push(s.last())
    } else {
        useful_only(s.drop_last())
    }
}

/// The views of a sequence of intervals.
pub open spec fn views(s: Seq<MonitorInterval>) -> Seq<MonitorIntervalView> {
    s.map_values(|iv: MonitorInterval| iv@)
}

/// A freshly enqueued interval: nothing sent, acknowledged or lost yet, all
/// three RTT marks at `rtt`; its two send times are not yet meaningful.
pub open spec fn fresh_interval(
    iv: MonitorIntervalView,
    sending_rate: QuicBandwidth,
    is_useful: bool,
    tolerance_bits: u64,
    rtt: Duration,
) -> bool {
    &&& iv.sending_rate == sending_rate
    &&& iv.is_useful == is_useful
    &&& iv.rtt_fluctuation_tolerance_ratio_bits == tolerance_bits
    &&& iv.first_packet_number == 0
    &&& iv.last_packet_number == 0
    &&& iv.bytes_sent == 0
    &&& iv.bytes_acked == 0
    &&& iv.bytes_lost == 0
    &&& iv.rtt_on_monitor_start == rtt
    &&& iv.rtt_on_monitor_end == rtt
    &&& iv.min_rtt == rtt
    &&& iv.num_reliable_rtt == 0
    &&& iv.num_reliable_rtt_for_gradient_calculation == 0
    &&& !iv.has_enough_reliable_rtt
    &&& !iv.is_monitor_duration_extended
    &&& iv.packet_sent_intervals.len() == 0
    &&& iv.packet_rtt_samples.len() == 0
    &&& iv.lost_packet_samples.len() == 0
}

/// What sending one packet does to the interval that is being filled.
pub open spec fn record_sent(
    iv: MonitorIntervalView,
    sent_time: Instant,
    packet_number: u64,
    bytes: u64,
    sent_interval: Duration,
) -> MonitorIntervalView {
    MonitorIntervalView {
        first_packet_sent_time: if iv.bytes_sent == 0 { sent_time } else { iv.first_packet_sent_time },
        first_packet_number: if iv.bytes_sent == 0 { packet_number as nat } else { iv.first_packet_number },
        last_packet_sent_time: sent_time,
        last_packet_number: packet_number as nat,
        bytes_sent: iv.bytes_sent + bytes as nat,
        packet_sent_intervals: iv.packet_sent_intervals.push(sent_interval),
        ..iv
    }
}

/// The mathematical value of the queue.
pub struct QueueView {
    pub pending_rtt: Duration,
    pub pending_avg_rtt: Duration,
    pub pending_ack_interval: Duration,
    pub pending_event_time: Instant,
    pub num_useful_intervals: nat,
    pub num_available_intervals: nat,
    pub intervals: Seq<MonitorIntervalView>,
    pub pending_acked_packets: Seq<AckedPacket>,
}

/// The counters of the queue agree with its intervals, and every interval
/// is well formed.
pub open spec fn queue_wf(q: QueueView) -> bool {
    &&& q.num_useful_intervals == useful_only(q.intervals).len()
    &&& q.num_available_intervals <= q.num_useful_intervals
    &&& forall|j: int| 0 <= j < q.intervals.len() ==> interval_wf(#[trigger] q.intervals[j])
}

/// The queue of monitor intervals, oldest first, with the acknowledgements
/// that arrived since the last congestion event.
#[derive(Clone)]
pub struct PccMonitorIntervalQueue {
    pending_rtt: Duration,
    pending_avg_rtt: Duration,
    pending_ack_interval: Duration,
    pending_event_time: Instant,
    num_useful_intervals: usize,
    num_available_intervals: usize,
    monitor_intervals: Vec<MonitorInterval>,
    pending_acked_packets: VecDeque<AckedPacket>,
}

impl View for PccMonitorIntervalQueue {
    type V = QueueView;

    closed spec fn view(&self) -> QueueView {
        QueueView {
            pending_rtt: self.pending_rtt,
            pending_avg_rtt: self.pending_avg_rtt,
            pending_ack_interval: self.pending_ack_interval,
            pending_event_time: self.pending_event_time,
            num_useful_intervals: self.num_useful_intervals as nat,
            num_available_intervals: self.num_available_intervals as nat,
            intervals: views(self.monitor_intervals@),
            pending_acked_packets: self.pending_acked_packets@,
        }
    }
}

/// Appending an interval adds it to the useful ones exactly when it is useful.
pub proof fn lemma_useful_only_push(s: Seq<MonitorIntervalView>, iv: MonitorIntervalView)
    ensures
        useful_only(s.push(iv)) == if iv.is_useful { useful_only(s).push(iv) } else { useful_only(s) },
{
    assert(s.push(iv).drop_last() =~= s);
}

/// There are no more useful intervals than intervals.
pub proof fn lemma_useful_only_len(s: Seq<MonitorIntervalView>)
    ensures
        useful_only(s).len() <= s.len(),
    decreases s.len(),
{
    if s.len() > 0 {
        lemma_useful_only_len(s.drop_last());
    }
}

/// Replacing an interval by one with the same `is_useful` flag leaves the
/// useful intervals as many as before.
pub proof fn lemma_useful_only_update_same_flag(
    s: Seq<MonitorIntervalView>,
    i: int,
    iv: MonitorIntervalView,
)
    requires
        0 <= i < s.len(),
        iv.is_useful == s[i].is_useful,
    ensures
        useful_only(s.update(i, iv)).len() == useful_only(s).len(),
    decreases s.len(),
{
    if i < s.len() - 1 {
        assert(s.update(i, iv).drop_last() =~= s.drop_last().update(i, iv));
        lemma_useful_only_update_same_flag(s.drop_last(), i, iv);
    } else {
        assert(s.update(i, iv).drop_last() =~= s.drop_last());
    }
}

/// Decides whether the RTT sample of one acknowledged packet is reliable.
/// `on_congestion_event` asks it once for each request that
/// `reliability_requests` lists, in order, and records the answers with the
/// samples.
pub trait ReliabilityEstimator {
    fn calculate_reliability(&mut self, request: &ReliabilityRequest) -> bool;
}

/// The figures handed to the reliability estimator for one acknowledged
/// packet: this event's acknowledgement gap and RTT against those of the
/// previous event.
#[derive(Debug, Clone, Copy)]
pub struct ReliabilityRequest {
    pub current_ack_interval: Duration,
    pub pending_ack_interval: Duration,
    pub current_rtt: Duration,
    pub pending_rtt: Duration,
    pub pending_avg_rtt: Duration,
}

/// What the queue remembered of the previous congestion event; the RTT
/// samples of the packets acknowledged then are taken from it.
pub struct AckContext {
    pub pending_avg_rtt: Duration,
    pub pending_rtt: Duration,
    pub pending_event_time: Instant,
}

/// The RTT sample recorded for acknowledged packet `p`.
pub open spec fn rtt_sample(p: AckedPacket, reliable: bool, ctx: AckContext) -> PacketRttSample {
    PacketRttSample {
        packet_number: p.packet_number,
        sample_rtt: ctx.pending_rtt,
        ack_timestamp: ctx.pending_event_time,
        is_reliable: reliable,
        is_reliable_for_gradient_calculation: reliable,
    }
}

/// What one acknowledged packet does to an interval: a packet of the
/// interval adds its bytes and an RTT sample; any other leaves it unchanged.
pub open spec fn record_ack(
    iv: MonitorIntervalView,
    p: AckedPacket,
    reliable: bool,
    ctx: AckContext,
) -> MonitorIntervalView {
    if contains_packet(iv, p.packet_number as nat) {
        let n = iv.num_reliable_rtt + if reliable { 1nat } else { 0nat };
        let g = iv.num_reliable_rtt_for_gradient_calculation + if reliable { 1nat } else { 0nat };
        MonitorIntervalView {
            rtt_on_monitor_start: if iv.bytes_acked == 0 { ctx.pending_avg_rtt } else { iv.rtt_on_monitor_start },
            bytes_acked: iv.bytes_acked + p.bytes_acked as nat,
            packet_rtt_samples: iv.packet_rtt_samples.push(rtt_sample(p, reliable, ctx)),
            num_reliable_rtt: n,
            num_reliable_rtt_for_gradient_calculation: g,
            has_enough_reliable_rtt: iv.has_enough_reliable_rtt || n >= K_MIN_RELIABLE_RTT,
            ..iv
        }
    } else {
        iv
    }
}

/// Packets in `pkts` that belong to `iv`.
pub open spec fn contained_count(iv: MonitorIntervalView, pkts: Seq<AckedPacket>) -> nat
    decreases pkts.len(),
{
    if pkts.len() == 0 {
        0
    } else {
        contained_count(iv, pkts.drop_last()) + if contains_packet(iv, pkts.last().packet_number as nat) {
            1nat
        } else {
            0nat
        }
    }
}

/// The acknowledged packets `pkts`, in order, recorded into `iv`; the
/// `k`-th packet that belongs to `iv` takes reliability `answers[k]`.
pub open spec fn record_acks(
    iv: MonitorIntervalView,
    pkts: Seq<AckedPacket>,
    answers: Seq<bool>,
    ctx: AckContext,
) -> MonitorIntervalView
    decreases pkts.len(),
{
    if pkts.len() == 0 {
        iv
    } else {
        record_ack(
            record_acks(iv, pkts.drop_last(), answers, ctx),
            pkts.last(),
            answers[contained_count(iv, pkts.drop_last()) as int],
            ctx,
        )
    }
}

/// Bytes of the packets in `pkts` that belong to `iv`.
pub open spec fn contained_acked_bytes(iv: MonitorIntervalView, pkts: Seq<AckedPacket>) -> nat
    decreases pkts.len(),
{
    if pkts.len() == 0 {
        0
    } else {
        contained_acked_bytes(iv, pkts.drop_last()) + if contains_packet(iv, pkts.last().packet_number as nat) {
            pkts.last().bytes_acked as nat
        } else {
            0nat
        }
    }
}

/// A congestion event as the queue receives it.
pub struct CongestionEvent {
    pub acked_packets: Seq<AckedPacket>,
    pub lost_bytes: nat,
    pub avg_rtt: Duration,
    pub latest_rtt: Duration,
    pub min_rtt: Duration,
    pub event_time: Instant,
    pub ack_interval: Duration,
}

/// How far a scan over the intervals has got.
pub struct ScanState {
    pub intervals: Seq<MonitorIntervalView>,
    pub acks_taken: bool,
    pub available: nat,
    pub invalid: bool,
    pub stopped: bool,
}

/// The scan over the intervals of `q` before it looks at any of them.
pub open spec fn scan_start(q: QueueView) -> ScanState {
    ScanState {
        intervals: q.intervals,
        acks_taken: false,
        available: 0,
        invalid: false,
        stopped: false,
    }
}

/// The context in which the packets pending in `q` are recorded.
pub open spec fn ack_context(q: QueueView) -> AckContext {
    AckContext {
        pending_avg_rtt: q.pending_avg_rtt,
        pending_rtt: q.pending_rtt,
        pending_event_time: q.pending_event_time,
    }
}

/// One step of the scan, at interval `i`. A useful interval whose utility
/// is already available is only counted. Any other useful interval takes
/// the lost bytes and every pending acknowledgement of its packets (the
/// pending ones are used up by the first such interval); if its utility
/// became available it takes the latest RTT figures, is counted, and
/// decides whether the utilities are invalid; the scan stops once as many
/// intervals are available as are useful.
pub open spec fn scan_step(
    q: QueueView,
    ev: CongestionEvent,
    answers: Seq<bool>,
    st: ScanState,
    i: int,
) -> ScanState {
    let iv = st.intervals[i];
    if st.stopped || !iv.is_useful {
        st
    } else if utility_available(iv) {
        ScanState { available: st.available + 1, ..st }
    } else {
        let lost = MonitorIntervalView { bytes_lost: iv.bytes_lost + ev.lost_bytes, ..iv };
        let pending = if st.acks_taken { Seq::empty() } else { q.pending_acked_packets };
        let acked = record_acks(lost, pending, answers, ack_context(q));
        if utility_available(acked) {
            let done = MonitorIntervalView { rtt_on_monitor_end: ev.avg_rtt, min_rtt: ev.min_rtt, ..acked };
            ScanState {
                intervals: st.intervals.update(i, done),
                acks_taken: true,
                available: st.available + 1,
                invalid: invalid_utility(done),
                stopped: st.available + 1 >= q.num_useful_intervals,
            }
        } else {
            ScanState { intervals: st.intervals.update(i, acked), acks_taken: true, ..st }
        }
    }
}

/// The scan after it has stepped over the first `k` intervals.
pub open spec fn scan(q: QueueView, ev: CongestionEvent, answers: Seq<bool>, k: nat) -> ScanState
    decreases k,
{
    if k == 0 {
        scan_start(q)
    } else {
        scan_step(q, ev, answers, scan(q, ev, answers, (k - 1) as nat), k - 1)
    }
}

/// The queue after congestion event `ev`, and the useful intervals handed
/// on for the utility computation, if any; `answers` are the reliability
/// decisions for the requests that `reliability_requests` lists. With no useful interval
/// nothing but the count of available intervals changes. Otherwise the
/// intervals are scanned and the event becomes the pending one. When fewer
/// intervals are available than useful and the utilities are valid, the
/// queue keeps its intervals; else every interval leaves the queue, and the
/// useful ones are handed on unless the utilities are invalid.
pub open spec fn congestion_event_outcome(
    q: QueueView,
    ev: CongestionEvent,
    answers: Seq<bool>,
) -> (QueueView, Option<Seq<MonitorIntervalView>>) {
    if q.num_useful_intervals == 0 {
        (QueueView { num_available_intervals: 0, ..q }, None)
    } else {
        let st = scan(q, ev, answers, q.intervals.len());
        let q1 = QueueView {
            pending_rtt: ev.latest_rtt,
            pending_avg_rtt: ev.avg_rtt,
            pending_ack_interval: ev.ack_interval,
            pending_event_time: ev.event_time,
            num_useful_intervals: q.num_useful_intervals,
            num_available_intervals: st.available,
            intervals: st.intervals,
            pending_acked_packets: ev.acked_packets,
        };
        if q.num_useful_intervals > st.available && !st.invalid {
            (q1, None)
        } else {
            (
                QueueView { intervals: Seq::empty(), num_useful_intervals: 0, num_available_intervals: 0, ..q1 },
                if st.invalid { None } else { Some(useful_only(st.intervals)) },
            )
        }
    }
}

/// Pending acknowledgements that the first useful interval of `s` whose
/// utility is not yet available takes: those of its packets.
pub open spec fn request_count(s: Seq<MonitorIntervalView>, pending: Seq<AckedPacket>) -> nat
    decreases s.len(),
{
    if s.len() == 0 {
        0
    } else if s[0].is_useful && !utility_available(s[0]) {
        contained_count(s[0], pending)
    } else {
        request_count(s.drop_first(), pending)
    }
}

/// The reliability request for a pending acknowledgement at a congestion
/// event with `ack_interval` and `latest_rtt`.
pub open spec fn reliability_request(q: QueueView, ack_interval: Duration, latest_rtt: Duration) -> ReliabilityRequest {
    ReliabilityRequest {
        current_ack_interval: ack_interval,
        pending_ack_interval: q.pending_ack_interval,
        current_rtt: latest_rtt,
        pending_rtt: q.pending_rtt,
        pending_avg_rtt: q.pending_avg_rtt,
    }
}

/// The reliability requests of a congestion event, in order: one for each
/// pending acknowledgement of the interval that takes them, none when the
/// queue has no useful interval.
pub open spec fn reliability_requests(
    q: QueueView,
    ack_interval: Duration,
    latest_rtt: Duration,
) -> Seq<ReliabilityRequest> {
    let n = if q.num_useful_intervals == 0 { 0 } else { request_count(q.intervals, q.pending_acked_packets) };
    Seq::new(n, |j: int| reliability_request(q, ack_interval, latest_rtt))
}

/// Whether interval `j` of `q` is the first useful one whose utility is
/// not yet available: the one that takes the pending acknowledgements.
pub open spec fn first_incomplete(q: QueueView, j: int) -> bool {
    &&& q.intervals[j].is_useful
    &&& !utility_available(q.intervals[j])
    &&& forall|i: int| 0 <= i < j && (#[trigger] q.intervals[i]).is_useful ==> utility_available(q.intervals[i])
}

/// No byte counter overflows during a congestion event with `lost_bytes`,
/// whatever the reliability decisions: every useful interval can add up its
/// acknowledged and lost bytes, and every useful interval whose utility is
/// not yet available can also take the lost bytes and, if it is the first
/// such interval, the pending acknowledgements of its packets.
pub open spec fn congestion_event_fits(q: QueueView, lost_bytes: nat) -> bool {
    forall|j: int|
        0 <= j < q.intervals.len() && (#[trigger] q.intervals[j]).is_useful ==> {
            &&& q.intervals[j].bytes_acked + q.intervals[j].bytes_lost <= u64::MAX
            &&& !utility_available(q.intervals[j]) ==> q.intervals[j].bytes_acked + q.intervals[j].bytes_lost
                + lost_bytes + (if first_incomplete(q, j) {
                contained_acked_bytes(q.intervals[j], q.pending_acked_packets)
            } else {
                0
            }) <= u64::MAX
        }
}

/// The views of an optional vector of intervals.
pub open spec fn option_views(r: Option<Vec<MonitorInterval>>) -> Option<Seq<MonitorIntervalView>> {
    match r {
        Some(v) => Some(views(v@)),
        None => None,
    }
}

/// Useful intervals whose utility is available, in `s`.
pub open spec fn count_useful_available(s: Seq<MonitorIntervalView>) -> nat
    decreases s.len(),
{
    if s.len() == 0 {
        0
    } else {
        count_useful_available(s.drop_last()) + if s.last().is_useful && utility_available(s.last()) {
            1nat
        } else {
            0nat
        }
    }
}

/// Counting over a sequence with one more sample.
pub proof fn lemma_count_reliable_push(s: Seq<PacketRttSample>, x: PacketRttSample)
    ensures
        count_reliable(s.push(x)) == count_reliable(s) + if x.is_reliable { 1nat } else { 0nat },
        count_reliable_for_gradient(s.push(x)) == count_reliable_for_gradient(s)
            + if x.is_reliable_for_gradient_calculation { 1nat } else { 0nat },
{
    assert(s.push(x).drop_last() =~= s);
}

/// No more samples are reliable than there are samples.
pub proof fn lemma_count_reliable_len(s: Seq<PacketRttSample>)
    ensures
        count_reliable(s) <= s.len(),
        count_reliable_for_gradient(s) <= s.len(),
    decreases s.len(),
{
    if s.len() > 0 {
        lemma_count_reliable_len(s.drop_last());
    }
}

/// Recording an acknowledgement keeps an interval well formed, and changes
/// neither its flags, its packet range, its send times nor its sent or lost bytes.
pub proof fn lemma_record_ack(iv: MonitorIntervalView, p: AckedPacket, reliable: bool, ctx: AckContext)
    requires
        interval_wf(iv),
    ensures
        interval_wf(record_ack(iv, p, reliable, ctx)),
        record_ack(iv, p, reliable, ctx).is_useful == iv.is_useful,
        record_ack(iv, p, reliable, ctx).first_packet_sent_time == iv.first_packet_sent_time,
        record_ack(iv, p, reliable, ctx).last_packet_sent_time == iv.last_packet_sent_time,
        record_ack(iv, p, reliable, ctx).bytes_sent == iv.bytes_sent,
        record_ack(iv, p, reliable, ctx).bytes_lost == iv.bytes_lost,
        record_ack(iv, p, reliable, ctx).bytes_acked <= iv.bytes_acked + p.bytes_acked,
        record_ack(iv, p, reliable, ctx).first_packet_number == iv.first_packet_number,
        record_ack(iv, p, reliable, ctx).last_packet_number == iv.last_packet_number,
{
    lemma_count_reliable_push(iv.packet_rtt_samples, rtt_sample(p, reliable, ctx));
}

/// Recording acknowledgements keeps an interval well formed, and adds at most
/// their bytes to its acknowledged bytes.
pub proof fn lemma_record_acks(
    iv: MonitorIntervalView,
    pkts: Seq<AckedPacket>,
    answers: Seq<bool>,
    ctx: AckContext,
)
    requires
        interval_wf(iv),
    ensures
        interval_wf(record_acks(iv, pkts, answers, ctx)),
        record_acks(iv, pkts, answers, ctx).is_useful == iv.is_useful,
        record_acks(iv, pkts, answers, ctx).first_packet_sent_time == iv.first_packet_sent_time,
        record_acks(iv, pkts, answers, ctx).last_packet_sent_time == iv.last_packet_sent_time,
        record_acks(iv, pkts, answers, ctx).bytes_sent == iv.bytes_sent,
        record_acks(iv, pkts, answers, ctx).bytes_lost == iv.bytes_lost,
        record_acks(iv, pkts, answers, ctx).bytes_acked <= iv.bytes_acked + contained_acked_bytes(iv, pkts),
        record_acks(iv, pkts, answers, ctx).first_packet_number == iv.first_packet_number,
        record_acks(iv, pkts, answers, ctx).last_packet_number == iv.last_packet_number,
    decreases pkts.len(),
{
    if pkts.len() > 0 {
        lemma_record_acks(iv, pkts.drop_last(), answers, ctx);
        let prev = record_acks(iv, pkts.drop_last(), answers, ctx);
        lemma_record_ack(prev, pkts.last(), answers[contained_count(iv, pkts.drop_last()) as int], ctx);
    }
}

/// The packets and bytes of a prefix that belong to an interval grow by one
/// packet at a time, up to those of the whole sequence.
pub proof fn lemma_contained_take(iv: MonitorIntervalView, pkts: Seq<AckedPacket>, j: int)
    requires
        0 <= j < pkts.len(),
    ensures
        contained_count(iv, pkts.take(j + 1)) == contained_count(iv, pkts.take(j)) + if contains_packet(
            iv,
            pkts[j].packet_number as nat,
        ) {
            1nat
        } else {
            0nat
        },
        contained_count(iv, pkts.take(j + 1)) <= contained_count(iv, pkts),
        contained_acked_bytes(iv, pkts.take(j + 1)) == contained_acked_bytes(iv, pkts.take(j)) + if contains_packet(
            iv,
            pkts[j].packet_number as nat,
        ) {
            pkts[j].bytes_acked as nat
        } else {
            0nat
        },
        contained_acked_bytes(iv, pkts.take(j + 1)) <= contained_acked_bytes(iv, pkts),
    decreases pkts.len(),
{
    assert(pkts.take(j + 1).drop_last() =~= pkts.take(j));
    if j + 1 < pkts.len() {
        assert(pkts.drop_last().take(j + 1) =~= pkts.take(j + 1));
        assert(pkts.drop_last().take(j) =~= pkts.take(j));
        lemma_contained_take(iv, pkts.drop_last(), j);
    } else {
        assert(pkts.take(j + 1) =~= pkts);
    }
}

/// Intervals with the same packet range hold the same packets and bytes of a sequence.
pub proof fn lemma_contained_same_range(a: MonitorIntervalView, b: MonitorIntervalView, pkts: Seq<AckedPacket>)
    requires
        a.first_packet_number == b.first_packet_number,
        a.last_packet_number == b.last_packet_number,
    ensures
        contained_acked_bytes(a, pkts) == contained_acked_bytes(b, pkts),
        contained_count(a, pkts) == contained_count(b, pkts),
    decreases pkts.len(),
{
    if pkts.len() > 0 {
        lemma_contained_same_range(a, b, pkts.drop_last());
    }
}

/// The requests of a congestion event are as many as the pending
/// acknowledgements of the first useful interval whose utility is not yet
/// available.
pub proof fn lemma_request_count(s: Seq<MonitorIntervalView>, pending: Seq<AckedPacket>, i: int)
    requires
        0 <= i < s.len(),
        s[i].is_useful,
        !utility_available(s[i]),
        forall|i2: int| 0 <= i2 < i && (#[trigger] s[i2]).is_useful ==> utility_available(s[i2]),
    ensures
        request_count(s, pending) == contained_count(s[i], pending),
    decreases i,
{
    if i > 0 {
        assert(s[0].is_useful ==> utility_available(s[0]));
        assert forall|i2: int| 0 <= i2 < i - 1 && (#[trigger] s.drop_first()[i2]).is_useful implies utility_available(
            s.drop_first()[i2],
        ) by {
            assert(s.drop_first()[i2] == s[i2 + 1]);
        }
        lemma_request_count(s.drop_first(), pending, i - 1);
    }
}

/// Counting over a prefix that grows by one interval.
pub proof fn lemma_count_useful_available_take(s: Seq<MonitorIntervalView>, k: int)
    requires
        0 <= k < s.len(),
    ensures
        count_useful_available(s.take(k + 1)) == count_useful_available(s.take(k)) + if s[k].is_useful
            && utility_available(s[k]) {
            1nat
        } else {
            0nat
        },
{
    assert(s.take(k + 1).drop_last() =~= s.take(k));
}

/// No more intervals are useful and available than there are intervals,
/// nor than there are useful ones.
pub proof fn lemma_count_useful_available_le(s: Seq<MonitorIntervalView>)
    ensures
        count_useful_available(s) <= useful_only(s).len(),
        count_useful_available(s) <= s.len(),
    decreases s.len(),
{
    if s.len() > 0 {
        lemma_count_useful_available_le(s.drop_last());
    }
}

/// When as many intervals are useful and available as are useful, the
/// utility of every useful interval is available.
pub proof fn lemma_count_useful_available_all(s: Seq<MonitorIntervalView>)
    requires
        count_useful_available(s) >= useful_only(s).len(),
    ensures
        forall|j: int| 0 <= j < s.len() && (#[trigger] s[j]).is_useful ==> utility_available(s[j]),
    decreases s.len(),
{
    if s.len() > 0 {
        lemma_count_useful_available_le(s.drop_last());
        lemma_count_useful_available_all(s.drop_last());
        assert forall|j: int| 0 <= j < s.len() && (#[trigger] s[j]).is_useful implies utility_available(s[j]) by {
            if j < s.len() - 1 {
                assert(s[j] == s.drop_last()[j]);
            }
        }
    }
}

/// Sequences of intervals with the same `is_useful` flags have as many useful ones.
pub proof fn lemma_useful_only_same_flags(s1: Seq<MonitorIntervalView>, s2: Seq<MonitorIntervalView>)
    requires
        s1.len() == s2.len(),
        forall|j: int| 0 <= j < s1.len() ==> (#[trigger] s1[j]).is_useful == s2[j].is_useful,
    ensures
        useful_only(s1).len() == useful_only(s2).len(),
    decreases s1.len(),
{
    if s1.len() > 0 {
        assert forall|j: int| 0 <= j < s1.drop_last().len() implies (#[trigger] s1.drop_last()[j]).is_useful
            == s2.drop_last()[j].is_useful by {
            assert(s1.drop_last()[j] == s1[j]);
            assert(s2.drop_last()[j] == s2[j]);
        }
        lemma_useful_only_same_flags(s1.drop_last(), s2.drop_last());
    }
}

/// What a scan over the first `k` intervals keeps: the number of intervals
/// and their `is_useful` flags, the intervals it has not reached, the well
/// formedness of every interval; it counts no more available intervals than
/// the useful and available ones it has passed, and its pending
/// acknowledgements are the queue's or none.
pub proof fn lemma_scan(q: QueueView, ev: CongestionEvent, answers: Seq<bool>, k: nat)
    requires
        queue_wf(q),
        k <= q.intervals.len(),
    ensures
        scan(q, ev, answers, k).intervals.len() == q.intervals.len(),
        forall|j: int| 0 <= j < q.intervals.len() ==> (#[trigger] scan(q, ev, answers, k).intervals[j]).is_useful
            == q.intervals[j].is_useful,
        forall|j: int| k <= j < q.intervals.len() ==> #[trigger] scan(q, ev, answers, k).intervals[j] == q.intervals[j],
        forall|j: int| 0 <= j < q.intervals.len() ==> interval_wf(#[trigger] scan(q, ev, answers, k).intervals[j]),
        scan(q, ev, answers, k).available <= count_useful_available(scan(q, ev, answers, k).intervals.take(k as int)),
    decreases k,
{
    if k > 0 {
        let i = k - 1;
        lemma_scan(q, ev, answers, i as nat);
        let st = scan(q, ev, answers, i as nat);
        let nx = scan(q, ev, answers, k);
        assert(nx == scan_step(q, ev, answers, st, i));
        let iv = st.intervals[i];
        lemma_count_useful_available_take(nx.intervals, i);
        if !(st.stopped || !iv.is_useful || utility_available(iv)) {
            let lost = MonitorIntervalView { bytes_lost: iv.bytes_lost + ev.lost_bytes, ..iv };
            let pending = if st.acks_taken { Seq::empty() } else { q.pending_acked_packets };
            lemma_record_acks(lost, pending, answers, ack_context(q));
        }
        assert(nx.intervals.take(i) =~= st.intervals.take(i));
    }
}

/// Once a scan has stopped, further steps change nothing.
pub proof fn lemma_scan_stopped(q: QueueView, ev: CongestionEvent, answers: Seq<bool>, k: nat, m: nat)
    requires
        k <= m,
        scan(q, ev, answers, k).stopped,
    ensures
        scan(q, ev, answers, m) == scan(q, ev, answers, k),
    decreases m - k,
{
    if m > k {
        lemma_scan_stopped(q, ev, answers, k, (m - 1) as nat);
    }
}

/// The useful intervals of two sequences in a row are those of each, in a row.
pub proof fn lemma_useful_only_concat(a: Seq<MonitorIntervalView>, b: Seq<MonitorIntervalView>)
    ensures
        useful_only(a + b) == useful_only(a) + useful_only(b),
    decreases b.len(),
{
    if b.len() == 0 {
        assert(a + b =~= a);
        assert(useful_only(a) + useful_only(b) =~= useful_only(a));
    } else {
        assert((a + b).drop_last() =~= a + b.drop_last());
        lemma_useful_only_concat(a, b.drop_last());
        if b.last().is_useful {
            assert(useful_only(a) + useful_only(b) =~= (useful_only(a) + useful_only(b.drop_last())).push(b.last()));
        }
    }
}

/// Every interval that `useful_only` keeps is useful and comes from the sequence.
pub proof fn lemma_useful_only_preserves(s: Seq<MonitorIntervalView>)
    ensures
        forall|j: int| 0 <= j < useful_only(s).len() ==> (#[trigger] useful_only(s)[j]).is_useful
            && exists|k: int| 0 <= k < s.len() && s[k] == useful_only(s)[j],
    decreases s.len(),
{
    if s.len() > 0 {
        lemma_useful_only_preserves(s.drop_last());
        assert forall|j: int| 0 <= j < useful_only(s).len() implies (#[trigger] useful_only(s)[j]).is_useful
            && exists|k: int| 0 <= k < s.len() && s[k] == useful_only(s)[j] by {
            if j < useful_only(s.drop_last()).len() {
                assert(useful_only(s)[j] == useful_only(s.drop_last())[j]);
                let k = choose|k: int| 0 <= k < s.drop_last().len() && s.drop_last()[k] == useful_only(s.drop_last())[j];
                assert(s[k] == s.drop_last()[k]);
            } else {
                assert(s[s.len() - 1] == useful_only(s)[j]);
            }
        }
    }
}

/// A single interval is its own useful part when it is useful.
pub proof fn lemma_useful_only_single(x: MonitorIntervalView)
    ensures
        useful_only(seq![x]).len() == if x.is_useful { 1nat } else { 0nat },
{
    let s = seq![x];
    assert(s.len() == 1);
    assert(s.drop_last() =~= Seq::<MonitorIntervalView>::empty());
    assert(s.last() == x);
    assert(useful_only(s.drop_last()).len() == 0);
    if x.is_useful {
        assert(useful_only(s) == useful_only(s.drop_last()).push(x));
    } else {
        assert(useful_only(s) == useful_only(s.drop_last()));
    }
}

/// A congestion event keeps the queue's counters in agreement with its
/// intervals, whatever the reliability answers and however large the byte
/// counts: the useful count is the number of useful intervals, the available
/// count is no larger, and every interval stays well formed. Either every
/// interval leaves the queue, or every interval stays in its place with its
/// `is_useful` flag.
pub proof fn lemma_congestion_event_keeps_counts(q: QueueView, ev: CongestionEvent, answers: Seq<bool>)
    requires
        queue_wf(q),
    ensures
        queue_wf(congestion_event_outcome(q, ev, answers).0),
        congestion_event_outcome(q, ev, answers).0.intervals.len() == 0 || (congestion_event_outcome(
            q,
            ev,
            answers,
        ).0.intervals.len() == q.intervals.len() && forall|j: int|
            0 <= j < q.intervals.len() ==> (#[trigger] congestion_event_outcome(q, ev, answers).0.intervals[j]).is_useful
                == q.intervals[j].is_useful),
{
    if q.num_useful_intervals > 0 {
        let n = q.intervals.len();
        let st = scan(q, ev, answers, n);
        lemma_scan(q, ev, answers, n);
        assert(st.intervals.take(n as int) =~= st.intervals);
        lemma_count_useful_available_le(st.intervals);
        lemma_useful_only_same_flags(st.intervals, q.intervals);
        assert(useful_only(Seq::<MonitorIntervalView>::empty()).len() == 0);
    }
}

/// An acknowledgement counts toward an interval exactly when its packet
/// number lies within the interval's packet range: then it adds its bytes
/// and one RTT sample; a packet below the first or above the last leaves
/// the interval as it was.
pub proof fn lemma_ack_counts_only_in_range(iv: MonitorIntervalView, p: AckedPacket, reliable: bool, ctx: AckContext)
    ensures
        iv.first_packet_number <= p.packet_number <= iv.last_packet_number ==> {
            &&& record_ack(iv, p, reliable, ctx).bytes_acked == iv.bytes_acked + p.bytes_acked
            &&& record_ack(iv, p, reliable, ctx).packet_rtt_samples == iv.packet_rtt_samples.push(
                rtt_sample(p, reliable, ctx),
            )
        },
        p.packet_number < iv.first_packet_number ==> record_ack(iv, p, reliable, ctx) == iv,
        p.packet_number > iv.last_packet_number ==> record_ack(iv, p, reliable, ctx) == iv,
{
}

/// Every interval that a congestion event hands on has all of its sent
/// bytes accounted for, as acknowledged or lost, and enough reliable RTT
/// samples: an interval with bytes still in flight is never handed on.
pub proof fn lemma_handed_on_intervals_are_complete(q: QueueView, ev: CongestionEvent, answers: Seq<bool>)
    requires
        queue_wf(q),
    ensures
        congestion_event_outcome(q, ev, answers).1 matches Some(v) ==> forall|j: int|
            0 <= j < v.len() ==> (#[trigger] v[j]).is_useful && v[j].bytes_acked + v[j].bytes_lost == v[j].bytes_sent
                && v[j].has_enough_reliable_rtt,
{
    if q.num_useful_intervals > 0 {
        let n = q.intervals.len();
        let st = scan(q, ev, answers, n);
        lemma_scan(q, ev, answers, n);
        assert(st.intervals.take(n as int) =~= st.intervals);
        lemma_useful_only_same_flags(st.intervals, q.intervals);
        if !(q.num_useful_intervals > st.available && !st.invalid) && !st.invalid {
            lemma_count_useful_available_all(st.intervals);
            lemma_useful_only_preserves(st.intervals);
            let v = useful_only(st.intervals);
            assert forall|j: int| 0 <= j < v.len() implies (#[trigger] v[j]).is_useful && v[j].bytes_acked
                + v[j].bytes_lost == v[j].bytes_sent && v[j].has_enough_reliable_rtt by {
                let k = choose|k: int| 0 <= k < st.intervals.len() && st.intervals[k] == v[j];
                assert(st.intervals[k].is_useful);
                assert(utility_available(st.intervals[k]));
            }
        }
    }
}

impl PccMonitorIntervalQueue {
    /// The queue's own invariant: `queue_wf` of its value.
    pub closed spec fn wf(&self) -> bool {
        &&& queue_wf(self@)
        &&& self.monitor_intervals@.len() == self@.intervals.len()
    }

    /// A well-formed queue counts as useful exactly the useful intervals it
    /// holds, counts no more of them as available than are useful, and each
    /// of its intervals is well formed. Every operation that changes the
    /// queue keeps it well formed.
    pub proof fn lemma_wf(&self)
        requires
            self.wf(),
        ensures
            self@.num_useful_intervals == useful_only(self@.intervals).len(),
            self@.num_available_intervals <= self@.num_useful_intervals,
            forall|j: int| 0 <= j < self@.intervals.len() ==> interval_wf(#[trigger] self@.intervals[j]),
    {
    }

    /// An empty queue with no pending acknowledgements.
    pub fn new() -> (r: Self)
        ensures
            r.wf(),
            r@.intervals.len() == 0,
            r@.pending_acked_packets.len() == 0,
            r@.num_useful_intervals == 0,
            r@.num_available_intervals == 0,
            duration_nanos(r@.pending_rtt) == 0,
            duration_nanos(r@.pending_avg_rtt) == 0,
            duration_nanos(r@.pending_ack_interval) == 0,
    {
        let r = Self {
            pending_rtt: duration_zero(),
            pending_avg_rtt: duration_zero(),
            pending_ack_interval: duration_zero(),
            pending_event_time: instant_now(),
            num_useful_intervals: 0,
            num_available_intervals: 0,
            monitor_intervals: Vec::new(),
            pending_acked_packets: VecDeque::new(),
        };
        assert(r@.intervals =~= Seq::<MonitorIntervalView>::empty());
        r
    }

    /// Whether `packet_number` lies in the packet range of `interval`.
    pub fn interval_contains_packet(interval: &MonitorInterval, packet_number: u64) -> (r: bool)
        ensures
            r == contains_packet(interval@, packet_number as nat),
            r == (interval.first_packet_number <= packet_number && packet_number <= interval.last_packet_number),
    {
        packet_number >= interval.first_packet_number && packet_number <= interval.last_packet_number
    }

    pub fn num_useful_intervals(&self) -> (r: usize)
        ensures
            r == self@.num_useful_intervals,
    {
        self.num_useful_intervals
    }

    /// Appends a fresh interval that sends at `sending_rate`.
    pub fn enqueue_new_monitor_interval(
        &mut self,
        sending_rate: QuicBandwidth,
        is_useful: bool,
        rtt_fluctuation_tolerance_ratio_bits: u64,
        rtt: Duration,
    )
        requires
            old(self).wf(),
        ensures
            final(self).wf(),
            final(self)@.intervals.len() == old(self)@.intervals.len() + 1,
            final(self)@.intervals.drop_last() == old(self)@.intervals,
            fresh_interval(
                final(self)@.intervals.last(),
                sending_rate,
                is_useful,
                rtt_fluctuation_tolerance_ratio_bits,
                rtt,
            ),
            final(self)@.num_useful_intervals == old(self)@.num_useful_intervals + if is_useful { 1nat } else { 0nat },
            final(self)@.num_available_intervals == old(self)@.num_available_intervals,
            final(self)@.pending_acked_packets == old(self)@.pending_acked_packets,
            final(self)@.pending_rtt == old(self)@.pending_rtt,
            final(self)@.pending_avg_rtt == old(self)@.pending_avg_rtt,
            final(self)@.pending_ack_interval == old(self)@.pending_ack_interval,
            final(self)@.pending_event_time == old(self)@.pending_event_time,
    {
        let interval = MonitorInterval {
            sending_rate,
            is_useful,
            rtt_fluctuation_tolerance_ratio_bits,
            first_packet_sent_time: instant_now(),
            last_packet_sent_time: instant_now(),
            first_packet_number: 0,
            last_packet_number: 0,
            bytes_sent: 0,
            bytes_acked: 0,
            bytes_lost: 0,
            rtt_on_monitor_start: rtt,
            rtt_on_monitor_end: rtt,
            min_rtt: rtt,
            num_reliable_rtt: 0,
            num_reliable_rtt_for_gradient_calculation: 0,
            has_enough_reliable_rtt: false,
            is_monitor_duration_extended: false,
            packet_sent_intervals: Vec::new(),
            packet_rtt_samples: Vec::new(),
            lost_packet_samples: Vec::new(),
        };
        assert(interval@.packet_rtt_samples =~= Seq::<PacketRttSample>::empty());
        let ghost old_ivs = self@.intervals;
        self.monitor_intervals.push(interval);
        proof {
            assert(self@.intervals =~= old_ivs.push(interval@));
            lemma_useful_only_push(old_ivs, interval@);
        }
        let num_intervals = self.monitor_intervals.len();
        proof {
            lemma_useful_only_len(old_ivs);
            assert(self.num_useful_intervals < num_intervals);
        }
        if is_useful {
            self.num_useful_intervals = self.num_useful_intervals + 1;
        }
    }

    /// Accounts one sent packet to the interval that is being filled; with
    /// no interval in the queue the packet is not accounted.
    pub fn on_packet_sent(
        &mut self,
        sent_time: Instant,
        packet_number: u64,
        bytes: u64,
        sent_interval: Duration,
    )
        requires
            old(self).wf(),
            old(self)@.intervals.len() > 0 ==> old(self)@.intervals.last().bytes_sent + bytes <= u64::MAX,
        ensures
            final(self).wf(),
            old(self)@.intervals.len() == 0 ==> final(self)@ == old(self)@,
            old(self)@.intervals.len() > 0 ==> final(self)@ == (QueueView {
                intervals: old(self)@.intervals.update(
                    old(self)@.intervals.len() - 1,
                    record_sent(old(self)@.intervals.last(), sent_time, packet_number, bytes, sent_interval),
                ),
                ..old(self)@
            }),
    {
        let n = self.monitor_intervals.len();
        if n == 0 {
            return;
        }
        let ghost old_ivs = self.monitor_intervals@;
        let interval = &mut self.monitor_intervals[n - 1];
        if interval.bytes_sent == 0 {
            interval.first_packet_sent_time = sent_time;
            interval.first_packet_number = packet_number;
        }
        interval.last_packet_sent_time = sent_time;
        interval.last_packet_number = packet_number;
        interval.bytes_sent = interval.bytes_sent + bytes;
        interval.packet_sent_intervals.push(sent_interval);
        proof {
            let new_iv = self.monitor_intervals@[n - 1];
            assert(self.monitor_intervals@ =~= old_ivs.update(n - 1, new_iv));
            assert(new_iv@ == record_sent(views(old_ivs).last(), sent_time, packet_number, bytes, sent_interval));
            assert(views(self.monitor_intervals@) =~= views(old_ivs).update(n - 1, new_iv@));
            lemma_useful_only_update_same_flag(views(old_ivs), n - 1, new_iv@);
        }
    }

    /// The oldest interval, if any.
    pub fn front(&self) -> (r: Option<&MonitorInterval>)
        requires
            self.wf(),
        ensures
            r matches Some(iv) ==> self@.intervals.len() > 0 && iv@ == self@.intervals[0],
            r is None <==> self@.intervals.len() == 0,
    {
        if self.monitor_intervals.len() == 0 {
            None
        } else {
            Some(&self.monitor_intervals[0])
        }
    }

    /// The newest interval, the one that is being filled, if any.
    pub fn current(&self) -> (r: Option<&MonitorInterval>)
        requires
            self.wf(),
        ensures
            r matches Some(iv) ==> self@.intervals.len() > 0 && iv@ == self@.intervals.last(),
            r is None <==> self@.intervals.len() == 0,
    {
        let n = self.monitor_intervals.len();
        if n == 0 {
            None
        } else {
            Some(&self.monitor_intervals[n - 1])
        }
    }

    /// Marks the newest interval as one whose monitor duration was extended.
    pub fn extend_current_interval(&mut self)
        requires
            old(self).wf(),
        ensures
            final(self).wf(),
            old(self)@.intervals.len() == 0 ==> final(self)@ == old(self)@,
            old(self)@.intervals.len() > 0 ==> final(self)@ == (QueueView {
                intervals: old(self)@.intervals.update(
                    old(self)@.intervals.len() - 1,
                    MonitorIntervalView { is_monitor_duration_extended: true, ..old(self)@.intervals.last() },
                ),
                ..old(self)@
            }),
    {
        let n = self.monitor_intervals.len();
        if n == 0 {
            return;
        }
        let ghost old_ivs = self.monitor_intervals@;
        let interval = &mut self.monitor_intervals[n - 1];
        interval.is_monitor_duration_extended = true;
        proof {
            let new_iv = self.monitor_intervals@[n - 1];
            assert(self.monitor_intervals@ =~= old_ivs.update(n - 1, new_iv));
            assert(views(self.monitor_intervals@) =~= views(old_ivs).update(n - 1, new_iv@));
            lemma_useful_only_update_same_flag(views(old_ivs), n - 1, new_iv@);
        }
    }

    /// Whether the RTT can have inflated: not with an empty queue, not while
    /// the oldest interval has no RTT at its start, and not while the latest
    /// RTT is at most the average.
    pub fn rtt_inflation_possible(&self, latest_rtt: &Duration, avg_rtt: &Duration) -> (r: bool)
        requires
            self.wf(),
        ensures
            r == !(self@.intervals.len() == 0 || duration_nanos(self@.intervals[0].rtt_on_monitor_start) == 0
                || duration_nanos(*latest_rtt) <= duration_nanos(*avg_rtt)),
    {
        if self.monitor_intervals.len() == 0 {
            return false;
        }
        assert(self@.intervals[0] == self.monitor_intervals@[0]@);
        if duration_as_nanos(&self.monitor_intervals[0].rtt_on_monitor_start) == 0 {
            return false;
        }
        duration_as_nanos(latest_rtt) > duration_as_nanos(avg_rtt)
    }

    pub fn is_empty(&self) -> (r: bool)
        requires
            self.wf(),
        ensures
            r == (self@.intervals.len() == 0),
    {
        self.monitor_intervals.len() == 0
    }

    pub fn size(&self) -> (r: usize)
        requires
            self.wf(),
        ensures
            r == self@.intervals.len(),
    {
        self.monitor_intervals.len()
    }

    /// Drops every interval after RTT inflation was seen while starting up.
    pub fn on_rtt_inflation_in_starting(&mut self)
        requires
            old(self).wf(),
        ensures
            final(self).wf(),
            final(self)@ == (QueueView {
                intervals: Seq::empty(),
                num_useful_intervals: 0,
                num_available_intervals: 0,
                ..old(self)@
            }),
    {
        self.monitor_intervals.clear();
        self.num_useful_intervals = 0;
        self.num_available_intervals = 0;
        assert(self@.intervals =~= Seq::<MonitorIntervalView>::empty());
    }

    /// Records the pending acknowledgements into `interval`, oldest first,
    /// and empties `pending`; the `k`-th of them that belongs to `interval`
    /// adds its RTT sample with reliability `answers[k]`.
    fn record_pending_acks(
        interval: &mut MonitorInterval,
        pending: &mut VecDeque<AckedPacket>,
        answers: &Vec<bool>,
        ctx_rtt: Duration,
        ctx_avg_rtt: Duration,
        ctx_time: Instant,
    )
        requires
            interval_wf(old(interval)@),
            old(interval).bytes_acked + contained_acked_bytes(old(interval)@, old(pending)@) <= u64::MAX,
            contained_count(old(interval)@, old(pending)@) <= answers@.len(),
        ensures
            final(pending)@.len() == 0,
            final(interval)@ == record_acks(
                old(interval)@,
                old(pending)@,
                answers@,
                AckContext { pending_avg_rtt: ctx_avg_rtt, pending_rtt: ctx_rtt, pending_event_time: ctx_time },
            ),
    {
        let ghost ctx = AckContext { pending_avg_rtt: ctx_avg_rtt, pending_rtt: ctx_rtt, pending_event_time: ctx_time };
        let ghost start = interval@;
        let ghost all = pending@;
        let ghost mut j: int = 0;
        let mut k: usize = 0;
        let num_answers = answers.len();
        assert(all.take(0) =~= Seq::<AckedPacket>::empty());
        assert(all.skip(0) =~= all);
        while pending.len() > 0
            invariant
                num_answers == answers@.len(),
                0 <= j <= all.len(),
                pending@ == all.skip(j),
                k == contained_count(start, all.take(j)),
                contained_count(start, all) <= answers@.len(),
                ctx == (AckContext { pending_avg_rtt: ctx_avg_rtt, pending_rtt: ctx_rtt, pending_event_time: ctx_time }),
                interval_wf(start),
                start.bytes_acked + contained_acked_bytes(start, all) <= u64::MAX,
                interval.first_packet_number == start.first_packet_number,
                interval.last_packet_number == start.last_packet_number,
                interval@ == record_acks(start, all.take(j), answers@, ctx),
                interval_wf(interval@),
                interval.bytes_acked <= start.bytes_acked + contained_acked_bytes(start, all.take(j)),
            decreases pending@.len(),
        {
            proof {
                assert(j < all.len());
                lemma_contained_take(start, all, j);
                assert(all.take(j + 1).drop_last() =~= all.take(j));
            }
            if let Some(p) = pending.pop_front() {
                proof {
                    assert(p == all[j]);
                    assert(all.take(j + 1).last() == p);
                    assert(pending@ =~= all.skip(j + 1));
                }
                let ghost before = interval@;
                let ghost answer = answers@[k as int];
                if Self::interval_contains_packet(interval, p.packet_number) {
                    if interval.bytes_acked == 0 {
                        interval.rtt_on_monitor_start = ctx_avg_rtt;
                    }
                    interval.bytes_acked = interval.bytes_acked + p.bytes_acked;
                    let is_reliable = answers[k];
                    let is_reliable_for_gradient = is_reliable;
                    interval.packet_rtt_samples.push(
                        PacketRttSample {
                            packet_number: p.packet_number,
                            sample_rtt: ctx_rtt,
                            ack_timestamp: ctx_time,
                            is_reliable,
                            is_reliable_for_gradient_calculation: is_reliable_for_gradient,
                        },
                    );
                    let num_samples = interval.packet_rtt_samples.len();
                    proof {
                        lemma_count_reliable_push(before.packet_rtt_samples, rtt_sample(p, is_reliable, ctx));
                        lemma_count_reliable_len(before.packet_rtt_samples);
                        assert(interval.num_reliable_rtt < num_samples);
                        assert(interval.num_reliable_rtt_for_gradient_calculation < num_samples);
                    }
                    if is_reliable {
                        interval.num_reliable_rtt = interval.num_reliable_rtt + 1;
                    }
                    if is_reliable_for_gradient {
                        interval.num_reliable_rtt_for_gradient_calculation =
                            interval.num_reliable_rtt_for_gradient_calculation + 1;
                    }
                    if interval.num_reliable_rtt >= K_MIN_RELIABLE_RTT {
                        interval.has_enough_reliable_rtt = true;
                    }
                    k = k + 1;
                    proof {
                        assert(interval@ =~= record_ack(before, p, answer, ctx));
                    }
                }
                proof {
                    assert(interval@ =~= record_ack(before, p, answer, ctx));
                    lemma_record_ack(before, p, answer, ctx);
                    j = j + 1;
                }
            }
        }
        assert(all.take(j) =~= all);
    }

    /// Copies acknowledgements into a queue, in order.
    fn deque_of(packets: &Vec<AckedPacket>) -> (r: VecDeque<AckedPacket>)
        ensures
            r@ == packets@,
    {
        let mut r: VecDeque<AckedPacket> = VecDeque::new();
        let mut j: usize = 0;
        while j < packets.len()
            invariant
                j <= packets@.len(),
                r@ == packets@.take(j as int),
            decreases packets@.len() - j,
        {
            r.push_back(packets[j]);
            j = j + 1;
            assert(r@ =~= packets@.take(j as int));
        }
        assert(packets@.take(j as int) =~= packets@);
        r
    }

    /// The state of a scan in which this queue's intervals stand.
    spec fn scan_state(&self, acks_taken: bool, invalid: bool, stopped: bool) -> ScanState {
        ScanState {
            intervals: views(self.monitor_intervals@),
            acks_taken,
            available: self.num_available_intervals as nat,
            invalid,
            stopped,
        }
    }

    /// Takes the acknowledgements and losses of a congestion event. The
    /// acknowledgements that arrived with the previous event are recorded
    /// into the first useful interval whose utility was not yet available,
    /// and this event's acknowledgements wait for the next one. When every
    /// useful interval has its utility available (or the utilities are
    /// invalid), all intervals leave the queue, and the useful ones are
    /// returned for the utility computation unless the utilities are invalid.
    /// `reliability` answers, in order, the requests that
    /// `reliability_requests` lists: whether each RTT sample is reliable.
    #[verifier::rlimit(40)]
    pub fn on_congestion_event_with_reliability(
        &mut self,
        acked_packets: Vec<AckedPacket>,
        lost_bytes: u64,
        avg_rtt: Duration,
        latest_rtt: Duration,
        min_rtt: Duration,
        event_time: Instant,
        ack_interval: Duration,
        reliability: &Vec<bool>,
    ) -> (r: Option<Vec<MonitorInterval>>)
        requires
            old(self).wf(),
            congestion_event_fits(old(self)@, lost_bytes as nat),
            reliability@.len() == reliability_requests(old(self)@, ack_interval, latest_rtt).len(),
        ensures
            final(self).wf(),
            final(self)@.num_useful_intervals == useful_only(final(self)@.intervals).len(),
            final(self)@.intervals.len() == 0 || (final(self)@.intervals.len() == old(self)@.intervals.len()
                && forall|j: int|
                0 <= j < old(self)@.intervals.len() ==> (#[trigger] final(self)@.intervals[j]).is_useful
                    == old(self)@.intervals[j].is_useful),
            congestion_event_outcome(
                    old(self)@,
                    CongestionEvent {
                        acked_packets: acked_packets@,
                        lost_bytes: lost_bytes as nat,
                        avg_rtt,
                        latest_rtt,
                        min_rtt,
                        event_time,
                        ack_interval,
                    },
                    reliability@,
                ) == (final(self)@, option_views(r)),
            r is Some ==> final(self)@.intervals.len() == 0,
            r matches Some(v) ==> forall|j: int|
                0 <= j < v@.len() ==> (#[trigger] v@[j]@).is_useful && utility_available(v@[j]@),
            r matches Some(v) ==> forall|j: int|
                0 <= j < v@.len() ==> (#[trigger] v@[j]).bytes_acked + v@[j].bytes_lost == v@[j].bytes_sent
                    && v@[j].has_enough_reliable_rtt,
    {
        let ghost q0 = self@;
        let ghost ev = CongestionEvent {
            acked_packets: acked_packets@,
            lost_bytes: lost_bytes as nat,
            avg_rtt,
            latest_rtt,
            min_rtt,
            event_time,
            ack_interval,
        };
        proof {
            lemma_congestion_event_keeps_counts(q0, ev, reliability@);
        }
        self.num_available_intervals = 0;
        if self.num_useful_intervals == 0 {
            proof {
                assert(congestion_event_outcome(q0, ev, reliability@) == (self@, option_views(None::<Vec<MonitorInterval>>)));
            }
            return None;
        }
        let mut has_invalid_utility = false;
        let mut stopped = false;
        let mut pending: VecDeque<AckedPacket> = VecDeque::new();
        std::mem::swap(&mut pending, &mut self.pending_acked_packets);
        let ctx_rtt = self.pending_rtt;
        let ctx_avg_rtt = self.pending_avg_rtt;
        let ctx_time = self.pending_event_time;
        let num_useful = self.num_useful_intervals;
        let n = self.monitor_intervals.len();
        let ghost mut absorbed = false;
        proof {
            assert(self.scan_state(false, false, false) == scan_start(q0));
        }
        let mut i: usize = 0;
        while i < n && !stopped
            invariant
                queue_wf(q0),
                congestion_event_fits(q0, lost_bytes as nat),
                q0.num_useful_intervals == num_useful,
                num_useful > 0,
                self.num_useful_intervals == num_useful,
                q0.intervals.len() == n,
                self.monitor_intervals@.len() == n,
                i <= n,
                ctx_rtt == q0.pending_rtt,
                ctx_avg_rtt == q0.pending_avg_rtt,
                ctx_time == q0.pending_event_time,
                ev == (CongestionEvent {
                    acked_packets: acked_packets@,
                    lost_bytes: lost_bytes as nat,
                    avg_rtt,
                    latest_rtt,
                    min_rtt,
                    event_time,
                    ack_interval,
                }),
                reliability@.len() == request_count(q0.intervals, q0.pending_acked_packets),
                !absorbed ==> forall|i2: int|
                    0 <= i2 < i && (#[trigger] q0.intervals[i2]).is_useful ==> utility_available(q0.intervals[i2]),
                pending@ == if absorbed { Seq::<AckedPacket>::empty() } else { q0.pending_acked_packets },
                scan(q0, ev, reliability@, i as nat) == self.scan_state(absorbed, has_invalid_utility, stopped),
            decreases n - i,
        {
            let ghost cur = self.scan_state(absorbed, has_invalid_utility, stopped);
            proof {
                lemma_scan(q0, ev, reliability@, i as nat);
                lemma_count_useful_available_le(cur.intervals.take(i as int));
                assert(cur.intervals[i as int] == q0.intervals[i as int]);
                assert(cur.intervals[i as int] == self.monitor_intervals@[i as int]@);
            }
            if !self.monitor_intervals[i].is_useful {
                i = i + 1;
                continue;
            }
            if Self::is_utility_available(&self.monitor_intervals[i]) {
                self.num_available_intervals = self.num_available_intervals + 1;
                proof {
                    assert(self.scan_state(absorbed, has_invalid_utility, stopped)
                        == scan_step(q0, ev, reliability@, cur, i as int));
                }
                i = i + 1;
                continue;
            }
            proof {
                let qi = q0.intervals[i as int];
                assert(qi.is_useful && !utility_available(qi));
                if !absorbed {
                    assert(first_incomplete(q0, i as int));
                    lemma_request_count(q0.intervals, q0.pending_acked_packets, i as int);
                }
                let lost_view = MonitorIntervalView { bytes_lost: qi.bytes_lost + lost_bytes as nat, ..qi };
                lemma_contained_same_range(lost_view, qi, pending@);
                assert(contained_acked_bytes(lost_view, Seq::<AckedPacket>::empty()) == 0);
                assert(contained_count(lost_view, Seq::<AckedPacket>::empty()) == 0);
            }
            let ghost old_pending = pending@;
            {
                let interval = &mut self.monitor_intervals[i];
                interval.bytes_lost = interval.bytes_lost + lost_bytes;
                Self::record_pending_acks(interval, &mut pending, reliability, ctx_rtt, ctx_avg_rtt, ctx_time);
            }
            let ghost lost_iv = MonitorIntervalView {
                bytes_lost: cur.intervals[i as int].bytes_lost + lost_bytes as nat,
                ..cur.intervals[i as int]
            };
            proof {
                lemma_record_acks(lost_iv, old_pending, reliability@, ack_context(q0));
                assert(pending@ =~= Seq::<AckedPacket>::empty());
                absorbed = true;
            }
            if Self::is_utility_available(&self.monitor_intervals[i]) {
                {
                    let interval = &mut self.monitor_intervals[i];
                    interval.rtt_on_monitor_end = avg_rtt;
                    interval.min_rtt = min_rtt;
                }
                has_invalid_utility = Self::has_invalid_utility(&self.monitor_intervals[i]);
                self.num_available_intervals = self.num_available_intervals + 1;
                if self.num_available_intervals >= self.num_useful_intervals {
                    stopped = true;
                }
            }
            proof {
                assert(views(self.monitor_intervals@) =~= scan_step(q0, ev, reliability@, cur, i as int).intervals);
                assert(self.scan_state(absorbed, has_invalid_utility, stopped) == scan_step(q0, ev, reliability@, cur, i as int));
            }
            i = i + 1;
        }
        let ghost answers = reliability@;
        let ghost st = scan(q0, ev, answers, n as nat);
        proof {
            if i < n {
                lemma_scan_stopped(q0, ev, answers, i as nat, n as nat);
            }
            lemma_scan(q0, ev, answers, n as nat);
            assert(st.intervals.take(n as int) =~= st.intervals);
            lemma_useful_only_same_flags(st.intervals, q0.intervals);
            lemma_count_useful_available_le(st.intervals);
        }
        self.pending_acked_packets = Self::deque_of(&acked_packets);
        self.pending_rtt = latest_rtt;
        self.pending_avg_rtt = avg_rtt;
        self.pending_ack_interval = ack_interval;
        self.pending_event_time = event_time;
        if self.num_useful_intervals > self.num_available_intervals && !has_invalid_utility {
            proof {
                assert(congestion_event_outcome(q0, ev, answers) == (self@, option_views(None::<Vec<MonitorInterval>>)));
            }
            return None;
        }
        let mut useful: Vec<MonitorInterval> = Vec::new();
        let mut intervals: Vec<MonitorInterval> = Vec::new();
        std::mem::swap(&mut intervals, &mut self.monitor_intervals);
        let ghost all = views(intervals@);
        let ghost q_mid = self@;
        let mut k: usize = 0;
        proof {
            assert(all == st.intervals);
            assert(all.skip(0) =~= all);
            assert(views(useful@) =~= useful_only(all.take(0)));
            if !has_invalid_utility {
                lemma_count_useful_available_all(all);
            }
        }
        while intervals.len() > 0
            invariant
                self.monitor_intervals@.len() == 0,
                self.pending_rtt == q_mid.pending_rtt,
                self.pending_avg_rtt == q_mid.pending_avg_rtt,
                self.pending_ack_interval == q_mid.pending_ack_interval,
                self.pending_event_time == q_mid.pending_event_time,
                self.pending_acked_packets@ == q_mid.pending_acked_packets,
                self.num_available_intervals == q_mid.num_available_intervals,
                k <= n,
                all.len() == n,
                views(intervals@) == all.skip(k as int),
                self.num_useful_intervals == useful_only(all.skip(k as int)).len(),
                !has_invalid_utility ==> views(useful@) == useful_only(all.take(k as int)),
                forall|j: int| 0 <= j < n && (#[trigger] all[j]).is_useful ==> (has_invalid_utility || utility_available(all[j])),
            decreases intervals@.len(),
        {
            let ghost rest = all.skip(k as int);
            proof {
                assert(rest.len() > 0);
                assert(rest =~= seq![rest[0]] + all.skip(k + 1));
                lemma_useful_only_concat(seq![rest[0]], all.skip(k + 1));
                assert(seq![rest[0]].drop_last() =~= Seq::<MonitorIntervalView>::empty());
                assert(all.take(k + 1) =~= all.take(k as int).push(all[k as int]));
                lemma_useful_only_push(all.take(k as int), all[k as int]);
            }
            let ghost before_remove = intervals@;
            let interval = intervals.remove(0);
            proof {
                assert forall|j: int| 0 <= j < intervals@.len() implies #[trigger] views(intervals@)[j] == all.skip(k + 1)[j] by {
                    assert(intervals@[j] == before_remove[j + 1]);
                    assert(views(before_remove)[j + 1] == all.skip(k as int)[j + 1]);
                }
                assert(interval@ == all[k as int]);
            }
            proof {
                lemma_useful_only_single(rest[0]);
                assert(useful_only(all.skip(k as int)).len() == useful_only(seq![rest[0]]).len() + useful_only(all.skip(k + 1)).len());
            }
            if interval.is_useful {
                self.num_useful_intervals = self.num_useful_intervals - 1;
                if !has_invalid_utility {
                    useful.push(interval);
                }
            }
            proof {
                assert(views(intervals@) =~= all.skip(k + 1));
                if !has_invalid_utility {
                    assert(views(useful@) =~= useful_only(all.take(k + 1)));
                }
            }
            k = k + 1;
        }
        self.num_available_intervals = 0;
        proof {
            assert(k == n);
            assert(all.take(k as int) =~= all);
            assert(self@.intervals =~= Seq::<MonitorIntervalView>::empty());
        }
        if has_invalid_utility {
            proof {
                assert(congestion_event_outcome(q0, ev, answers) == (self@, option_views(None::<Vec<MonitorInterval>>)));
            }
            None
        } else {
            proof {
                assert(congestion_event_outcome(q0, ev, answers) == (self@, option_views(Some(useful))));
                lemma_useful_only_preserves(all);
                assert forall|j: int| 0 <= j < useful@.len() implies (#[trigger] useful@[j]@).is_useful
                    && utility_available(useful@[j]@) by {
                    assert(useful@[j]@ == views(useful@)[j]);
                    let kk = choose|kk: int| 0 <= kk < all.len() && all[kk] == useful_only(all)[j];
                    assert(all[kk].is_useful);
                }
                assert forall|j: int| 0 <= j < useful@.len() implies (#[trigger] useful@[j]).bytes_acked
                    + useful@[j].bytes_lost == useful@[j].bytes_sent && useful@[j].has_enough_reliable_rtt by {
                    assert(useful@[j]@ == views(useful@)[j]);
                    assert(utility_available(useful@[j]@));
                }
            }
            Some(useful)
        }
    }

    /// Takes a congestion event, asking `estimator` whether the RTT sample of
    /// each pending acknowledgement is reliable: once for each request that
    /// `reliability_requests` lists, in order. The event then goes as
    /// `on_congestion_event_with_reliability` describes, with the answers,
    /// which the second result holds.
    pub fn on_congestion_event<R: ReliabilityEstimator>(
        &mut self,
        acked_packets: Vec<AckedPacket>,
        lost_bytes: u64,
        avg_rtt: Duration,
        latest_rtt: Duration,
        min_rtt: Duration,
        event_time: Instant,
        ack_interval: Duration,
        estimator: &mut R,
    ) -> (r: (Option<Vec<MonitorInterval>>, Ghost<Seq<bool>>))
        requires
            old(self).wf(),
            congestion_event_fits(old(self)@, lost_bytes as nat),
        ensures
            final(self).wf(),
            final(self)@.num_useful_intervals == useful_only(final(self)@.intervals).len(),
            final(self)@.intervals.len() == 0 || (final(self)@.intervals.len() == old(self)@.intervals.len()
                && forall|j: int|
                0 <= j < old(self)@.intervals.len() ==> (#[trigger] final(self)@.intervals[j]).is_useful
                    == old(self)@.intervals[j].is_useful),
            r.1@.len() == reliability_requests(old(self)@, ack_interval, latest_rtt).len(),
            congestion_event_outcome(
                old(self)@,
                CongestionEvent {
                    acked_packets: acked_packets@,
                    lost_bytes: lost_bytes as nat,
                    avg_rtt,
                    latest_rtt,
                    min_rtt,
                    event_time,
                    ack_interval,
                },
                r.1@,
            ) == (final(self)@, option_views(r.0)),
            r.0 is Some ==> final(self)@.intervals.len() == 0,
            r.0 matches Some(v) ==> forall|j: int|
                0 <= j < v@.len() ==> (#[trigger] v@[j]@).is_useful && utility_available(v@[j]@),
            r.0 matches Some(v) ==> forall|j: int|
                0 <= j < v@.len() ==> (#[trigger] v@[j]).bytes_acked + v@[j].bytes_lost == v@[j].bytes_sent
                    && v@[j].has_enough_reliable_rtt,
    {
        let requests = self.reliability_requests(ack_interval, latest_rtt);
        let mut reliability: Vec<bool> = Vec::new();
        let mut j: usize = 0;
        while j < requests.len()
            invariant
                j <= requests@.len(),
                reliability@.len() == j,
            decreases requests@.len() - j,
        {
            let answer = estimator.calculate_reliability(&requests[j]);
            reliability.push(answer);
            j = j + 1;
        }
        let ghost answers = reliability@;
        let r = self.on_congestion_event_with_reliability(
            acked_packets,
            lost_bytes,
            avg_rtt,
            latest_rtt,
            min_rtt,
            event_time,
            ack_interval,
            &reliability,
        );
        (r, Ghost(answers))
    }

    /// The reliability requests of a congestion event with `ack_interval`
    /// and `latest_rtt`, in the order in which the event records the RTT
    /// samples that they decide.
    pub fn reliability_requests(&self, ack_interval: Duration, latest_rtt: Duration) -> (r: Vec<ReliabilityRequest>)
        requires
            self.wf(),
        ensures
            r@ == reliability_requests(self@, ack_interval, latest_rtt),
    {
        let ghost q = self@;
        let mut count: usize = 0;
        if self.num_useful_intervals > 0 {
            let n = self.monitor_intervals.len();
            let mut found = false;
            let mut i: usize = 0;
            assert(q.intervals.skip(0) =~= q.intervals);
            while i < n && !found
                invariant
                    q == self@,
                    n == q.intervals.len(),
                    n == self.monitor_intervals@.len(),
                    i <= n,
                    !found ==> count == 0,
                    !found ==> request_count(q.intervals, q.pending_acked_packets) == request_count(
                        q.intervals.skip(i as int),
                        q.pending_acked_packets,
                    ),
                    found ==> count == request_count(q.intervals, q.pending_acked_packets),
                decreases n - i,
            {
                let interval = &self.monitor_intervals[i];
                proof {
                    assert(q.intervals[i as int] == interval@);
                    assert(q.intervals.skip(i as int)[0] == q.intervals[i as int]);
                    assert(q.intervals.skip(i as int).drop_first() =~= q.intervals.skip(i + 1));
                }
                if interval.is_useful && !(interval.has_enough_reliable_rtt && interval.bytes_acked as u128
                    + interval.bytes_lost as u128 == interval.bytes_sent as u128) {
                    count = Self::contained_packets(interval, &self.pending_acked_packets);
                    found = true;
                }
                i = i + 1;
            }
            assert(!found ==> q.intervals.skip(i as int).len() == 0);
        }
        let request = ReliabilityRequest {
            current_ack_interval: ack_interval,
            pending_ack_interval: self.pending_ack_interval,
            current_rtt: latest_rtt,
            pending_rtt: self.pending_rtt,
            pending_avg_rtt: self.pending_avg_rtt,
        };
        let mut r: Vec<ReliabilityRequest> = Vec::new();
        let mut j: usize = 0;
        while j < count
            invariant
                j <= count,
                r@.len() == j,
                request == reliability_request(q, ack_interval, latest_rtt),
                forall|t: int| 0 <= t < j ==> r@[t] == request,
            decreases count - j,
        {
            r.push(request);
            j = j + 1;
        }
        assert(r@ =~= reliability_requests(q, ack_interval, latest_rtt));
        r
    }

    /// Packets in `pkts` that belong to `interval`.
    fn contained_packets(interval: &MonitorInterval, pkts: &VecDeque<AckedPacket>) -> (r: usize)
        ensures
            r == contained_count(interval@, pkts@),
    {
        let m = pkts.len();
        let mut total: usize = 0;
        let mut j: usize = 0;
        assert(pkts@.take(0) =~= Seq::<AckedPacket>::empty());
        while j < m
            invariant
                m == pkts@.len(),
                j <= m,
                total <= j,
                total == contained_count(interval@, pkts@.take(j as int)),
            decreases m - j,
        {
            proof {
                lemma_contained_take(interval@, pkts@, j as int);
            }
            if Self::interval_contains_packet(interval, pkts[j].packet_number) {
                total = total + 1;
            }
            j = j + 1;
        }
        assert(pkts@.take(m as int) =~= pkts@);
        total
    }

    /// Whether a congestion event with `lost_bytes` lost keeps every byte
    /// counter of the queue within `u64` whatever the reliability
    /// decisions, that is, whether `on_congestion_event` may be called with it.
    pub fn can_take_congestion_event(&self, lost_bytes: u64) -> (r: bool)
        requires
            self.wf(),
        ensures
            r == congestion_event_fits(self@, lost_bytes as nat),
    {
        let n = self.monitor_intervals.len();
        let mut first_seen = false;
        let mut i: usize = 0;
        while i < n
            invariant
                n == self.monitor_intervals@.len(),
                n == self@.intervals.len(),
                i <= n,
                first_seen == exists|i2: int|
                    0 <= i2 < i && (#[trigger] self@.intervals[i2]).is_useful && !utility_available(self@.intervals[i2]),
                forall|k: int|
                    0 <= k < i && (#[trigger] self@.intervals[k]).is_useful ==> {
                        &&& self@.intervals[k].bytes_acked + self@.intervals[k].bytes_lost <= u64::MAX
                        &&& !utility_available(self@.intervals[k]) ==> self@.intervals[k].bytes_acked
                            + self@.intervals[k].bytes_lost + lost_bytes + (if first_incomplete(self@, k) {
                            contained_acked_bytes(self@.intervals[k], self@.pending_acked_packets)
                        } else {
                            0
                        }) <= u64::MAX
                    },
            decreases n - i,
        {
            let interval = &self.monitor_intervals[i];
            assert(self@.intervals[i as int] == interval@);
            if interval.is_useful {
                let acked_and_lost: u128 = interval.bytes_acked as u128 + interval.bytes_lost as u128;
                if acked_and_lost > 0xffff_ffff_ffff_ffffu128 {
                    return false;
                }
                if !Self::is_utility_available(interval) {
                    let extra: u128 = if first_seen {
                        0
                    } else {
                        let c = Self::contained_bytes(interval, &self.pending_acked_packets);
                        if c > 0xffff_ffff_ffff_ffffu128 {
                            return false;
                        }
                        c
                    };
                    proof {
                        if !first_seen {
                            assert forall|i2: int| 0 <= i2 < i && (#[trigger] self@.intervals[i2]).is_useful
                                implies utility_available(self@.intervals[i2]) by {}
                            assert(first_incomplete(self@, i as int));
                        } else {
                            let w = choose|i2: int|
                                0 <= i2 < i && (#[trigger] self@.intervals[i2]).is_useful && !utility_available(self@.intervals[i2]);
                            assert(!first_incomplete(self@, i as int));
                        }
                    }
                    if acked_and_lost + lost_bytes as u128 + extra > 0xffff_ffff_ffff_ffffu128 {
                        return false;
                    }
                    first_seen = true;
                }
            }
            i = i + 1;
        }
        true
    }

    /// Bytes of the packets in `pkts` that belong to `interval`, as far as
    /// they fit in `u128`.
    fn contained_bytes(interval: &MonitorInterval, pkts: &VecDeque<AckedPacket>) -> (r: u128)
        ensures
            r <= 0xffff_ffff_ffff_ffffu128 ==> r == contained_acked_bytes(interval@, pkts@),
            r > 0xffff_ffff_ffff_ffffu128 ==> contained_acked_bytes(interval@, pkts@) > u64::MAX,
    {
        let m = pkts.len();
        let mut total: u128 = 0;
        let mut j: usize = 0;
        assert(pkts@.take(0) =~= Seq::<AckedPacket>::empty());
        while j < m
            invariant
                m == pkts@.len(),
                j <= m,
                total == contained_acked_bytes(interval@, pkts@.take(j as int)),
                total <= 0xffff_ffff_ffff_ffffu128,
            decreases m - j,
        {
            proof {
                lemma_contained_take(interval@, pkts@, j as int);
            }
            if Self::interval_contains_packet(interval, pkts[j].packet_number) {
                total = total + pkts[j].bytes_acked as u128;
                if total > 0xffff_ffff_ffff_ffffu128 {
                    return total;
                }
            }
            j = j + 1;
        }
        assert(pkts@.take(m as int) =~= pkts@);
        total
    }

    fn is_utility_available(interval: &MonitorInterval) -> (r: bool)
        requires
            interval.bytes_acked + interval.bytes_lost <= u64::MAX,
        ensures
            r == utility_available(interval@),
            r == (interval.has_enough_reliable_rtt && interval.bytes_acked + interval.bytes_lost == interval.bytes_sent),
    {
        interval.has_enough_reliable_rtt && (interval.bytes_acked + interval.bytes_lost) == interval.bytes_sent
    }

    fn has_invalid_utility(interval: &MonitorInterval) -> (r: bool)
        ensures
            r == invalid_utility(interval@),
    {
        instants_equal(&interval.first_packet_sent_time, &interval.last_packet_sent_time)
    }
}

} // verus!
