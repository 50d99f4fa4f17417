use pcc_vivace::monitor_interval_queue::{
    LostPacketSample, MonitorInterval, PacketRttSample, PccMonitorIntervalQueue, ReliabilityEstimator,
    ReliabilityRequest,
};
use pcc_vivace::quic_bandwidth::QuicBandwidth;
use pcc_vivace::quic_type::AckedPacket;
use std::time::{Duration, Instant};

struct Always(bool, usize);

impl ReliabilityEstimator for Always {
    fn calculate_reliability(&mut self, _request: &ReliabilityRequest) -> bool {
        self.1 += 1;
        self.0
    }
}

fn acked(n: u64, bytes: u64, t: Instant) -> AckedPacket {
    AckedPacket::new(n, bytes, t)
}

#[test]
fn defaults_are_empty() {
    let s = PacketRttSample::default();
    assert_eq!(s.packet_number, 0);
    assert!(!s.is_reliable);
    assert_eq!(s.sample_rtt, Duration::ZERO);
    let l = LostPacketSample::default();
    assert_eq!((l.packet_number, l.bytes), (0, 0));
    let m = MonitorInterval::default();
    assert!(!m.is_useful);
    assert_eq!(m.bytes_sent, 0);
    assert_eq!(m.min_rtt, Duration::ZERO);
    assert!(m.packet_rtt_samples.is_empty());
}

#[test]
fn enqueue_counts_useful_intervals() {
    let mut q = PccMonitorIntervalQueue::new();
    assert!(q.is_empty());
    q.enqueue_new_monitor_interval(QuicBandwidth::new(1000), true, 0, Duration::from_millis(10));
    q.enqueue_new_monitor_interval(QuicBandwidth::new(2000), false, 0, Duration::from_millis(10));
    q.enqueue_new_monitor_interval(QuicBandwidth::new(3000), true, 0, Duration::from_millis(10));
    assert_eq!(q.size(), 3);
    assert_eq!(q.num_useful_intervals(), 2);
    assert_eq!(q.front().unwrap().sending_rate, QuicBandwidth::new(1000));
    assert_eq!(q.current().unwrap().sending_rate, QuicBandwidth::new(3000));
    assert_eq!(q.current().unwrap().rtt_on_monitor_start, Duration::from_millis(10));
    q.on_rtt_inflation_in_starting();
    assert!(q.is_empty());
    assert_eq!(q.num_useful_intervals(), 0);
    assert!(q.front().is_none());
}

#[test]
fn packets_go_to_the_newest_interval() {
    let mut q = PccMonitorIntervalQueue::new();
    let t0 = Instant::now();
    // no interval yet: the packet is not accounted
    q.on_packet_sent(t0, 1, 100, Duration::ZERO);
    assert!(q.is_empty());
    q.enqueue_new_monitor_interval(QuicBandwidth::new(1000), true, 0, Duration::from_millis(10));
    q.on_packet_sent(t0, 5, 100, Duration::ZERO);
    q.on_packet_sent(t0 + Duration::from_millis(1), 6, 200, Duration::from_millis(1));
    let iv = q.current().unwrap();
    assert_eq!(iv.first_packet_number, 5);
    assert_eq!(iv.last_packet_number, 6);
    assert_eq!(iv.bytes_sent, 300);
    assert_eq!(iv.first_packet_sent_time, t0);
    assert_eq!(iv.last_packet_sent_time, t0 + Duration::from_millis(1));
    assert_eq!(iv.packet_sent_intervals.len(), 2);
    assert!(PccMonitorIntervalQueue::interval_contains_packet(iv, 5));
    assert!(PccMonitorIntervalQueue::interval_contains_packet(iv, 6));
    assert!(!PccMonitorIntervalQueue::interval_contains_packet(iv, 7));
    q.extend_current_interval();
    assert!(q.current().unwrap().is_monitor_duration_extended);
}

#[test]
fn congestion_event_without_useful_intervals_does_nothing() {
    let mut q = PccMonitorIntervalQueue::new();
    let t0 = Instant::now();
    q.enqueue_new_monitor_interval(QuicBandwidth::new(1000), false, 0, Duration::from_millis(10));
    let mut est = Always(true, 0);
    let r = q.on_congestion_event(vec![acked(1, 10, t0)], 0, Duration::from_millis(10),
        Duration::from_millis(10), Duration::from_millis(10), t0, Duration::from_millis(1), &mut est).0;
    assert!(r.is_none());
    assert_eq!(q.size(), 1);
    assert_eq!(est.1, 0);
}

#[test]
fn utility_becomes_available_and_intervals_leave() {
    let mut q = PccMonitorIntervalQueue::new();
    let t0 = Instant::now();
    q.enqueue_new_monitor_interval(QuicBandwidth::new(1_000_000), true, 7, Duration::from_millis(20));
    for n in 1..=4u64 {
        q.on_packet_sent(t0 + Duration::from_millis(n), n, 1000, Duration::from_millis(1));
    }
    let mut est = Always(true, 0);
    let avg = Duration::from_millis(30);
    let acks: Vec<AckedPacket> = (1..=4u64).map(|n| acked(n, 1000, t0)).collect();
    // the first event only stores its acknowledgements
    let r = q.on_congestion_event(acks, 0, avg, avg, Duration::from_millis(25), t0, Duration::from_millis(1), &mut est).0;
    assert!(r.is_none());
    assert_eq!(q.size(), 1);
    assert_eq!(q.current().unwrap().bytes_acked, 0);
    // the second event records them
    let avg2 = Duration::from_millis(40);
    let r = q.on_congestion_event(vec![], 0, avg2, avg2, Duration::from_millis(22), t0, Duration::from_millis(1), &mut est).0;
    assert_eq!(est.1, 4);
    let ivs = r.expect("utility should be available");
    assert_eq!(ivs.len(), 1);
    let iv = &ivs[0];
    assert_eq!(iv.bytes_acked, 4000);
    assert_eq!(iv.num_reliable_rtt, 4);
    assert!(iv.has_enough_reliable_rtt);
    assert_eq!(iv.packet_rtt_samples.len(), 4);
    assert_eq!(iv.rtt_on_monitor_start, avg);
    assert_eq!(iv.rtt_on_monitor_end, avg2);
    assert_eq!(iv.min_rtt, Duration::from_millis(22));
    assert_eq!(iv.rtt_fluctuation_tolerance_ratio_bits, 7);
    assert_eq!(iv.packet_rtt_samples[0].sample_rtt, avg);
    assert!(q.is_empty());
    assert_eq!(q.num_useful_intervals(), 0);
}

#[test]
fn unreliable_samples_keep_utility_unavailable() {
    let mut q = PccMonitorIntervalQueue::new();
    let t0 = Instant::now();
    q.enqueue_new_monitor_interval(QuicBandwidth::new(1_000_000), true, 0, Duration::from_millis(20));
    for n in 1..=4u64 {
        q.on_packet_sent(t0 + Duration::from_millis(n), n, 1000, Duration::from_millis(1));
    }
    let mut est = Always(false, 0);
    let avg = Duration::from_millis(30);
    let acks: Vec<AckedPacket> = (1..=4u64).map(|n| acked(n, 1000, t0)).collect();
    assert!(q.on_congestion_event(acks, 0, avg, avg, avg, t0, Duration::from_millis(1), &mut est).0.is_none());
    assert!(q.on_congestion_event(vec![], 0, avg, avg, avg, t0, Duration::from_millis(1), &mut est).0.is_none());
    let iv = q.current().unwrap();
    assert_eq!(iv.bytes_acked, 4000);
    assert_eq!(iv.num_reliable_rtt, 0);
    assert!(!iv.has_enough_reliable_rtt);
    assert_eq!(q.size(), 1);
}

#[test]
fn lost_bytes_go_to_each_incomplete_useful_interval() {
    let mut q = PccMonitorIntervalQueue::new();
    let t0 = Instant::now();
    q.enqueue_new_monitor_interval(QuicBandwidth::new(1_000_000), true, 0, Duration::from_millis(20));
    q.on_packet_sent(t0, 1, 1000, Duration::ZERO);
    q.enqueue_new_monitor_interval(QuicBandwidth::new(1_000_000), true, 0, Duration::from_millis(20));
    q.on_packet_sent(t0, 2, 1000, Duration::ZERO);
    let mut est = Always(true, 0);
    let avg = Duration::from_millis(30);
    assert!(q.can_take_congestion_event(500));
    assert!(q.on_congestion_event(vec![], 500, avg, avg, avg, t0, Duration::from_millis(1), &mut est).0.is_none());
    assert_eq!(q.front().unwrap().bytes_lost, 500);
    assert_eq!(q.current().unwrap().bytes_lost, 500);
    assert!(!q.can_take_congestion_event(u64::MAX));
}

#[test]
fn invalid_utility_drops_intervals_without_reporting() {
    let mut q = PccMonitorIntervalQueue::new();
    let t0 = Instant::now();
    q.enqueue_new_monitor_interval(QuicBandwidth::new(1_000_000), true, 0, Duration::from_millis(20));
    for n in 1..=4u64 {
        // every packet at the same time: the interval spans no time
        q.on_packet_sent(t0, n, 1000, Duration::ZERO);
    }
    let mut est = Always(true, 0);
    let avg = Duration::from_millis(30);
    let acks: Vec<AckedPacket> = (1..=4u64).map(|n| acked(n, 1000, t0)).collect();
    assert!(q.on_congestion_event(acks, 0, avg, avg, avg, t0, Duration::from_millis(1), &mut est).0.is_none());
    let r = q.on_congestion_event(vec![], 0, avg, avg, avg, t0, Duration::from_millis(1), &mut est).0;
    assert!(r.is_none());
    assert!(q.is_empty());
    assert_eq!(q.num_useful_intervals(), 0);
}

struct FirstThree(usize);

impl ReliabilityEstimator for FirstThree {
    fn calculate_reliability(&mut self, _request: &ReliabilityRequest) -> bool {
        self.0 += 1;
        self.0 <= 3
    }
}

#[test]
fn enough_reliable_rtt_needs_four_reliable_samples() {
    let mut q = PccMonitorIntervalQueue::new();
    let t0 = Instant::now();
    q.enqueue_new_monitor_interval(QuicBandwidth::new(1_000_000), true, 0, Duration::from_millis(20));
    for n in 1..=5u64 {
        q.on_packet_sent(t0 + Duration::from_millis(n), n, 1000, Duration::from_millis(1));
    }
    let mut est = FirstThree(0);
    let avg = Duration::from_millis(30);
    // packet 9 is not in the interval and is dropped without a sample
    let mut acks: Vec<AckedPacket> = (1..=5u64).map(|n| acked(n, 1000, t0)).collect();
    acks.push(acked(9, 1000, t0));
    assert!(q.on_congestion_event(acks, 0, avg, avg, avg, t0, Duration::from_millis(1), &mut est).0.is_none());
    assert!(q.on_congestion_event(vec![], 0, avg, avg, avg, t0, Duration::from_millis(1), &mut est).0.is_none());
    let iv = q.current().unwrap();
    assert_eq!(est.0, 5);
    assert_eq!(iv.packet_rtt_samples.len(), 5);
    assert_eq!(iv.num_reliable_rtt, 3);
    assert_eq!(iv.num_reliable_rtt_for_gradient_calculation, 3);
    assert!(!iv.has_enough_reliable_rtt);
    assert_eq!(iv.bytes_acked, 5000);
}

struct Recorder(Vec<ReliabilityRequest>);

impl ReliabilityEstimator for Recorder {
    fn calculate_reliability(&mut self, request: &ReliabilityRequest) -> bool {
        self.0.push(*request);
        true
    }
}

fn five_packet_interval(t0: Instant) -> PccMonitorIntervalQueue {
    let mut q = PccMonitorIntervalQueue::new();
    q.enqueue_new_monitor_interval(QuicBandwidth::new(1_000_000), true, 0, Duration::from_millis(20));
    for n in 1..=5u64 {
        q.on_packet_sent(t0 + Duration::from_millis(n), n, 1000, Duration::from_millis(1));
    }
    q
}

fn same_request(a: &ReliabilityRequest, b: &ReliabilityRequest) -> bool {
    a.current_ack_interval == b.current_ack_interval
        && a.pending_ack_interval == b.pending_ack_interval
        && a.current_rtt == b.current_rtt
        && a.pending_rtt == b.pending_rtt
        && a.pending_avg_rtt == b.pending_avg_rtt
}

#[test]
fn requests_pair_this_event_with_the_previous_one() {
    let t0 = Instant::now();
    let mut q = five_packet_interval(t0);
    // nothing is pending yet: no request
    assert!(q.reliability_requests(Duration::from_millis(1), Duration::from_millis(30)).is_empty());
    let mut acks: Vec<AckedPacket> = (1..=5u64).map(|n| acked(n, 1000, t0)).collect();
    acks.push(acked(9, 1000, t0));
    let mut rec = Recorder(Vec::new());
    let (r, _) = q.on_congestion_event(acks, 0, Duration::from_millis(31), Duration::from_millis(30),
        Duration::from_millis(25), t0, Duration::from_millis(1), &mut rec);
    assert!(r.is_none());
    assert!(rec.0.is_empty());
    let expected = ReliabilityRequest {
        current_ack_interval: Duration::from_millis(2),
        pending_ack_interval: Duration::from_millis(1),
        current_rtt: Duration::from_millis(35),
        pending_rtt: Duration::from_millis(30),
        pending_avg_rtt: Duration::from_millis(31),
    };
    // one request for each pending packet of the interval; packet 9 has none
    let requests = q.reliability_requests(Duration::from_millis(2), Duration::from_millis(35));
    assert_eq!(requests.len(), 5);
    assert!(requests.iter().all(|x| same_request(x, &expected)));
    let (r, _) = q.on_congestion_event(vec![], 0, Duration::from_millis(36), Duration::from_millis(35),
        Duration::from_millis(25), t0, Duration::from_millis(2), &mut rec);
    // every byte acknowledged, five reliable samples: the interval is handed on
    let ivs = r.expect("utility should be available");
    assert_eq!(ivs.len(), 1);
    assert_eq!(rec.0.len(), 5);
    assert!(rec.0.iter().all(|x| same_request(x, &expected)));
}

#[test]
fn answers_are_recorded_in_order() {
    let t0 = Instant::now();
    let mut q = five_packet_interval(t0);
    let avg = Duration::from_millis(30);
    let acks: Vec<AckedPacket> = (1..=5u64).map(|n| acked(n, 1000, t0)).collect();
    let requests = q.reliability_requests(Duration::from_millis(1), avg);
    assert!(requests.is_empty());
    assert!(q
        .on_congestion_event_with_reliability(acks, 0, avg, avg, avg, t0, Duration::from_millis(1), &vec![])
        .is_none());
    let requests = q.reliability_requests(Duration::from_millis(1), avg);
    assert_eq!(requests.len(), 5);
    let answers = vec![true, false, true, true, false];
    let r = q.on_congestion_event_with_reliability(vec![], 0, avg, avg, avg, t0, Duration::from_millis(1), &answers);
    assert!(r.is_none());
    let iv = q.current().unwrap();
    let flags: Vec<bool> = iv.packet_rtt_samples.iter().map(|x| x.is_reliable).collect();
    assert_eq!(flags, answers);
    let numbers: Vec<u64> = iv.packet_rtt_samples.iter().map(|x| x.packet_number).collect();
    assert_eq!(numbers, vec![1, 2, 3, 4, 5]);
    assert_eq!(iv.num_reliable_rtt, 3);
    assert!(!iv.has_enough_reliable_rtt);
    assert_eq!(iv.bytes_acked, 5000);
    // the pending acknowledgements were used up
    assert!(q.reliability_requests(Duration::from_millis(1), avg).is_empty());
}

#[test]
fn four_reliable_answers_make_the_utility_available() {
    let t0 = Instant::now();
    let mut q = five_packet_interval(t0);
    let avg = Duration::from_millis(30);
    let acks: Vec<AckedPacket> = (1..=5u64).map(|n| acked(n, 1000, t0)).collect();
    assert!(q
        .on_congestion_event_with_reliability(acks, 0, avg, avg, avg, t0, Duration::from_millis(1), &vec![])
        .is_none());
    let answers = vec![false, true, true, true, true];
    let ivs = q
        .on_congestion_event_with_reliability(vec![], 0, avg, avg, avg, t0, Duration::from_millis(1), &answers)
        .expect("utility should be available");
    assert_eq!(ivs.len(), 1);
    assert_eq!(ivs[0].num_reliable_rtt, 4);
    assert!(!ivs[0].packet_rtt_samples[0].is_reliable);
    assert!(q.is_empty());
}

#[test]
fn rtt_inflation_needs_a_started_front_interval() {
    let ms = Duration::from_millis;
    let mut q = PccMonitorIntervalQueue::new();
    assert!(!q.rtt_inflation_possible(&ms(30), &ms(20)));
    q.enqueue_new_monitor_interval(QuicBandwidth::new(1000), true, 0, Duration::ZERO);
    assert!(!q.rtt_inflation_possible(&ms(30), &ms(20)));
    q.on_rtt_inflation_in_starting();
    q.enqueue_new_monitor_interval(QuicBandwidth::new(1000), true, 0, ms(10));
    assert!(!q.rtt_inflation_possible(&ms(20), &ms(20)));
    assert!(q.rtt_inflation_possible(&Duration::from_nanos(20_000_001), &ms(20)));
}

#[test]
fn intervals_that_stay_keep_their_flags_and_count() {
    let t0 = Instant::now();
    let mut q = PccMonitorIntervalQueue::new();
    q.enqueue_new_monitor_interval(QuicBandwidth::new(1000), true, 0, Duration::from_millis(10));
    q.on_packet_sent(t0, 1, 1000, Duration::ZERO);
    q.enqueue_new_monitor_interval(QuicBandwidth::new(1000), false, 0, Duration::from_millis(10));
    q.enqueue_new_monitor_interval(QuicBandwidth::new(1000), true, 0, Duration::from_millis(10));
    let avg = Duration::from_millis(30);
    let mut est = Always(true, 0);
    let (r, _) = q.on_congestion_event(vec![acked(1, 1000, t0)], 0, avg, avg, avg, t0, Duration::from_millis(1), &mut est);
    assert!(r.is_none());
    assert_eq!(q.size(), 3);
    assert_eq!(q.num_useful_intervals(), 2);
    assert!(q.front().unwrap().is_useful);
    assert!(q.current().unwrap().is_useful);
}
