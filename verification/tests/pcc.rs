use pcc_vivace::pcc::{
    can_make_decision, congestion_window, create_useful_interval, group_suggests_increase,
    next_probing_direction, num_interval_groups_in_probing, probing_direction, set_rate_change_direction,
    Direction, Mode, PccVivaceConfig, BASE_DATAGRAM_SIZE,
};
use pcc_vivace::quic_bandwidth::QuicBandwidth;
use pcc_vivace::quic_time::Delta;

#[test]
fn config_builder() {
    let mut c = PccVivaceConfig::default();
    assert_eq!(c.initial_congestion_window, 20);
    c.initial_window(32).initial_window(40);
    assert_eq!(c.initial_congestion_window, 40);
}

#[test]
fn useful_interval_allowance() {
    assert_eq!(num_interval_groups_in_probing(), 3);
    assert!(!create_useful_interval(Mode::Starting, false, 0));
    assert!(create_useful_interval(Mode::Starting, true, 0));
    assert!(!create_useful_interval(Mode::Starting, true, 1));
    assert!(create_useful_interval(Mode::Probing, true, 5));
    assert!(!create_useful_interval(Mode::Probing, true, 6));
    assert!(!create_useful_interval(Mode::DecisionMade, true, 1));
}

#[test]
fn probing_directions() {
    assert_eq!(probing_direction(0, Direction::Decrease, true), Direction::Increase);
    assert_eq!(probing_direction(2, Direction::Increase, false), Direction::Decrease);
    assert_eq!(probing_direction(1, Direction::Increase, true), Direction::Decrease);
    assert_eq!(probing_direction(3, Direction::Decrease, false), Direction::Increase);
    assert_eq!(next_probing_direction(5, Direction::Increase), Direction::Decrease);
    let d = next_probing_direction(4, Direction::Increase);
    assert!(d == Direction::Increase || d == Direction::Decrease);
}

#[test]
fn group_suggestions() {
    let fast = QuicBandwidth::new(2000);
    let slow = QuicBandwidth::new(1000);
    assert!(group_suggests_increase(true, fast, slow));
    assert!(!group_suggests_increase(true, slow, fast));
    assert!(group_suggests_increase(false, slow, fast));
    assert!(!group_suggests_increase(false, fast, slow));
    assert!(!group_suggests_increase(false, fast, fast));
}

#[test]
fn decisions_need_agreeing_full_rounds() {
    assert!(can_make_decision(6, &vec![true, true, true]));
    assert!(can_make_decision(6, &vec![false, false, false]));
    assert!(!can_make_decision(6, &vec![true, false, true]));
    assert!(!can_make_decision(5, &vec![]));
}

#[test]
fn rate_change_direction_by_majority() {
    assert_eq!(set_rate_change_direction(&vec![true, false, true]), (Direction::Increase, Some(2)));
    assert_eq!(set_rate_change_direction(&vec![true, false, false]), (Direction::Decrease, Some(2)));
    assert_eq!(set_rate_change_direction(&vec![false, true, true]), (Direction::Increase, Some(2)));
    assert_eq!(set_rate_change_direction(&vec![false, false, true]), (Direction::Decrease, Some(1)));
    // unanimous rounds move the way they agree on, keeping the last group
    assert_eq!(set_rate_change_direction(&vec![true, true, true]), (Direction::Increase, Some(2)));
    assert_eq!(set_rate_change_direction(&vec![false, false, false]), (Direction::Decrease, Some(2)));
}

#[test]
fn congestion_window_has_a_floor() {
    // 8 Mbit/s over 10 ms: 10_000 bytes
    assert_eq!(congestion_window(QuicBandwidth::new(8_000_000), &Delta::from_milliseconds(10)), 10_000);
    assert_eq!(congestion_window(QuicBandwidth::new(8_000), &Delta::from_milliseconds(10)), 4 * BASE_DATAGRAM_SIZE);
    assert_eq!(congestion_window(QuicBandwidth::zero(), &Delta::zero()), 5600);
}

use pcc_vivace::pcc::{enter_probing_rounds, finish_decision, limit_rate_change, restart_if_at_minimum, DecisionOutcome};

#[test]
fn probing_rounds() {
    assert_eq!(enter_probing_rounds(Mode::Starting, 7), (Mode::Probing, 1));
    assert_eq!(enter_probing_rounds(Mode::DecisionMade, 4), (Mode::Probing, 1));
    assert_eq!(enter_probing_rounds(Mode::Probing, 2), (Mode::Probing, 3));
}

#[test]
fn rate_change_limits() {
    let cap = QuicBandwidth::new(1_000_000);
    // capped: one more step allowed next time
    assert_eq!(limit_rate_change(QuicBandwidth::new(2_000_000), cap, 1), (cap, 2));
    // within the cap: one step fewer
    assert_eq!(limit_rate_change(QuicBandwidth::new(900_000), cap, 1), (QuicBandwidth::new(900_000), 0));
    assert_eq!(limit_rate_change(QuicBandwidth::new(900_000), cap, 0), (QuicBandwidth::new(900_000), 0));
    // never below the minimum change
    assert_eq!(limit_rate_change(QuicBandwidth::new(10), cap, 0), (QuicBandwidth::new(500 * 1024), 0));
    assert_eq!(limit_rate_change(QuicBandwidth::new(20), QuicBandwidth::new(10), 3), (QuicBandwidth::new(500 * 1024), 4));
}

#[test]
fn decisions_keep_the_minimum_rate() {
    let up = finish_decision(QuicBandwidth::new(1_000_000), QuicBandwidth::new(600_000), Direction::Increase, 2, 1);
    assert_eq!(up, DecisionOutcome { sending_rate: QuicBandwidth::new(1_600_000), mode: Mode::DecisionMade, rounds: 2, step_allowance: 1 });
    let down = finish_decision(QuicBandwidth::new(1_000_000), QuicBandwidth::new(600_000), Direction::Decrease, 2, 1);
    assert_eq!(down, DecisionOutcome { sending_rate: QuicBandwidth::new(512_000), mode: Mode::Probing, rounds: 1, step_allowance: 0 });
    let kept = finish_decision(QuicBandwidth::new(2_000_000), QuicBandwidth::new(600_000), Direction::Decrease, 3, 2);
    assert_eq!(kept.sending_rate, QuicBandwidth::new(1_400_000));
    assert_eq!(kept.mode, Mode::DecisionMade);
}

#[test]
fn restart_at_minimum_rate() {
    let at_min = DecisionOutcome { sending_rate: QuicBandwidth::new(512_000), mode: Mode::Probing, rounds: 2, step_allowance: 3 };
    assert_eq!(restart_if_at_minimum(at_min), DecisionOutcome { sending_rate: QuicBandwidth::new(512_000), mode: Mode::Starting, rounds: 1, step_allowance: 0 });
    let first_round = DecisionOutcome { sending_rate: QuicBandwidth::new(512_000), mode: Mode::Probing, rounds: 1, step_allowance: 3 };
    assert_eq!(restart_if_at_minimum(first_round), first_round);
    let fast = DecisionOutcome { sending_rate: QuicBandwidth::new(5_000_000), mode: Mode::DecisionMade, rounds: 4, step_allowance: 1 };
    assert_eq!(restart_if_at_minimum(fast), fast);
}

use pcc_vivace::pcc::{probing_rate_plan, ProbingPlan};

#[test]
fn probing_plans() {
    let none = ProbingPlan { restore_central_rate: false, take_step: false };
    assert_eq!(probing_rate_plan(Mode::Starting, 0, true), none);
    assert_eq!(probing_rate_plan(Mode::DecisionMade, 3, true), none);
    assert_eq!(probing_rate_plan(Mode::Probing, 6, false), none);
    assert_eq!(probing_rate_plan(Mode::Probing, 0, false), ProbingPlan { restore_central_rate: false, take_step: true });
    assert_eq!(probing_rate_plan(Mode::Probing, 3, true), ProbingPlan { restore_central_rate: true, take_step: true });
    assert_eq!(probing_rate_plan(Mode::Probing, 6, true), ProbingPlan { restore_central_rate: true, take_step: false });
}

#[test]
fn decrease_beyond_the_rate_restarts_probing_at_the_minimum() {
    let down = finish_decision(QuicBandwidth::new(512_000), QuicBandwidth::new(600_000), Direction::Decrease, 4, 2);
    assert_eq!(down, DecisionOutcome { sending_rate: QuicBandwidth::new(512_000), mode: Mode::Probing, rounds: 1, step_allowance: 0 });
    let to_zero = finish_decision(QuicBandwidth::new(600_000), QuicBandwidth::new(600_000), Direction::Decrease, 4, 2);
    assert_eq!(to_zero.sending_rate, QuicBandwidth::new(512_000));
    assert_eq!(to_zero.mode, Mode::Probing);
}

use pcc_vivace::pcc::{
    congestion_event_plan, decision_confirmed, is_new_minimum, new_interval_decision, next_rtt_deviation,
    utility_action, EventPlan, UtilityAction,
};

#[test]
fn new_interval_checks_in_order() {
    // empty queue: a new interval, whatever else holds
    assert_eq!(new_interval_decision(true, true, 0, false, false, false, false, false), (true, false));
    // no RTT yet
    assert_eq!(new_interval_decision(false, true, 0, true, true, true, true, true), (false, false));
    // no useful interval
    assert_eq!(new_interval_decision(false, false, 0, false, false, false, false, false), (true, false));
    // the current interval is not useful
    assert_eq!(new_interval_decision(false, false, 1, false, true, true, true, true), (false, false));
    // too few reliable samples, or too short
    assert_eq!(new_interval_decision(false, false, 1, true, false, true, true, true), (false, false));
    assert_eq!(new_interval_decision(false, false, 1, true, true, false, true, true), (false, false));
    // reliable enough, or already extended
    assert_eq!(new_interval_decision(false, false, 1, true, true, true, true, false), (true, false));
    assert_eq!(new_interval_decision(false, false, 1, true, true, true, false, true), (true, false));
    // otherwise the current interval is extended
    assert_eq!(new_interval_decision(false, false, 2, true, true, true, false, false), (false, true));
}

#[test]
fn minimum_updates() {
    assert!(is_new_minimum(0, 50));
    assert!(is_new_minimum(60, 50));
    assert!(!is_new_minimum(50, 50));
    assert!(!is_new_minimum(40, 50));
}

#[test]
fn decisions_confirmed_by_the_next_utility() {
    let lo = QuicBandwidth::new(1_000_000);
    let hi = QuicBandwidth::new(2_000_000);
    assert!(decision_confirmed(Direction::Increase, true, false, hi, lo));
    assert!(decision_confirmed(Direction::Increase, false, true, lo, hi));
    assert!(!decision_confirmed(Direction::Increase, true, false, lo, hi));
    assert!(!decision_confirmed(Direction::Increase, false, false, hi, lo));
    assert!(decision_confirmed(Direction::Decrease, true, false, lo, hi));
    assert!(decision_confirmed(Direction::Decrease, false, true, hi, lo));
    assert!(!decision_confirmed(Direction::Decrease, true, false, hi, lo));
    // the same rate confirms nothing
    assert!(!decision_confirmed(Direction::Increase, true, false, lo, lo));
}

#[test]
fn rtt_deviation_updates() {
    // no deviation yet: half the latest RTT
    assert_eq!(next_rtt_deviation(0, 30_001, 10, 10), 15_000_000);
    // three quarters of the deviation plus a quarter of the gap, either way round
    assert_eq!(next_rtt_deviation(4_000_003, 0, 20_000, 10_000), 3_000_002 + 2_500_000);
    assert_eq!(next_rtt_deviation(4_000_003, 0, 10_000, 20_007), 3_000_002 + 2_501_000);
    assert_eq!(next_rtt_deviation(8, 0, 5, 5), 6);
    // the same as Duration's own arithmetic
    let d = std::time::Duration::new(3, 999_999_999);
    let by_duration = d * 3 / 4 + std::time::Duration::from_micros(7 / 4);
    assert_eq!(next_rtt_deviation(d.as_nanos(), 0, 17, 10), by_duration.as_nanos());
}

#[test]
fn utility_actions_by_mode() {
    assert_eq!(utility_action(Mode::Starting, true, false, false), UtilityAction::DoubleRate);
    assert_eq!(utility_action(Mode::Starting, false, true, true), UtilityAction::EnterProbing);
    assert_eq!(utility_action(Mode::Probing, true, true, false), UtilityAction::Decide);
    assert_eq!(utility_action(Mode::Probing, true, false, true), UtilityAction::EnterProbing);
    assert_eq!(utility_action(Mode::DecisionMade, false, false, true), UtilityAction::ContinueDecision);
    assert_eq!(utility_action(Mode::DecisionMade, true, true, false), UtilityAction::EnterProbing);
}

#[test]
fn congestion_event_plans() {
    let p = congestion_event_plan(Mode::Starting, false, 10, 100);
    assert_eq!(p, EventPlan { boost_rate: true, check_rtt_inflation: true });
    let p = congestion_event_plan(Mode::Probing, true, 10, 100);
    assert_eq!(p, EventPlan { boost_rate: false, check_rtt_inflation: false });
    let p = congestion_event_plan(Mode::DecisionMade, false, 100, 100);
    assert_eq!(p, EventPlan { boost_rate: false, check_rtt_inflation: false });
}
