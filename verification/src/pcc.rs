//! The integer decisions of the PCC Vivace controller: its configuration,
//! its modes, how many intervals it may make useful, which way it probes,
//! when probing results agree, which way the rate moves, and the
//! congestion window that a rate fills.

use vstd::prelude::*;
use crate::quic_bandwidth::{QuicBandwidth, bytes_in_period};
use crate::quic_time::Delta;

verus! {

/// The datagram size that windows are counted in while no MTU is known.
pub const BASE_DATAGRAM_SIZE: u64 = 1400;

/// The default initial congestion window.
pub const K_MAX_INITIAL_CONGESTION_WINDOW: u64 = 20;

/// The lowest sending rate, in bits per second.
pub const K_MIN_SENDING_RATE: u64 = 500 * 1024;

/// The smallest rate change, in bits per second.
pub const K_MIN_RATE_CHANGE: u64 = 500 * 1024;

/// Groups of intervals (one faster, one slower) in one probing round.
pub const K_NUM_INTERVAL_GROUPS_IN_PROBING: usize = 3;

/// Phases of the controller.
#[derive(Debug, Clone, Copy, PartialEq, Eq, Structural)]
pub enum Mode {
    Starting,
    Probing,
    DecisionMade,
}

/// The way the sending rate is being moved.
#[derive(Debug, Clone, Copy, PartialEq, Eq, Structural)]
pub enum Direction {
    Increase,
    Decrease,
}

/// Configuration for the `PccVivace` congestion controller.
#[derive(Debug, Clone, Copy)]
pub struct PccVivaceConfig {
    /// Initial congestion window in bytes.
    pub initial_congestion_window: u64,
}

impl PccVivaceConfig {
    /// Sets the initial congestion window.
    pub fn initial_window(&mut self, value: u64) -> (r: &mut Self)
        ensures
            r.initial_congestion_window == value,
            *final(self) == *final(r),
    {
        self.initial_congestion_window = value;
        self
    }
}

impl Default for PccVivaceConfig {
    fn default() -> (r: Self)
        ensures
            r.initial_congestion_window == K_MAX_INITIAL_CONGESTION_WINDOW,
    {
        Self { initial_congestion_window: K_MAX_INITIAL_CONGESTION_WINDOW }
    }
}

/// Groups of intervals in one probing round.
pub fn num_interval_groups_in_probing() -> (r: usize)
    ensures
        r == K_NUM_INTERVAL_GROUPS_IN_PROBING,
{
    K_NUM_INTERVAL_GROUPS_IN_PROBING
}

/// How many useful intervals the queue may hold in `mode`: one group of
/// two per probing group while probing, else one.
pub open spec fn max_useful_intervals(mode: Mode) -> int {
    if mode == Mode::Probing {
        2 * K_NUM_INTERVAL_GROUPS_IN_PROBING
    } else {
        1
    }
}

/// Whether the next interval may be useful. Without any RTT measurement
/// (which can only be while starting) it may not; otherwise it may while
/// there are fewer useful intervals than the mode allows.
pub fn create_useful_interval(mode: Mode, has_rtt_measurement: bool, num_useful_intervals: usize) -> (r: bool)
    requires
        !has_rtt_measurement ==> mode == Mode::Starting,
    ensures
        r == (has_rtt_measurement && num_useful_intervals < max_useful_intervals(mode)),
        mode != Mode::Probing ==> r == (has_rtt_measurement && num_useful_intervals == 0),
        mode == Mode::Probing ==> r == (has_rtt_measurement && num_useful_intervals < 6),
{
    if !has_rtt_measurement {
        return false;
    }
    let max_useful = if mode == Mode::Probing {
        2 * num_interval_groups_in_probing()
    } else {
        1
    };
    num_useful_intervals < max_useful
}

/// The other direction.
pub open spec fn opposite(d: Direction) -> Direction {
    match d {
        Direction::Increase => Direction::Decrease,
        Direction::Decrease => Direction::Increase,
    }
}

/// The direction in which the next useful interval of a probing round
/// moves the rate: each group opens in the direction that `coin` picks, and
/// its second interval moves the other way.
pub open spec fn probing_direction_spec(num_useful_intervals: nat, current: Direction, coin: bool) -> Direction {
    if num_useful_intervals % 2 == 0 {
        if coin {
            Direction::Increase
        } else {
            Direction::Decrease
        }
    } else {
        opposite(current)
    }
}

pub fn probing_direction(num_useful_intervals: usize, current: Direction, coin: bool) -> (r: Direction)
    ensures
        r == probing_direction_spec(num_useful_intervals as nat, current, coin),
        num_useful_intervals % 2 == 0 ==> (r == Direction::Increase <==> coin),
        num_useful_intervals % 2 == 1 ==> r != current,
{
    if num_useful_intervals % 2 == 0 {
        if coin {
            Direction::Increase
        } else {
            Direction::Decrease
        }
    } else {
        match current {
            Direction::Increase => Direction::Decrease,
            Direction::Decrease => Direction::Increase,
        }
    }
}

/// What to do to the rate before the next interval while probing.
#[derive(Debug, Clone, Copy, PartialEq, Eq, Structural)]
pub struct ProbingPlan {
    /// Undo the step of the previous useful interval.
    pub restore_central_rate: bool,
    /// Step the rate up or down for the next useful interval.
    pub take_step: bool,
}

/// The rate plan for the next interval. Only while probing does the rate
/// move, and not once a full round of useful intervals is queued behind a
/// non-useful one. After a useful interval the rate first returns to the
/// central rate; a new step is taken until the round is full.
pub fn probing_rate_plan(mode: Mode, num_useful_intervals: usize, current_is_useful: bool) -> (r: ProbingPlan)
    ensures
        ({
            let full = num_useful_intervals == 2 * K_NUM_INTERVAL_GROUPS_IN_PROBING;
            if mode != Mode::Probing || (full && !current_is_useful) {
                !r.restore_central_rate && !r.take_step
            } else {
                r.restore_central_rate == (num_useful_intervals != 0) && r.take_step == !full
            }
        }),
{
    let full = num_useful_intervals == 2 * num_interval_groups_in_probing();
    if mode != Mode::Probing || (full && !current_is_useful) {
        return ProbingPlan { restore_central_rate: false, take_step: false };
    }
    ProbingPlan { restore_central_rate: num_useful_intervals != 0, take_step: !full }
}

/// A fair coin, `rand::random::<bool>()`; the outcome rests on chance, so
/// nothing is claimed of it.
#[verifier::external_body]
fn random_bool() -> bool {
    rand::random::<bool>()
}

/// The direction for the next useful probing interval, with a random
/// opening direction for each group.
pub fn next_probing_direction(num_useful_intervals: usize, current: Direction) -> (r: Direction)
    ensures
        exists|coin: bool| r == probing_direction_spec(num_useful_intervals as nat, current, coin),
        num_useful_intervals % 2 == 1 ==> r == opposite(current),
{
    let coin = random_bool();
    probing_direction(num_useful_intervals, current, coin)
}

/// Whether a group of two intervals suggests raising the rate: the one
/// with the higher utility (the first when `first_has_higher_utility`) is
/// the one that sent faster.
pub open spec fn group_increase_spec(first_has_higher_utility: bool, first_rate: u64, second_rate: u64) -> bool {
    if first_has_higher_utility {
        first_rate > second_rate
    } else {
        first_rate < second_rate
    }
}

pub fn group_suggests_increase(
    first_has_higher_utility: bool,
    first_rate: QuicBandwidth,
    second_rate: QuicBandwidth,
) -> (r: bool)
    ensures
        r == group_increase_spec(first_has_higher_utility, first_rate.bits_per_second, second_rate.bits_per_second),
{
    if first_has_higher_utility {
        first_rate.bits_per_second > second_rate.bits_per_second
    } else {
        first_rate.bits_per_second < second_rate.bits_per_second
    }
}

/// Whether all probing groups agree on the direction.
pub open spec fn groups_agree(increases: Seq<bool>) -> bool {
    forall|i: int| 0 <= i < increases.len() ==> #[trigger] increases[i] == increases[0]
}

/// A decision can be made when every group of a full probing round has
/// reported and all groups agree; `increases[i]` is what group `i` suggests.
pub fn can_make_decision(utility_count: usize, increases: &Vec<bool>) -> (r: bool)
    requires
        utility_count >= 2 * K_NUM_INTERVAL_GROUPS_IN_PROBING ==> increases@.len() == K_NUM_INTERVAL_GROUPS_IN_PROBING,
    ensures
        r == (utility_count >= 2 * K_NUM_INTERVAL_GROUPS_IN_PROBING && groups_agree(increases@)),
{
    if utility_count < 2 * num_interval_groups_in_probing() {
        return false;
    }
    let mut increase = false;
    let mut i: usize = 0;
    while i < num_interval_groups_in_probing()
        invariant
            increases@.len() == K_NUM_INTERVAL_GROUPS_IN_PROBING,
            i <= K_NUM_INTERVAL_GROUPS_IN_PROBING,
            i > 0 ==> increase == increases@[0],
            forall|j: int| 0 <= j < i ==> #[trigger] increases@[j] == increases@[0],
        decreases K_NUM_INTERVAL_GROUPS_IN_PROBING - i,
    {
        let increase_i = increases[i];
        if i == 0 {
            increase = increase_i;
        }
        if increase_i != increase {
            return false;
        }
        i = i + 1;
    }
    true
}

/// Groups in `increases` that suggest raising the rate.
pub open spec fn count_increases(increases: Seq<bool>) -> nat
    decreases increases.len(),
{
    if increases.len() == 0 {
        0
    } else {
        count_increases(increases.drop_last()) + if increases.last() { 1nat } else { 0nat }
    }
}

/// The direction most groups suggest; a tie decreases the rate.
pub open spec fn majority_direction(increases: Seq<bool>) -> Direction {
    if 2 * count_increases(increases) > increases.len() {
        Direction::Increase
    } else {
        Direction::Decrease
    }
}

/// Whether suggestion `increase` points in `direction`.
pub open spec fn agrees_with(increase: bool, direction: Direction) -> bool {
    (increase && direction == Direction::Increase) || (!increase && direction == Direction::Decrease)
}

/// The last group that agrees with `direction`, if any.
pub open spec fn last_agreeing_group(increases: Seq<bool>, direction: Direction) -> Option<nat>
    decreases increases.len(),
{
    if increases.len() == 0 {
        None
    } else if agrees_with(increases.last(), direction) {
        Some((increases.len() - 1) as nat)
    } else {
        last_agreeing_group(increases.drop_last(), direction)
    }
}

/// Sets the rate change direction from the groups of a probing round: the
/// majority direction, and the last group that agrees with it (its better
/// interval becomes the latest utility).
pub fn set_rate_change_direction(increases: &Vec<bool>) -> (r: (Direction, Option<usize>))
    requires
        increases@.len() == K_NUM_INTERVAL_GROUPS_IN_PROBING,
    ensures
        r.0 == majority_direction(increases@),
        r.1 matches Some(g) ==> last_agreeing_group(increases@, r.0) == Some(g as nat),
        r.1 is None ==> last_agreeing_group(increases@, r.0) is None,
{
    let num_groups = num_interval_groups_in_probing();
    let mut count_increase: usize = 0;
    let mut count_decrease: usize = 0;
    let mut i: usize = 0;
    assert(increases@.take(0) =~= Seq::<bool>::empty());
    while i < num_groups
        invariant
            num_groups == increases@.len(),
            i <= num_groups,
            count_increase == count_increases(increases@.take(i as int)),
            count_increase + count_decrease == i,
        decreases num_groups - i,
    {
        assert(increases@.take(i + 1).drop_last() =~= increases@.take(i as int));
        if increases[i] {
            count_increase = count_increase + 1;
        } else {
            count_decrease = count_decrease + 1;
        }
        i = i + 1;
    }
    assert(increases@.take(num_groups as int) =~= increases@);
    let direction = if count_increase > count_decrease {
        Direction::Increase
    } else {
        Direction::Decrease
    };
    let mut latest: Option<usize> = None;
    let mut j: usize = 0;
    assert(last_agreeing_group(increases@.take(0), direction) is None);
    while j < num_groups
        invariant
            num_groups == increases@.len(),
            j <= num_groups,
            latest matches Some(g) ==> last_agreeing_group(increases@.take(j as int), direction) == Some(g as nat),
            latest is None ==> last_agreeing_group(increases@.take(j as int), direction) is None,
        decreases num_groups - j,
    {
        assert(increases@.take(j + 1).drop_last() =~= increases@.take(j as int));
        let increase_j = increases[j];
        if (increase_j && direction == Direction::Increase) || (!increase_j && direction == Direction::Decrease) {
            latest = Some(j);
        }
        j = j + 1;
    }
    (direction, latest)
}

/// Congestion window for `sending_rate` over `min_rtt`: the bytes the rate
/// sends in that time, and at least four base datagrams.
pub fn congestion_window(sending_rate: QuicBandwidth, min_rtt: &Delta) -> (r: u64)
    requires
        (sending_rate.bits_per_second / 8) * min_rtt.time_offset <= u64::MAX,
    ensures
        r == if bytes_in_period(sending_rate.bits_per_second, min_rtt.time_offset) > 4 * BASE_DATAGRAM_SIZE {
            bytes_in_period(sending_rate.bits_per_second, min_rtt.time_offset)
        } else {
            4 * BASE_DATAGRAM_SIZE as int
        },
        r >= 4 * BASE_DATAGRAM_SIZE,
        r >= ((sending_rate.bits_per_second / 8) * min_rtt.time_offset) / 1_000_000,
        r > 4 * BASE_DATAGRAM_SIZE ==> r == ((sending_rate.bits_per_second / 8) * min_rtt.time_offset) / 1_000_000,
{
    let bdp_bytes = sending_rate.to_bytes_per_period(min_rtt);
    if bdp_bytes > 4 * BASE_DATAGRAM_SIZE {
        bdp_bytes
    } else {
        4 * BASE_DATAGRAM_SIZE
    }
}

/// Mode and round count after entering the probing mode: another round
/// when already probing, else the first round of probing.
pub fn enter_probing_rounds(mode: Mode, rounds: u32) -> (r: (Mode, u32))
    requires
        mode == Mode::Probing ==> rounds < u32::MAX,
    ensures
        r.0 == Mode::Probing,
        r.1 == if mode == Mode::Probing { rounds + 1 } else { 1 },
{
    if mode == Mode::Probing {
        return (Mode::Probing, rounds + 1);
    }
    (Mode::Probing, 1)
}

/// The larger of two rates.
pub open spec fn max_rate(a: u64, b: u64) -> u64 {
    if a >= b {
        a
    } else {
        b
    }
}

/// Caps a rate change at `max_allowed_rate_change`, allowing one more
/// incremental step after each capped change and one fewer after each
/// uncapped one, and never lets the change fall below `K_MIN_RATE_CHANGE`.
/// Returns the change and the new step allowance.
pub fn limit_rate_change(
    rate_change: QuicBandwidth,
    max_allowed_rate_change: QuicBandwidth,
    step_allowance: u32,
) -> (r: (QuicBandwidth, u32))
    requires
        rate_change.bits_per_second > max_allowed_rate_change.bits_per_second ==> step_allowance < u32::MAX,
    ensures
        rate_change.bits_per_second > max_allowed_rate_change.bits_per_second ==> {
            &&& r.0.bits_per_second == max_rate(max_allowed_rate_change.bits_per_second, K_MIN_RATE_CHANGE)
            &&& r.1 == step_allowance + 1
        },
        rate_change.bits_per_second <= max_allowed_rate_change.bits_per_second ==> {
            &&& r.0.bits_per_second == max_rate(rate_change.bits_per_second, K_MIN_RATE_CHANGE)
            &&& r.1 == if step_allowance > 0 { step_allowance - 1 } else { 0 }
        },
{
    let mut change = rate_change;
    let mut allowance = step_allowance;
    if change.bits_per_second > max_allowed_rate_change.bits_per_second {
        change = max_allowed_rate_change;
        allowance = allowance + 1;
    } else if allowance > 0 {
        allowance = allowance - 1;
    }
    if change.bits_per_second >= K_MIN_RATE_CHANGE {
        (change, allowance)
    } else {
        (QuicBandwidth::from_bits_per_second(K_MIN_RATE_CHANGE), allowance)
    }
}

/// The controller state that a decision settles.
#[derive(Debug, Clone, Copy, PartialEq, Eq, Structural)]
pub struct DecisionOutcome {
    pub sending_rate: QuicBandwidth,
    pub mode: Mode,
    pub rounds: u32,
    pub step_allowance: u32,
}

/// Moves the rate by `rate_change` in `direction`; a decrease by more than
/// the rate leaves zero. A rate that ends below `K_MIN_SENDING_RATE` is raised to it and
/// sends the controller back to the first round of probing with no step
/// allowance; otherwise the decision stands.
pub fn finish_decision(
    sending_rate: QuicBandwidth,
    rate_change: QuicBandwidth,
    direction: Direction,
    rounds: u32,
    step_allowance: u32,
) -> (r: DecisionOutcome)
    requires
        direction == Direction::Increase ==> sending_rate.bits_per_second + rate_change.bits_per_second <= u64::MAX,
    ensures
        ({
            let moved = if direction == Direction::Increase {
                sending_rate.bits_per_second + rate_change.bits_per_second
            } else if rate_change.bits_per_second > sending_rate.bits_per_second {
                0
            } else {
                sending_rate.bits_per_second - rate_change.bits_per_second
            };
            if moved < K_MIN_SENDING_RATE {
                r == (DecisionOutcome {
                    sending_rate: QuicBandwidth { bits_per_second: K_MIN_SENDING_RATE },
                    mode: Mode::Probing,
                    rounds: 1,
                    step_allowance: 0,
                })
            } else {
                r == (DecisionOutcome {
                    sending_rate: QuicBandwidth { bits_per_second: moved as u64 },
                    mode: Mode::DecisionMade,
                    rounds,
                    step_allowance,
                })
            }
        }),
        r.sending_rate.bits_per_second >= K_MIN_SENDING_RATE,
{
    let moved = if direction == Direction::Increase {
        sending_rate + rate_change
    } else if rate_change.bits_per_second > sending_rate.bits_per_second {
        QuicBandwidth::zero()
    } else {
        sending_rate - rate_change
    };
    if moved.bits_per_second < K_MIN_SENDING_RATE {
        DecisionOutcome {
            sending_rate: QuicBandwidth::from_bits_per_second(K_MIN_SENDING_RATE),
            mode: Mode::Probing,
            rounds: 1,
            step_allowance: 0,
        }
    } else {
        DecisionOutcome { sending_rate: moved, mode: Mode::DecisionMade, rounds, step_allowance }
    }
}

/// After a probing round: if it was not the first round or a decision was
/// made, and the rate is down to `K_MIN_SENDING_RATE`, the controller starts
/// over at that rate; otherwise nothing changes.
pub fn restart_if_at_minimum(state: DecisionOutcome) -> (r: DecisionOutcome)
    ensures
        (state.rounds > 1 || state.mode == Mode::DecisionMade) && state.sending_rate.bits_per_second
            <= K_MIN_SENDING_RATE ==> r == (DecisionOutcome {
            sending_rate: QuicBandwidth { bits_per_second: K_MIN_SENDING_RATE },
            mode: Mode::Starting,
            rounds: 1,
            step_allowance: 0,
        }),
        !((state.rounds > 1 || state.mode == Mode::DecisionMade) && state.sending_rate.bits_per_second
            <= K_MIN_SENDING_RATE) ==> r == state,
{
    if (state.rounds > 1 || state.mode == Mode::DecisionMade)
        && state.sending_rate.bits_per_second <= K_MIN_SENDING_RATE
    {
        DecisionOutcome {
            sending_rate: QuicBandwidth::from_bits_per_second(K_MIN_SENDING_RATE),
            mode: Mode::Starting,
            rounds: 1,
            step_allowance: 0,
        }
    } else {
        state
    }
}

/// Whether a new monitor interval starts now, and whether the current one is
/// extended instead, in this order of checks: an empty queue starts one; no
/// RTT measured yet starts none; no useful interval in the queue starts one;
/// a current interval that is not useful, has too few reliable RTT samples or
/// has not lasted its monitor duration starts none; enough reliable samples
/// among its samples (`ratio_above_min`) or a duration already extended
/// starts one; otherwise the current interval is extended and none starts.
pub fn new_interval_decision(
    queue_empty: bool,
    latest_rtt_zero: bool,
    num_useful: usize,
    current_is_useful: bool,
    has_enough_reliable_rtt: bool,
    duration_elapsed: bool,
    ratio_above_min: bool,
    extended: bool,
) -> (r: (bool, bool))
    ensures
        r == if queue_empty {
            (true, false)
        } else if latest_rtt_zero {
            (false, false)
        } else if num_useful == 0 {
            (true, false)
        } else if !current_is_useful {
            (false, false)
        } else if !has_enough_reliable_rtt || !duration_elapsed {
            (false, false)
        } else if ratio_above_min || extended {
            (true, false)
        } else {
            (false, true)
        },
        r.0 ==> !r.1,
{
    if queue_empty {
        return (true, false);
    }
    if latest_rtt_zero {
        return (false, false);
    }
    if num_useful == 0 {
        return (true, false);
    }
    if !current_is_useful {
        return (false, false);
    }
    if !has_enough_reliable_rtt || !duration_elapsed {
        return (false, false);
    }
    if ratio_above_min {
        (true, false)
    } else if extended {
        (true, false)
    } else {
        (false, true)
    }
}

/// Whether a new sample replaces the recorded minimum: a minimum of zero is
/// none yet, and a strictly smaller sample replaces it.
pub fn is_new_minimum(current_min: u128, sample: u128) -> (r: bool)
    ensures
        r == (current_min == 0 || sample < current_min),
{
    current_min == 0 || sample < current_min
}

/// Whether a decision is confirmed by the utility of the interval that
/// followed it: the utility moved with the rate when the rate increased
/// (higher at a higher rate, lower at a lower one), and against it when the
/// rate decreased (higher at a lower rate, lower at a higher one).
/// `utility_higher` and `utility_lower` compare the new utility with the
/// latest one.
pub fn decision_confirmed(
    direction: Direction,
    utility_higher: bool,
    utility_lower: bool,
    rate: QuicBandwidth,
    latest_rate: QuicBandwidth,
) -> (r: bool)
    ensures
        r == ((direction == Direction::Increase && utility_higher && rate.bits_per_second
            > latest_rate.bits_per_second) || (direction == Direction::Increase && utility_lower
            && rate.bits_per_second < latest_rate.bits_per_second) || (direction == Direction::Decrease
            && utility_higher && rate.bits_per_second < latest_rate.bits_per_second) || (direction
            == Direction::Decrease && utility_lower && rate.bits_per_second > latest_rate.bits_per_second)),
{
    let up = rate.bits_per_second > latest_rate.bits_per_second;
    let down = rate.bits_per_second < latest_rate.bits_per_second;
    match direction {
        Direction::Increase => (utility_higher && up) || (utility_lower && down),
        Direction::Decrease => (utility_higher && down) || (utility_lower && up),
    }
}

/// The RTT deviation after a new RTT sample, in nanoseconds, from the
/// current deviation in nanoseconds and RTTs in whole microseconds: with no
/// deviation yet, half the latest RTT; otherwise three quarters of the
/// deviation (rounded down) plus a quarter of the gap between the average
/// RTT and the sample (in whole microseconds, rounded down).
pub fn next_rtt_deviation(deviation: u128, latest_rtt_micros: u64, avg_rtt_micros: u64, sample_micros: u64) -> (r: u128)
    requires
        deviation <= u128::MAX / 4,
    ensures
        r == if deviation == 0 {
            (latest_rtt_micros / 2) * 1000
        } else {
            let gap = if avg_rtt_micros >= sample_micros {
                avg_rtt_micros - sample_micros
            } else {
                sample_micros - avg_rtt_micros
            };
            deviation * 3 / 4 + (gap / 4) * 1000
        },
{
    if deviation == 0 {
        let half: u128 = (latest_rtt_micros / 2) as u128;
        return half * 1000;
    }
    let gap: u64 = if avg_rtt_micros >= sample_micros {
        avg_rtt_micros - sample_micros
    } else {
        sample_micros - avg_rtt_micros
    };
    let quarter_gap: u128 = (gap / 4) as u128;
    deviation * 3 / 4 + quarter_gap * 1000
}

/// What the controller does with the utilities of completed intervals.
#[derive(Debug, Clone, Copy, PartialEq, Eq, Structural)]
pub enum UtilityAction {
    /// Double the rate and keep the new utility as the latest one.
    DoubleRate,
    /// Go (back) to probing.
    EnterProbing,
    /// Settle the direction from the probing groups and decide.
    Decide,
    /// Decide again in the same direction and keep the new utility as the
    /// latest one.
    ContinueDecision,
}

/// The action for the utilities of completed intervals in `mode`: while
/// starting, a utility higher than the latest doubles the rate and any
/// other starts probing; while probing, a round from which a decision can
/// be made decides and any other probes again; after a decision, a utility
/// that confirms it (see `decision_confirmed`) continues it and any other
/// starts probing.
pub fn utility_action(mode: Mode, utility_higher: bool, can_decide: bool, confirmed: bool) -> (r: UtilityAction)
    ensures
        r == match mode {
            Mode::Starting => if utility_higher { UtilityAction::DoubleRate } else { UtilityAction::EnterProbing },
            Mode::Probing => if can_decide { UtilityAction::Decide } else { UtilityAction::EnterProbing },
            Mode::DecisionMade => if confirmed { UtilityAction::ContinueDecision } else { UtilityAction::EnterProbing },
        },
{
    match mode {
        Mode::Starting => if utility_higher { UtilityAction::DoubleRate } else { UtilityAction::EnterProbing },
        Mode::Probing => if can_decide { UtilityAction::Decide } else { UtilityAction::EnterProbing },
        Mode::DecisionMade => if confirmed { UtilityAction::ContinueDecision } else { UtilityAction::EnterProbing },
    }
}

/// What a congestion event does before the queue takes it.
#[derive(Debug, Clone, Copy, PartialEq, Eq, Structural)]
pub struct EventPlan {
    /// Scale the rate up for an RTT below the initial one, on the first
    /// event that brings an RTT.
    pub boost_rate: bool,
    /// Check for RTT inflation, which restarts probing.
    pub check_rtt_inflation: bool,
}

/// The plan for a congestion event, from the mode, whether an RTT was seen
/// before, and the latest and initial RTTs in nanoseconds: the rate is
/// boosted on the first event whose latest RTT is below the initial one,
/// and RTT inflation is checked only while starting.
pub fn congestion_event_plan(mode: Mode, has_seen_valid_rtt: bool, latest_rtt: u128, initial_rtt: u128) -> (r: EventPlan)
    ensures
        r.boost_rate == (!has_seen_valid_rtt && latest_rtt < initial_rtt),
        r.check_rtt_inflation == (mode == Mode::Starting),
{
    EventPlan {
        boost_rate: !has_seen_valid_rtt && latest_rtt < initial_rtt,
        check_rtt_inflation: match mode {
            Mode::Starting => true,
            _ => false,
        },
    }
}

/// When all groups of a round agree, the rate moves the way they agree on,
/// and the last group is the one whose better interval becomes the latest
/// utility.
pub proof fn lemma_unanimous_groups_decide(increases: Seq<bool>)
    requires
        increases.len() > 0,
        groups_agree(increases),
    ensures
        majority_direction(increases) == if increases[0] { Direction::Increase } else { Direction::Decrease },
        last_agreeing_group(increases, majority_direction(increases)) == Some((increases.len() - 1) as nat),
{
    lemma_count_increases_uniform(increases);
    assert(increases.last() == increases[0]);
}

/// A round in which every group suggests the same counts all or none of them.
proof fn lemma_count_increases_uniform(increases: Seq<bool>)
    requires
        increases.len() > 0,
        groups_agree(increases),
    ensures
        count_increases(increases) == if increases[0] { increases.len() } else { 0 },
    decreases increases.len(),
{
    if increases.len() > 1 {
        let d = increases.drop_last();
        assert(d[0] == increases[0]);
        assert forall|i: int| 0 <= i < d.len() implies #[trigger] d[i] == d[0] by {
            assert(d[i] == increases[i]);
        }
        lemma_count_increases_uniform(d);
    } else {
        assert(count_increases(increases.drop_last()) == 0);
    }
    assert(increases.last() == increases[increases.len() - 1]);
}

/// Within a probing group the second useful interval moves the rate the
/// other way from the first, whatever the coins.
pub proof fn lemma_probing_group_alternates(k: nat, d: Direction, coin1: bool, coin2: bool)
    ensures
        probing_direction_spec(2 * k + 1, probing_direction_spec(2 * k, d, coin1), coin2)
            == opposite(probing_direction_spec(2 * k, d, coin1)),
{
    assert((2 * k) % 2 == 0) by (nonlinear_arith);
    assert((2 * k + 1) % 2 == 1) by (nonlinear_arith);
}

/// Outside probing the queue may hold exactly one useful interval: the
/// first one may be useful and no second one; while probing, two for each
/// probing group.
pub proof fn lemma_useful_allowance(mode: Mode)
    ensures
        mode != Mode::Probing ==> max_useful_intervals(mode) == 1,
        mode == Mode::Probing ==> max_useful_intervals(mode) == 2 * K_NUM_INTERVAL_GROUPS_IN_PROBING,
        max_useful_intervals(mode) >= 1,
{
}

/// A probing group opens in the direction that the coin picks, whatever
/// the direction before it: heads increases and tails decreases the rate,
/// so the two coins open groups in opposite directions.
pub proof fn lemma_group_opening_follows_coin(k: nat, d: Direction, coin: bool)
    ensures
        probing_direction_spec(2 * k, d, coin) == probing_direction_spec(2 * k, opposite(d), coin),
        probing_direction_spec(2 * k, d, true) == Direction::Increase,
        probing_direction_spec(2 * k, d, false) == Direction::Decrease,
        probing_direction_spec(2 * k, d, true) != probing_direction_spec(2 * k, d, false),
{
    assert((2 * k) % 2 == 0) by (nonlinear_arith);
}

/// The congestion window never falls below four base datagrams.
pub proof fn lemma_congestion_window_floor(bits_per_second: u64, micros: u64)
    ensures
        (if bytes_in_period(bits_per_second, micros) > 4 * BASE_DATAGRAM_SIZE {
            bytes_in_period(bits_per_second, micros)
        } else {
            4 * BASE_DATAGRAM_SIZE as int
        }) >= 4 * BASE_DATAGRAM_SIZE,
{
}

} // verus!
