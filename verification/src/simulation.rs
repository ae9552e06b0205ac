//! Simulation of a policy over a traffic pattern.
//!
//! Event rates that result from applying rates to whole event counts are
//! exact: they are counted in units of 10^-12 events per second, the product
//! of two rates in millionths. Shares and percentages carry six decimals.

use vstd::prelude::*;
use vstd::string::StringExecFns;
use crate::policy::{Action, Policy, Rule, RATE_ONE};
use crate::text::{append_decimal, decimal_text};
use crate::traffic::{lemma_max_eps, max_eps, sum_eps, TrafficPattern, TrafficPoint};

verus! {

/// One event per second, in the unit of derived event rates.
pub const EVENT_UNIT: u128 = 1_000_000_000_000;

/// The lowest sample rate that is ever suggested, in millionths.
pub const MIN_SUGGESTED_RATE: u32 = 1_000;

/// Simulation data for one traffic point.
#[derive(Debug, Clone, Copy, PartialEq, Eq, Structural)]
pub struct SimulationPoint {
    /// Time of the point, in milliseconds since the Unix epoch.
    pub timestamp: i64,
    /// Incoming events per second.
    pub incoming_eps: u64,
    /// Events kept per second, in units of 10^-12.
    pub kept_eps: u128,
    /// Events dropped per second, in units of 10^-12.
    pub dropped_eps: u128,
    /// Kept share of the incoming events, in millionths, rounded down.
    pub sample_rate: u32,
    /// Whether this point exceeds the budget.
    pub exceeds_budget: bool,
    /// Error events kept per second, in units of 10^-12.
    pub error_events_kept: u128,
}

/// A budget violation at one traffic point.
#[derive(Debug, Clone, Copy, PartialEq, Eq, Structural)]
pub struct BudgetViolation {
    /// When the violation occurred, in milliseconds since the Unix epoch.
    pub timestamp: i64,
    /// The budget limit, in events per second.
    pub budget_limit: u64,
    /// Events that would be kept per second, in units of 10^-12.
    pub actual_events: u128,
    /// Events over budget per second, in units of 10^-12.
    pub excess_events: u128,
    /// Excess as a percentage of the budget, in millionths of a percent,
    /// rounded down.
    pub excess_percent: u128,
    /// Index of the traffic point.
    pub point_index: usize,
}

/// Summary statistics of a simulation.
#[derive(Debug, Clone, Copy, PartialEq, Eq, Structural)]
pub struct SimulationSummary {
    /// Total incoming events.
    pub total_incoming: u128,
    /// Total events kept, in units of 10^-12.
    pub total_kept: u128,
    /// Total events dropped, in units of 10^-12.
    pub total_dropped: u128,
    /// Kept share of all incoming events, in millionths, rounded down.
    pub overall_sample_rate: u32,
    /// Number of points over budget.
    pub points_over_budget: usize,
    /// Number of points simulated.
    pub total_points: usize,
    /// Share of points over budget, in millionths of a percent, rounded down.
    pub percent_time_over_budget: u64,
    /// Highest kept event rate, in units of 10^-12.
    pub peak_kept_eps: u128,
    /// Mean kept event rate, in units of 10^-12, rounded down.
    pub avg_kept_eps: u128,
}

/// Kinds of recommendations.
#[derive(Debug, Clone, Copy, PartialEq, Eq, Structural)]
pub enum RecommendationKind {
    /// Reduce the sample rate.
    ReduceSampleRate,
    /// Increase the budget.
    IncreaseBudget,
    /// Add rate limiting.
    AddRateLimit,
    /// Adjust during peak hours.
    PeakHourAdjustment,
}

/// A recommendation for addressing budget violations.
#[derive(Debug, Clone)]
pub struct Recommendation {
    /// Kind of recommendation.
    pub kind: RecommendationKind,
    /// Human-readable description.
    pub message: String,
    /// Suggested value: a rate in millionths, or for a budget an event rate
    /// in units of 10^-12.
    pub suggested_value: Option<u128>,
}

/// What a recommendation says.
pub struct RecommendationText {
    pub kind: RecommendationKind,
    pub message: Seq<char>,
    pub suggested_value: Option<u128>,
}

impl View for Recommendation {
    type V = RecommendationText;

    open spec fn view(&self) -> RecommendationText {
        RecommendationText {
            kind: self.kind,
            message: self.message@,
            suggested_value: self.suggested_value,
        }
    }
}

/// The recommendations of `v`, each by what it says.
pub open spec fn recommendation_texts(v: Seq<Recommendation>) -> Seq<RecommendationText> {
    Seq::new(v.len(), |i: int| v[i]@)
}

/// Result of simulating a policy against a traffic pattern.
#[derive(Debug, Clone)]
pub struct SimulationResult {
    /// Whether the policy stays within budget.
    pub budget_compliant: bool,
    /// Budget violations, in the order of the points.
    pub violations: Vec<BudgetViolation>,
    /// Simulation data, point by point.
    pub timeline: Vec<SimulationPoint>,
    /// Summary statistics.
    pub summary: SimulationSummary,
    /// Recommendations for fixing violations.
    pub recommendations: Vec<Recommendation>,
}

/// The sample rate of the first fallback rule at or after `i` that samples,
/// in millionths; 1 if there is none.
pub open spec fn fallback_rate_from(rules: Seq<Rule>, i: int) -> nat
    decreases rules.len() - i,
{
    if i < 0 || i >= rules.len() {
        1_000_000
    } else {
        match rules[i].action {
            Action::Sample(rate) if rules[i].is_fallback() => rate as nat,
            _ => fallback_rate_from(rules, i + 1),
        }
    }
}

/// The policy's effective sample rate for traces that are no errors.
pub open spec fn fallback_rate(rules: Seq<Rule>) -> nat {
    fallback_rate_from(rules, 0)
}

/// Error events per second at a point, in units of 10^-12: all are kept.
pub open spec fn error_events(p: TrafficPoint) -> nat {
    p.events_per_second as nat * p.error_rate as nat * 1_000_000
}

/// Events per second that are no errors and pass sampling at `rate`, in
/// units of 10^-12.
pub open spec fn sampled_events(p: TrafficPoint, rate: nat) -> nat {
    p.events_per_second as nat * (1_000_000 - p.error_rate) as nat * rate
}

/// Events kept per second at a point, in units of 10^-12.
pub open spec fn kept_events(p: TrafficPoint, rate: nat) -> nat {
    error_events(p) + sampled_events(p, rate)
}

/// The budget in the unit of derived event rates.
pub open spec fn budget_units(budget: u64) -> nat {
    budget as nat * 1_000_000_000_000
}

/// What the simulation reports for one point.
pub open spec fn point_outcome(budget: u64, rate: nat, p: TrafficPoint) -> SimulationPoint {
    let kept = kept_events(p, rate);
    SimulationPoint {
        timestamp: p.timestamp,
        incoming_eps: p.events_per_second,
        kept_eps: kept as u128,
        dropped_eps: (p.events_per_second as nat * 1_000_000_000_000 - kept) as u128,
        sample_rate: if p.events_per_second > 0 {
            (kept / (p.events_per_second as nat * 1_000_000)) as u32
        } else {
            0
        },
        exceeds_budget: kept > budget_units(budget),
        error_events_kept: error_events(p) as u128,
    }
}

/// By how much an event rate exceeds the budget, in units of 10^-12.
pub open spec fn excess_over(actual_events: nat, budget_limit: u64) -> nat {
    if actual_events > budget_units(budget_limit) {
        (actual_events - budget_units(budget_limit)) as nat
    } else {
        0
    }
}

/// The violation recorded for a kept event rate over the budget.
pub open spec fn violation_of(
    timestamp: i64,
    budget_limit: u64,
    actual_events: u128,
    point_index: usize,
) -> BudgetViolation {
    let excess = excess_over(actual_events as nat, budget_limit);
    BudgetViolation {
        timestamp,
        budget_limit,
        actual_events,
        excess_events: excess as u128,
        excess_percent: if budget_limit > 0 {
            (excess / (budget_limit as nat * 10_000)) as u128
        } else {
            0
        },
        point_index,
    }
}

/// The violations among the first `n` points, in order.
pub open spec fn violations_of(points: Seq<TrafficPoint>, budget: u64, rate: nat, n: nat) -> Seq<
    BudgetViolation,
>
    decreases n,
{
    if n == 0 || n > points.len() {
        Seq::empty()
    } else {
        let before = violations_of(points, budget, rate, (n - 1) as nat);
        let p = points[n - 1];
        if kept_events(p, rate) > budget_units(budget) {
            before.push(
                violation_of(p.timestamp, budget, kept_events(p, rate) as u128, (n - 1) as usize),
            )
        } else {
            before
        }
    }
}

/// The kept events of the first `n` points together, in units of 10^-12.
pub open spec fn total_kept(points: Seq<TrafficPoint>, rate: nat, n: nat) -> nat
    decreases n,
{
    if n == 0 || n > points.len() {
        0
    } else {
        total_kept(points, rate, (n - 1) as nat) + kept_events(points[n - 1], rate)
    }
}

/// The highest kept event rate among the first `n` points, 0 if none.
pub open spec fn peak_kept(points: Seq<TrafficPoint>, rate: nat, n: nat) -> nat
    decreases n,
{
    if n == 0 || n > points.len() {
        0
    } else {
        let rest = peak_kept(points, rate, (n - 1) as nat);
        let here = kept_events(points[n - 1], rate);
        if here > rest {
            here
        } else {
            rest
        }
    }
}

/// The summary of a whole simulation.
pub open spec fn summary_of(points: Seq<TrafficPoint>, budget: u64, rate: nat) -> SimulationSummary {
    let n = points.len();
    let incoming = sum_eps(points, n);
    let kept = total_kept(points, rate, n);
    let over = violations_of(points, budget, rate, n).len();
    SimulationSummary {
        total_incoming: incoming as u128,
        total_kept: kept as u128,
        total_dropped: (incoming * 1_000_000_000_000 - kept) as u128,
        overall_sample_rate: if incoming > 0 {
            (kept / (incoming * 1_000_000)) as u32
        } else {
            0
        },
        points_over_budget: over as usize,
        total_points: n as usize,
        percent_time_over_budget: if n > 0 {
            ((over * 100_000_000) / n) as u64
        } else {
            0
        },
        peak_kept_eps: peak_kept(points, rate, n) as u128,
        avg_kept_eps: if n > 0 {
            (kept / n) as u128
        } else {
            0
        },
    }
}

/// The hour of the day (UTC) of a time in milliseconds since the Unix epoch.
pub open spec fn hour_of_day(timestamp: i64) -> int {
    ((timestamp as int / 1000) % 86_400) / 3_600
}

/// A rate in millionths as a percentage with one decimal, rounded half up.
pub open spec fn percent_text(rate: nat) -> Seq<char> {
    let tenths = (rate + 500) / 1000;
    decimal_text(tenths / 10) + seq!['.'] + decimal_text(tenths % 10)
}

/// An event rate in units of 10^-12 as a whole number, rounded half up.
pub open spec fn whole_events_text(events: nat) -> Seq<char> {
    decimal_text((events + 500_000_000_000) / 1_000_000_000_000)
}

/// The advice to lower the fallback sample rate.
pub open spec fn reduce_sample_rate_text(current: nat, suggested: nat) -> RecommendationText {
    RecommendationText {
        kind: RecommendationKind::ReduceSampleRate,
        message: "Reduce sample rate from "@ + percent_text(current) + "% to "@ + percent_text(
            suggested,
        ) + "% to stay within budget"@,
        suggested_value: Some(suggested as u128),
    }
}

/// The advice to raise the budget.
pub open spec fn increase_budget_text(current: u64, required: nat) -> RecommendationText {
    RecommendationText {
        kind: RecommendationKind::IncreaseBudget,
        message: "Increase budget from "@ + decimal_text(current as nat) + " to "@
            + whole_events_text(required) + " events/sec to handle peak traffic"@,
        suggested_value: Some(required as u128),
    }
}

/// The advice to sample less during the hour of the worst violation.
pub open spec fn peak_hour_text(peak_hour: nat, suggested: nat) -> RecommendationText {
    RecommendationText {
        kind: RecommendationKind::PeakHourAdjustment,
        message: "Consider reducing sample rate to "@ + percent_text(suggested)
            + "% during peak hour ("@ + decimal_text(peak_hour) + ":00)"@,
        suggested_value: Some(suggested as u128),
    }
}

/// `a` or `b`, whichever is greater.
pub open spec fn at_least(a: nat, b: nat) -> nat {
    if a < b {
        b
    } else {
        a
    }
}

/// The sample rate that keeps the highest incoming rate within budget with
/// a margin of a tenth, in millionths, rounded down.
pub open spec fn rate_within_budget(budget: u64, peak_incoming: nat) -> nat {
    at_least((budget as nat * 900_000) / peak_incoming, 1_000)
}

/// The budget that the highest kept rate needs with a headroom of a tenth,
/// in units of 10^-12, rounded down.
pub open spec fn budget_with_headroom(peak_kept: nat) -> nat {
    (peak_kept * 11) / 10
}

/// The last position among the first `n` violations with the highest excess.
pub open spec fn worst_violation(violations: Seq<BudgetViolation>, n: nat) -> int
    decreases n,
{
    if n <= 1 || n > violations.len() {
        0
    } else {
        let w = worst_violation(violations, (n - 1) as nat);
        if violations[n - 1].excess_events >= violations[w].excess_events {
            n - 1
        } else {
            w
        }
    }
}

/// The sample rate that would bring a violating point down to the budget,
/// in millionths, rounded down, at least a thousandth.
pub open spec fn rate_for_violation(budget: u64, v: BudgetViolation) -> nat {
    at_least((budget as nat * 1_000_000_000_000_000_000) / (v.actual_events as nat), 1_000)
}

/// Whether a violation records an event rate above the budget.
pub open spec fn exceeds(v: BudgetViolation, budget: u64) -> bool {
    v.actual_events > budget_units(budget)
}

/// The recommendations for a simulation with the given outcome.
pub open spec fn recommendations_of(
    budget: u64,
    current_rate: nat,
    peak_incoming: nat,
    peak_kept: nat,
    violations: Seq<BudgetViolation>,
) -> Seq<RecommendationText> {
    if violations.len() == 0 {
        Seq::empty()
    } else {
        let reduce = if peak_kept > budget_units(budget) && peak_incoming > 0 && rate_within_budget(
            budget,
            peak_incoming,
        ) < current_rate {
            seq![reduce_sample_rate_text(current_rate, rate_within_budget(budget, peak_incoming))]
        } else {
            Seq::empty()
        };
        let increase = if budget_with_headroom(peak_kept) > budget_units(budget) {
            seq![increase_budget_text(budget, budget_with_headroom(peak_kept))]
        } else {
            Seq::empty()
        };
        let worst = violations[worst_violation(violations, violations.len())];
        let peak = seq![
            peak_hour_text(hour_of_day(worst.timestamp) as nat, rate_for_violation(budget, worst)),
        ];
        reduce + increase + peak
    }
}

/// Whether `r` is the simulation of the points under the budget with the
/// given fallback rate: the outcome of each point, the violations in
/// order, the summary and the recommendations. The simulation is compliant
/// when there is no violation.
pub open spec fn is_simulation_of(
    r: SimulationResult,
    budget: u64,
    rate: nat,
    points: Seq<TrafficPoint>,
) -> bool {
    &&& r.timeline@ == Seq::new(points.len(), |i: int| point_outcome(budget, rate, points[i]))
    &&& r.violations@ == violations_of(points, budget, rate, points.len())
    &&& r.budget_compliant == (r.violations@.len() == 0)
    &&& r.summary == summary_of(points, budget, rate)
    &&& recommendation_texts(r.recommendations@) == recommendations_of(
        budget,
        rate,
        max_eps(points, points.len()),
        peak_kept(points, rate, points.len()),
        r.violations@,
    )
}

/// Errors are never sampled away: the error events that a simulated point
/// keeps are the incoming events times the error rate, exactly, whatever
/// the budget and the fallback sample rate.
pub proof fn errors_are_never_sampled_away(budget: u64, rate: nat, p: TrafficPoint)
    requires
        p.well_formed(),
    ensures
        point_outcome(budget, rate, p).error_events_kept == p.events_per_second as nat
            * p.error_rate as nat * 1_000_000,
        forall|other_budget: u64, other_rate: nat|
            (#[trigger] point_outcome(other_budget, other_rate, p)).error_events_kept
                == point_outcome(budget, rate, p).error_events_kept,
{
    lemma_kept_bounded(p, 0);
}

/// Errors are never sampled away in a simulation: the timeline has a point
/// for each point of the traffic, and each keeps the incoming events times
/// the error rate as its error events, exactly, which are never more than
/// the events it keeps in all; under another budget and another fallback
/// sample rate the error events are the same at every point.
pub proof fn simulated_errors_are_kept(
    r: SimulationResult,
    other: SimulationResult,
    budget: u64,
    rate: nat,
    other_budget: u64,
    other_rate: nat,
    points: Seq<TrafficPoint>,
)
    requires
        forall|i: int| 0 <= i < points.len() ==> (#[trigger] points[i]).well_formed(),
        rate <= RATE_ONE,
        is_simulation_of(r, budget, rate, points),
        is_simulation_of(other, other_budget, other_rate, points),
    ensures
        r.timeline@.len() == points.len(),
        other.timeline@.len() == points.len(),
        forall|i: int|
            0 <= i < points.len() ==> {
                &&& (#[trigger] r.timeline@[i]).error_events_kept
                    == points[i].events_per_second as nat * points[i].error_rate as nat * 1_000_000
                &&& r.timeline@[i].error_events_kept <= r.timeline@[i].kept_eps
                &&& other.timeline@[i].error_events_kept == r.timeline@[i].error_events_kept
            },
{
    assert forall|i: int| 0 <= i < points.len() implies {
        &&& (#[trigger] r.timeline@[i]).error_events_kept == points[i].events_per_second as nat
            * points[i].error_rate as nat * 1_000_000
        &&& r.timeline@[i].error_events_kept <= r.timeline@[i].kept_eps
        &&& other.timeline@[i].error_events_kept == r.timeline@[i].error_events_kept
    } by {
        let p = points[i];
        assert(p.well_formed());
        lemma_kept_bounded(p, rate);
        assert(r.timeline@[i] == point_outcome(budget, rate, p));
        assert(other.timeline@[i] == point_outcome(other_budget, other_rate, p));
    }
}

/// A kept rate never exceeds the incoming rate.
pub proof fn lemma_kept_bounded(p: TrafficPoint, rate: nat)
    requires
        p.well_formed(),
        rate <= RATE_ONE,
    ensures
        error_events(p) <= kept_events(p, rate) <= p.events_per_second as nat * 1_000_000_000_000,
        p.events_per_second as nat * 1_000_000_000_000 <= u64::MAX * 1_000_000_000_000,
{
    let e = p.events_per_second as nat;
    let r = p.error_rate as nat;
    assert(e * (1_000_000 - r) as nat * rate <= e * (1_000_000 - r) as nat * 1_000_000)
        by (nonlinear_arith)
        requires
            rate <= 1_000_000,
            r <= 1_000_000,
    ;
    assert(e * r * 1_000_000 + e * (1_000_000 - r) as nat * 1_000_000 == e * 1_000_000_000_000)
        by (nonlinear_arith)
        requires
            r <= 1_000_000,
    ;
    assert(e * 1_000_000_000_000 <= u64::MAX * 1_000_000_000_000) by (nonlinear_arith)
        requires
            e <= u64::MAX,
    ;
}

/// The totals over the first `n` points stay below the incoming events.
pub proof fn lemma_totals_bounded(points: Seq<TrafficPoint>, rate: nat, n: nat)
    requires
        n <= points.len(),
        rate <= RATE_ONE,
        forall|i: int| 0 <= i < points.len() ==> (#[trigger] points[i]).well_formed(),
    ensures
        total_kept(points, rate, n) <= sum_eps(points, n) * 1_000_000_000_000,
        peak_kept(points, rate, n) <= max_eps(points, n) * 1_000_000_000_000,
        peak_kept(points, rate, n) <= total_kept(points, rate, n),
        sum_eps(points, n) <= sum_eps(points, points.len()),
    decreases points.len() - n,
{
    lemma_prefix_totals(points, rate, n);
    if n < points.len() {
        lemma_totals_bounded(points, rate, n + 1);
    }
}

/// The bounds of [`lemma_totals_bounded`] that need no look ahead.
pub proof fn lemma_prefix_totals(points: Seq<TrafficPoint>, rate: nat, n: nat)
    requires
        n <= points.len(),
        rate <= RATE_ONE,
        forall|i: int| 0 <= i < points.len() ==> (#[trigger] points[i]).well_formed(),
    ensures
        total_kept(points, rate, n) <= sum_eps(points, n) * 1_000_000_000_000,
        peak_kept(points, rate, n) <= max_eps(points, n) * 1_000_000_000_000,
        peak_kept(points, rate, n) <= total_kept(points, rate, n),
        forall|budget: u64| (#[trigger] violations_of(points, budget, rate, n)).len() <= n,
        forall|budget: u64, k: int|
            0 <= k < violations_of(points, budget, rate, n).len() ==> exceeds(
                #[trigger] violations_of(points, budget, rate, n)[k],
                budget,
            ),
    decreases n,
{
    if n > 0 {
        let m = (n - 1) as nat;
        lemma_prefix_totals(points, rate, m);
        lemma_kept_bounded(points[n - 1], rate);
        let e = points[n - 1].events_per_second as nat;
        assert((sum_eps(points, m) + e) * 1_000_000_000_000 == sum_eps(points, m)
            * 1_000_000_000_000 + e * 1_000_000_000_000) by (nonlinear_arith);
        assert(max_eps(points, n) >= e && max_eps(points, n) >= max_eps(points, m));
        assert(max_eps(points, n) * 1_000_000_000_000 >= e * 1_000_000_000_000
            && max_eps(points, n) * 1_000_000_000_000 >= max_eps(points, m) * 1_000_000_000_000)
            by (nonlinear_arith)
            requires
                max_eps(points, n) >= e,
                max_eps(points, n) >= max_eps(points, m),
        ;
        assert forall|budget: u64| (#[trigger] violations_of(points, budget, rate, n)).len()
            <= n by {
            assert(violations_of(points, budget, rate, m).len() <= m);
        }
        assert forall|budget: u64, k: int|
            0 <= k < violations_of(points, budget, rate, n).len() implies exceeds(
            #[trigger] violations_of(points, budget, rate, n)[k],
            budget,
        ) by {
            let before = violations_of(points, budget, rate, m);
            if k < before.len() {
                assert(exceeds(before[k], budget));
            }
        }
    }
}

impl BudgetViolation {
    /// Creates the violation for a kept event rate (in units of 10^-12)
    /// against a budget (in events per second).
    pub fn new(timestamp: i64, budget_limit: u64, actual_events: u128, point_index: usize) -> (v:
        Self)
        ensures
            v == violation_of(timestamp, budget_limit, actual_events, point_index),
    {
        let limit: u128 = budget_limit as u128 * EVENT_UNIT;
        let excess_events: u128 = if actual_events > limit {
            actual_events - limit
        } else {
            0
        };
        let excess_percent: u128 = if budget_limit > 0 {
            excess_events / (budget_limit as u128 * 10_000)
        } else {
            0
        };
        BudgetViolation {
            timestamp,
            budget_limit,
            actual_events,
            excess_events,
            excess_percent,
            point_index,
        }
    }
}

/// Appends a rate in millionths as a percentage with one decimal.
fn append_percent(s: &mut String, rate: u32)
    ensures
        final(s)@ == old(s)@ + percent_text(rate as nat),
{
    let tenths: u128 = (rate as u128 + 500) / 1000;
    append_decimal(s, tenths / 10);
    s.append(".");
    append_decimal(s, tenths % 10);
    proof {
        reveal_strlit(".");
        assert("."@ == seq!['.']);
        assert(s@ == old(s)@ + (decimal_text((tenths / 10) as nat) + seq!['.'] + decimal_text(
            (tenths % 10) as nat,
        )));
    }
}

impl Recommendation {
    /// The advice to lower the sample rate from `current` to `suggested`,
    /// both in millionths.
    pub fn reduce_sample_rate(current: u32, suggested: u32) -> (r: Self)
        ensures
            r@ == reduce_sample_rate_text(current as nat, suggested as nat),
    {
        let mut message = String::new();
        message.append("Reduce sample rate from ");
        append_percent(&mut message, current);
        message.append("% to ");
        append_percent(&mut message, suggested);
        message.append("% to stay within budget");
        assert(message@ == reduce_sample_rate_text(current as nat, suggested as nat).message);
        Recommendation {
            kind: RecommendationKind::ReduceSampleRate,
            message,
            suggested_value: Some(suggested as u128),
        }
    }

    /// The advice to raise the budget from `current` events per second to
    /// `required`, an event rate in units of 10^-12.
    pub fn increase_budget(current: u64, required: u128) -> (r: Self)
        requires
            required + 500_000_000_000 <= u128::MAX,
        ensures
            r@ == increase_budget_text(current, required as nat),
    {
        let mut message = String::new();
        message.append("Increase budget from ");
        append_decimal(&mut message, current as u128);
        message.append(" to ");
        append_decimal(&mut message, (required + 500_000_000_000) / EVENT_UNIT);
        message.append(" events/sec to handle peak traffic");
        assert(message@ == increase_budget_text(current, required as nat).message);
        Recommendation {
            kind: RecommendationKind::IncreaseBudget,
            message,
            suggested_value: Some(required),
        }
    }

    /// The advice to sample at `suggested_rate` (in millionths) during the
    /// given hour of the day.
    pub fn peak_hour_adjustment(peak_hour: u32, suggested_rate: u32) -> (r: Self)
        ensures
            r@ == peak_hour_text(peak_hour as nat, suggested_rate as nat),
    {
        let mut message = String::new();
        message.append("Consider reducing sample rate to ");
        append_percent(&mut message, suggested_rate);
        message.append("% during peak hour (");
        append_decimal(&mut message, peak_hour as u128);
        message.append(":00)");
        assert(message@ == peak_hour_text(peak_hour as nat, suggested_rate as nat).message);
        Recommendation {
            kind: RecommendationKind::PeakHourAdjustment,
            message,
            suggested_value: Some(suggested_rate as u128),
        }
    }
}

/// The hour of the day (UTC) of a time in milliseconds since the Unix epoch.
pub fn hour_of(timestamp: i64) -> (h: u32)
    ensures
        h == hour_of_day(timestamp),
        h < 24,
{
    let secs: i64 = match timestamp.checked_div_euclid(1000) {
        Some(q) => q,
        None => 0,
    };
    let in_day: i64 = match secs.checked_rem_euclid(86_400) {
        Some(r) => r,
        None => 0,
    };
    (in_day / 3_600) as u32
}

impl SimulationResult {
    /// Whether no budget violation occurred.
    pub fn is_compliant(&self) -> (r: bool)
        ensures
            r == self.budget_compliant,
    {
        self.budget_compliant
    }

    /// The number of violations.
    pub fn violation_count(&self) -> (n: usize)
        ensures
            n == self.violations@.len(),
    {
        self.violations.len()
    }

    /// The violation with the highest excess; among equal ones the last.
    pub fn peak_violation(&self) -> (r: Option<&BudgetViolation>)
        ensures
            self.violations@.len() == 0 ==> r is None,
            self.violations@.len() > 0 ==> r == Some(
                &self.violations@[worst_violation(self.violations@, self.violations@.len())],
            ),
    {
        if self.violations.len() == 0 {
            return None;
        }
        let w = worst_index(&self.violations);
        Some(&self.violations[w])
    }
}

/// The last position with the highest excess.
fn worst_index(violations: &Vec<BudgetViolation>) -> (w: usize)
    requires
        violations@.len() > 0,
    ensures
        w == worst_violation(violations@, violations@.len()),
        w < violations@.len(),
{
    let mut w: usize = 0;
    let mut i: usize = 1;
    while i < violations.len()
        invariant
            1 <= i <= violations@.len(),
            w < i,
            w == worst_violation(violations@, i as nat),
        decreases violations.len() - i,
    {
        if violations[i].excess_events >= violations[w].excess_events {
            w = i;
        }
        i += 1;
    }
    w
}

/// Runs policies against traffic patterns under a budget.
#[derive(Debug, Clone, Copy)]
pub struct Simulator {
    /// Budget limit, in events per second.
    pub budget: u64,
}

impl Simulator {
    /// Creates a simulator with the given budget, in events per second.
    pub fn new(budget: u64) -> (s: Self)
        ensures
            s.budget == budget,
    {
        Simulator { budget }
    }

    /// The sample rate of the first fallback rule that samples, in
    /// millionths; 1 if the policy has none.
    pub fn effective_sample_rate(&self, policy: &Policy) -> (rate: u32)
        ensures
            rate == fallback_rate(policy.rules@),
    {
        let mut i: usize = 0;
        while i < policy.rules.len()
            invariant
                i <= policy.rules@.len(),
                fallback_rate_from(policy.rules@, i as int) == fallback_rate(policy.rules@),
            decreases policy.rules.len() - i,
        {
            if policy.rules[i].matches_everything() {
                if let Action::Sample(rate) = policy.rules[i].action {
                    return rate;
                }
            }
            i += 1;
        }
        RATE_ONE
    }

    /// Simulates one traffic point: errors are kept in full, the rest at
    /// the policy's fallback rate.
    pub fn simulate_point(&self, policy: &Policy, point: &TrafficPoint, _index: usize) -> (r:
        SimulationPoint)
        requires
            point.well_formed(),
            fallback_rate(policy.rules@) <= RATE_ONE,
        ensures
            r == point_outcome(self.budget, fallback_rate(policy.rules@), *point),
    {
        let rate = self.effective_sample_rate(policy);
        self.point_at_rate(rate, point)
    }

    /// Simulates one traffic point at a given fallback rate.
    fn point_at_rate(&self, rate: u32, point: &TrafficPoint) -> (r: SimulationPoint)
        requires
            point.well_formed(),
            rate <= RATE_ONE,
        ensures
            r == point_outcome(self.budget, rate as nat, *point),
    {
        let eps: u128 = point.events_per_second as u128;
        let error_rate: u128 = point.error_rate as u128;
        proof {
            lemma_kept_bounded(*point, rate as nat);
            assert(eps * error_rate <= u64::MAX * 1_000_000) by (nonlinear_arith)
                requires
                    eps <= u64::MAX,
                    error_rate <= 1_000_000,
            ;
            assert(eps * (1_000_000 - error_rate) <= u64::MAX * 1_000_000) by (nonlinear_arith)
                requires
                    eps <= u64::MAX,
                    error_rate <= 1_000_000,
            ;
            assert(eps * 1_000_000 <= u64::MAX * 1_000_000) by (nonlinear_arith)
                requires
                    eps <= u64::MAX,
            ;
        }
        let error_events: u128 = eps * error_rate * 1_000_000;
        let non_error: u128 = eps * (1_000_000 - error_rate);
        proof {
            assert(non_error * rate <= u64::MAX * 1_000_000 * 1_000_000) by (nonlinear_arith)
                requires
                    non_error <= u64::MAX * 1_000_000,
                    rate <= 1_000_000,
            ;
        }
        let sampled: u128 = non_error * (rate as u128);
        let kept_eps: u128 = error_events + sampled;
        let dropped_eps: u128 = eps * EVENT_UNIT - kept_eps;
        let sample_rate: u32 = if eps > 0 {
            proof {
                assert(kept_eps as int / (eps * 1_000_000) <= 1_000_000) by (nonlinear_arith)
                    requires
                        kept_eps <= eps * 1_000_000_000_000,
                        eps > 0,
                ;
            }
            (kept_eps / (eps * 1_000_000)) as u32
        } else {
            0
        };
        SimulationPoint {
            timestamp: point.timestamp,
            incoming_eps: point.events_per_second,
            kept_eps,
            dropped_eps,
            sample_rate,
            exceeds_budget: kept_eps > self.budget as u128 * EVENT_UNIT,
            error_events_kept: error_events,
        }
    }

    /// Simulates a policy against a traffic pattern.
    pub fn simulate(&self, policy: &Policy, traffic: &TrafficPattern) -> (r: SimulationResult)
        requires
            traffic.well_formed(),
            fallback_rate(policy.rules@) <= RATE_ONE,
            sum_eps(traffic@, traffic@.len()) * 1_000_000_000_000 <= u128::MAX,
        ensures
            is_simulation_of(r, self.budget, fallback_rate(policy.rules@), traffic@),
    {
        let rate = self.effective_sample_rate(policy);
        let points = traffic.points();
        let n = points.len();
        let ghost pts = traffic@;
        let ghost rt = rate as nat;
        let mut timeline: Vec<SimulationPoint> = Vec::new();
        let mut violations: Vec<BudgetViolation> = Vec::new();
        let mut total_incoming: u128 = 0;
        let mut kept_sum: u128 = 0;
        let mut peak_kept_eps: u128 = 0;
        let mut index: usize = 0;
        while index < n
            invariant
                points@ == pts,
                pts == traffic@,
                n == pts.len(),
                rt == rate,
                rate <= RATE_ONE,
                index <= n,
                traffic.well_formed(),
                sum_eps(pts, n as nat) * 1_000_000_000_000 <= u128::MAX,
                timeline@ == Seq::new(index as nat, |i: int| point_outcome(self.budget, rt, pts[i])),
                violations@ == violations_of(pts, self.budget, rt, index as nat),
                total_incoming == sum_eps(pts, index as nat),
                kept_sum == total_kept(pts, rt, index as nat),
                peak_kept_eps == peak_kept(pts, rt, index as nat),
            decreases n - index,
        {
            let point = &points[index];
            let sim_point = self.point_at_rate(rate, point);
            proof {
                lemma_totals_bounded(pts, rt, (index + 1) as nat);
                lemma_kept_bounded(pts[index as int], rt);
                assert(sum_eps(pts, (index + 1) as nat) * 1_000_000_000_000 <= sum_eps(
                    pts,
                    n as nat,
                ) * 1_000_000_000_000) by (nonlinear_arith)
                    requires
                        sum_eps(pts, (index + 1) as nat) <= sum_eps(pts, n as nat),
                ;
                assert(sum_eps(pts, (index + 1) as nat) <= sum_eps(pts, (index + 1) as nat)
                    * 1_000_000_000_000) by (nonlinear_arith);
            }
            if sim_point.exceeds_budget {
                violations.push(
                    BudgetViolation::new(point.timestamp, self.budget, sim_point.kept_eps, index),
                );
            }
            total_incoming = total_incoming + sim_point.incoming_eps as u128;
            kept_sum = kept_sum + sim_point.kept_eps;
            if sim_point.kept_eps > peak_kept_eps {
                peak_kept_eps = sim_point.kept_eps;
            }
            timeline.push(sim_point);
            assert(timeline@ == Seq::new(
                (index + 1) as nat,
                |i: int| point_outcome(self.budget, rt, pts[i]),
            ));
            index += 1;
        }
        proof {
            lemma_totals_bounded(pts, rt, n as nat);
            lemma_prefix_totals(pts, rt, n as nat);
            lemma_max_eps(pts, n as nat);
            assert(violations_of(pts, self.budget, rt, n as nat).len() <= n);
            assert(max_eps(pts, n as nat) * 1_000_000_000_000 <= u64::MAX * 1_000_000_000_000)
                by (nonlinear_arith)
                requires
                    max_eps(pts, n as nat) <= u64::MAX,
            ;
        }
        let total_dropped: u128 = total_incoming * EVENT_UNIT - kept_sum;
        let overall_sample_rate: u32 = if total_incoming > 0 {
            proof {
                assert(kept_sum as int / (total_incoming * 1_000_000) <= 1_000_000) by (nonlinear_arith)
                    requires
                        kept_sum <= total_incoming * 1_000_000_000_000,
                        total_incoming > 0,
                ;
                assert(total_incoming * 1_000_000 <= total_incoming * 1_000_000_000_000)
                    by (nonlinear_arith);
            }
            (kept_sum / (total_incoming * 1_000_000)) as u32
        } else {
            0
        };
        let points_over_budget = violations.len();
        let percent_time_over_budget: u64 = if n > 0 {
            proof {
                assert((points_over_budget * 100_000_000) / (n as int) <= 100_000_000)
                    by (nonlinear_arith)
                    requires
                        points_over_budget <= n,
                        n > 0,
                ;
            }
            ((points_over_budget as u128 * 100_000_000) / (n as u128)) as u64
        } else {
            0
        };
        let avg_kept_eps: u128 = if n > 0 {
            kept_sum / (n as u128)
        } else {
            0
        };
        let summary = SimulationSummary {
            total_incoming,
            total_kept: kept_sum,
            total_dropped,
            overall_sample_rate,
            points_over_budget,
            total_points: n,
            percent_time_over_budget,
            peak_kept_eps,
            avg_kept_eps,
        };
        let recommendations = self.generate_recommendations(policy, traffic, &violations, &summary);
        SimulationResult {
            budget_compliant: violations.len() == 0,
            violations,
            timeline,
            summary,
            recommendations,
        }
    }

    /// Advice for a simulation that found violations: a lower sample rate,
    /// a higher budget, and a rate for the hour of the worst violation.
    pub fn generate_recommendations(
        &self,
        policy: &Policy,
        traffic: &TrafficPattern,
        violations: &Vec<BudgetViolation>,
        summary: &SimulationSummary,
    ) -> (r: Vec<Recommendation>)
        requires
            summary.peak_kept_eps <= u64::MAX * 1_000_000_000_000,
            forall|k: int| 0 <= k < violations@.len() ==> exceeds(#[trigger] violations@[k], self.budget),
        ensures
            recommendation_texts(r@) == recommendations_of(
                self.budget,
                fallback_rate(policy.rules@),
                max_eps(traffic@, traffic@.len()),
                summary.peak_kept_eps as nat,
                violations@,
            ),
    {
        let mut recommendations: Vec<Recommendation> = Vec::new();
        if violations.len() == 0 {
            assert(recommendation_texts(recommendations@) == Seq::<RecommendationText>::empty());
            return recommendations;
        }
        let ghost reduce = Seq::<RecommendationText>::empty();
        let ghost increase = Seq::<RecommendationText>::empty();
        let ghost peak = Seq::<RecommendationText>::empty();
        let current_rate = self.effective_sample_rate(policy);
        let budget_limit: u128 = self.budget as u128 * EVENT_UNIT;
        let peak_incoming = traffic.peak_eps();
        if summary.peak_kept_eps > budget_limit && peak_incoming > 0 {
            let required: u128 = (self.budget as u128 * 900_000) / (peak_incoming as u128);
            let suggested: u128 = if required < MIN_SUGGESTED_RATE as u128 {
                MIN_SUGGESTED_RATE as u128
            } else {
                required
            };
            if suggested < current_rate as u128 {
                recommendations.push(
                    Recommendation::reduce_sample_rate(current_rate, suggested as u32),
                );
                proof {
                    reduce = seq![
                        reduce_sample_rate_text(
                            current_rate as nat,
                            rate_within_budget(self.budget, peak_incoming as nat),
                        ),
                    ];
                }
            }
        }
        assert(recommendation_texts(recommendations@) == reduce);
        let required_budget: u128 = (summary.peak_kept_eps * 11) / 10;
        if required_budget > budget_limit {
            recommendations.push(Recommendation::increase_budget(self.budget, required_budget));
            proof {
                increase = seq![
                    increase_budget_text(
                        self.budget,
                        budget_with_headroom(summary.peak_kept_eps as nat),
                    ),
                ];
            }
        }
        assert(recommendation_texts(recommendations@) == reduce + increase);
        let w = worst_index(violations);
        let worst = &violations[w];
        assert(exceeds(*worst, self.budget));
        let peak_hour = hour_of(worst.timestamp);
        let peak_rate: u128 = (self.budget as u128 * 1_000_000_000_000_000_000)
            / worst.actual_events;
        proof {
            assert((self.budget * 1_000_000_000_000_000_000) / (worst.actual_events as int)
                <= 1_000_000) by (nonlinear_arith)
                requires
                    worst.actual_events > self.budget * 1_000_000_000_000,
            ;
        }
        let suggested: u128 = if peak_rate < MIN_SUGGESTED_RATE as u128 {
            MIN_SUGGESTED_RATE as u128
        } else {
            peak_rate
        };
        recommendations.push(Recommendation::peak_hour_adjustment(peak_hour, suggested as u32));
        proof {
            peak = seq![
                peak_hour_text(
                    hour_of_day(worst.timestamp) as nat,
                    rate_for_violation(self.budget, *worst),
                ),
            ];
        }
        assert(recommendation_texts(recommendations@) == reduce + increase + peak);
        recommendations
    }
}

impl Default for SimulationSummary {
    /// The summary of no points: nothing but zeros.
    fn default() -> (s: Self)
        ensures
            s == (SimulationSummary {
                total_incoming: 0,
                total_kept: 0,
                total_dropped: 0,
                overall_sample_rate: 0,
                points_over_budget: 0,
                total_points: 0,
                percent_time_over_budget: 0,
                peak_kept_eps: 0,
                avg_kept_eps: 0,
            }),
    {
        SimulationSummary {
            total_incoming: 0,
            total_kept: 0,
            total_dropped: 0,
            overall_sample_rate: 0,
            points_over_budget: 0,
            total_points: 0,
            percent_time_over_budget: 0,
            peak_kept_eps: 0,
            avg_kept_eps: 0,
        }
    }
}

} // verus!
