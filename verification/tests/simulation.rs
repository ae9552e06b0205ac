use nectar::policy::{Action, Policy, Rule};
use nectar::simulation::{
    hour_of, BudgetViolation, Recommendation, RecommendationKind, Simulator, EVENT_UNIT,
};
use nectar::traffic::{TrafficPattern, TrafficPoint};

fn rate(share: f64) -> u32 {
    (share * 1_000_000.0).round() as u32
}

/// An event rate of the library, in events per second.
fn events(units: u128) -> f64 {
    units as f64 / EVENT_UNIT as f64
}

/// 2024-01-15 09:00:00 UTC in milliseconds since the Unix epoch.
const BASE_MS: i64 = 1_705_309_200_000;
const MINUTE_MS: i64 = 60_000;

fn sample_policy() -> Policy {
    let mut policy = Policy::new("test");
    policy.add_rule(Rule::new("keep-errors", "error", Action::Keep, 100));
    policy.add_rule(Rule::new("fallback", "true", Action::Sample(rate(0.1)), 0));
    policy
}

fn sample_traffic() -> TrafficPattern {
    TrafficPattern::from_points(vec![
        TrafficPoint::new(BASE_MS, 5000).with_error_rate(rate(0.02)),
        TrafficPoint::new(BASE_MS + MINUTE_MS, 8000).with_error_rate(rate(0.01)),
        TrafficPoint::new(BASE_MS + 2 * MINUTE_MS, 15000).with_error_rate(rate(0.02)),
        TrafficPoint::new(BASE_MS + 3 * MINUTE_MS, 6000).with_error_rate(rate(0.01)),
    ])
}

#[test]
fn simulation_within_budget() {
    let policy = sample_policy();
    let traffic = sample_traffic();
    let simulator = Simulator::new(10000); // High budget

    let result = simulator.simulate(&policy, &traffic);

    assert!(result.is_compliant());
    assert!(result.violations.is_empty());
    assert_eq!(result.timeline.len(), 4);
}

#[test]
fn simulation_exceeds_budget() {
    let policy = sample_policy();
    let traffic = sample_traffic();
    let simulator = Simulator::new(1000); // Low budget

    let result = simulator.simulate(&policy, &traffic);

    assert!(!result.is_compliant());
    assert!(!result.violations.is_empty());
}

#[test]
fn simulation_generates_recommendations() {
    let policy = sample_policy();
    let traffic = sample_traffic();
    let simulator = Simulator::new(500); // Very low budget

    let result = simulator.simulate(&policy, &traffic);

    assert!(!result.recommendations.is_empty());
    // Should have sample rate and budget recommendations
    assert!(result
        .recommendations
        .iter()
        .any(|r| { matches!(r.kind, RecommendationKind::ReduceSampleRate) }));
}

#[test]
fn simulation_summary_stats() {
    let policy = sample_policy();
    let traffic = sample_traffic();
    let simulator = Simulator::new(10000);

    let result = simulator.simulate(&policy, &traffic);

    assert!(result.summary.total_incoming > 0);
    assert!(result.summary.total_kept > 0);
    assert!(result.summary.overall_sample_rate > 0);
    assert!(result.summary.overall_sample_rate <= 1_000_000);
}

#[test]
fn simulation_keeps_errors() {
    let policy = sample_policy();
    let traffic = TrafficPattern::from_points(vec![
        TrafficPoint::new(BASE_MS, 1000).with_error_rate(rate(0.5)), // 50% errors
    ]);
    let simulator = Simulator::new(10000);

    let result = simulator.simulate(&policy, &traffic);
    let point = &result.timeline[0];

    // 500 error events should be kept
    assert!((events(point.error_events_kept) - 500.0).abs() < f64::EPSILON);
}

#[test]
fn budget_violation_calculation() {
    let violation = BudgetViolation::new(BASE_MS, 1000, 1500 * EVENT_UNIT, 0);

    assert!((events(violation.excess_events) - 500.0).abs() < f64::EPSILON);
    assert!((violation.excess_percent as f64 / 1_000_000.0 - 50.0).abs() < f64::EPSILON);
}

#[test]
fn budget_violation_scenario() {
    let mut policy = Policy::new("test");
    policy.add_rule(Rule::new("fallback", "true", Action::Sample(rate(0.1)), 0));
    let simulator = Simulator::new(1000);

    // 15,000 events per second: 300 errors and a tenth of the other 14,700.
    let traffic = TrafficPattern::from_points(vec![
        TrafficPoint::new(BASE_MS, 15_000).with_error_rate(rate(0.02)),
    ]);
    let result = simulator.simulate(&policy, &traffic);
    assert_eq!(result.timeline[0].kept_eps, 1770 * EVENT_UNIT);

    let traffic = TrafficPattern::from_points(vec![
        TrafficPoint::new(BASE_MS, 50_000).with_error_rate(rate(0.02)),
    ]);
    let result = simulator.simulate(&policy, &traffic);
    let point = result.timeline[0];
    assert_eq!(point.error_events_kept, 1000 * EVENT_UNIT);
    assert_eq!(point.kept_eps, 5900 * EVENT_UNIT);
    assert_eq!(point.dropped_eps, 44_100 * EVENT_UNIT);
    assert_eq!(point.sample_rate, 118_000);
    assert!(point.exceeds_budget);
    assert!(!result.budget_compliant);
    assert_eq!(result.violations.len(), 1);
    let violation = result.violations[0];
    assert_eq!(violation.excess_events, point.kept_eps - 1000 * EVENT_UNIT);
    assert_eq!(violation.actual_events, point.kept_eps);
    assert_eq!(violation.budget_limit, 1000);
    assert_eq!(violation.point_index, 0);
    assert_eq!(violation.timestamp, BASE_MS);
    assert_eq!(violation.excess_percent, 490_000_000);
    assert_eq!(result.peak_violation(), Some(&violation));
}

#[test]
fn errors_are_kept_whatever_the_fallback_rate() {
    let point = TrafficPoint::new(BASE_MS, 12_345).with_error_rate(123_456);
    let expected = 12_345u128 * 123_456 * 1_000_000;
    for fallback in [Action::Drop, Action::Keep, Action::Sample(0), Action::Sample(1), Action::Sample(999_999)] {
        let mut policy = Policy::new("p");
        policy.add_rule(Rule::new("fallback", "true", fallback, 0));
        for budget in [0, 1, u64::MAX] {
            let simulated = Simulator::new(budget).simulate_point(&policy, &point, 0);
            assert_eq!(simulated.error_events_kept, expected);
            assert!(simulated.kept_eps >= expected);
            assert_eq!(simulated.kept_eps + simulated.dropped_eps, 12_345 * EVENT_UNIT);
        }
    }
}

#[test]
fn fallback_rate_is_that_of_the_first_sampling_fallback() {
    let simulator = Simulator::new(0);
    let mut policy = Policy::new("p");
    assert_eq!(simulator.effective_sample_rate(&policy), 1_000_000);
    policy.add_rule(Rule::new("keep-all", "true", Action::Keep, 9));
    assert_eq!(simulator.effective_sample_rate(&policy), 1_000_000);
    policy.add_rule(Rule::new("sampled-errors", "error", Action::Sample(5), 8));
    assert_eq!(simulator.effective_sample_rate(&policy), 1_000_000);
    policy.add_rule(Rule::new("first", "true", Action::Sample(250_000), 7));
    policy.add_rule(Rule::new("second", "true", Action::Sample(10), 6));
    assert_eq!(simulator.effective_sample_rate(&policy), 250_000);
}

#[test]
fn summary_in_exact_numbers() {
    let result = Simulator::new(1000).simulate(&sample_policy(), &sample_traffic());
    // Kept: 100+490, 80+792, 300+1470, 60+594.
    let kept: Vec<u128> = result.timeline.iter().map(|p| p.kept_eps / EVENT_UNIT).collect();
    assert_eq!(kept, vec![590, 872, 1770, 654]);
    let summary = result.summary;
    assert_eq!(summary.total_incoming, 34_000);
    assert_eq!(summary.total_kept, 3886 * EVENT_UNIT);
    assert_eq!(summary.total_dropped, (34_000 - 3886) * EVENT_UNIT);
    assert_eq!(summary.overall_sample_rate, 114_294);
    assert_eq!(summary.points_over_budget, 1);
    assert_eq!(summary.total_points, 4);
    assert_eq!(summary.percent_time_over_budget, 25_000_000);
    assert_eq!(summary.peak_kept_eps, 1770 * EVENT_UNIT);
    assert_eq!(summary.avg_kept_eps, 3886 * EVENT_UNIT / 4);
    assert_eq!(result.violations.len(), 1);
    assert_eq!(result.violations[0].point_index, 2);
}

#[test]
fn recommendations_in_exact_words() {
    let result = Simulator::new(1000).simulate(&sample_policy(), &sample_traffic());
    let said: Vec<(RecommendationKind, &str, Option<u128>)> = result
        .recommendations
        .iter()
        .map(|r| (r.kind, r.message.as_str(), r.suggested_value))
        .collect();
    assert_eq!(
        said,
        vec![
            (
                RecommendationKind::ReduceSampleRate,
                "Reduce sample rate from 10.0% to 6.0% to stay within budget",
                Some(60_000)
            ),
            (
                RecommendationKind::IncreaseBudget,
                "Increase budget from 1000 to 1947 events/sec to handle peak traffic",
                Some(1947 * EVENT_UNIT)
            ),
            (
                RecommendationKind::PeakHourAdjustment,
                "Consider reducing sample rate to 56.5% during peak hour (9:00)",
                Some(564_971)
            ),
        ]
    );
    assert!(Simulator::new(10_000).simulate(&sample_policy(), &sample_traffic()).recommendations.is_empty());
}

#[test]
fn suggested_rates_have_a_floor() {
    let result = Simulator::new(1).simulate(&sample_policy(), &sample_traffic());
    // 1 * 0.9 / 15000 lies below a thousandth.
    assert_eq!(result.recommendations[0].suggested_value, Some(1_000));
    assert_eq!(
        result.recommendations[0].message,
        "Reduce sample rate from 10.0% to 0.1% to stay within budget"
    );
    assert_eq!(result.recommendations[2].suggested_value, Some(1_000));
    // The worst violation is the last of those with the highest excess.
    let twins = TrafficPattern::from_points(vec![
        TrafficPoint::new(BASE_MS, 20_000),
        TrafficPoint::new(BASE_MS + 5 * 3_600_000, 20_000),
    ]);
    let result = Simulator::new(1).simulate(&sample_policy(), &twins);
    assert_eq!(result.peak_violation().map(|v| v.point_index), Some(1));
    assert!(result.recommendations[2].message.ends_with("(14:00)"));
}

#[test]
fn recommendation_texts_round_half_up() {
    assert_eq!(
        Recommendation::reduce_sample_rate(1_000_000, 12_349).message,
        "Reduce sample rate from 100.0% to 1.2% to stay within budget"
    );
    assert_eq!(
        Recommendation::reduce_sample_rate(12_500, 499).message,
        "Reduce sample rate from 1.3% to 0.0% to stay within budget"
    );
    assert_eq!(
        Recommendation::increase_budget(7, 8 * EVENT_UNIT + EVENT_UNIT / 2).message,
        "Increase budget from 7 to 9 events/sec to handle peak traffic"
    );
    assert_eq!(
        Recommendation::peak_hour_adjustment(0, 999_500).message,
        "Consider reducing sample rate to 100.0% during peak hour (0:00)"
    );
}

#[test]
fn hour_of_day_in_utc() {
    assert_eq!(hour_of(BASE_MS), 9);
    assert_eq!(hour_of(0), 0);
    assert_eq!(hour_of(3_599_999), 0);
    assert_eq!(hour_of(3_600_000), 1);
    assert_eq!(hour_of(86_399_999), 23);
    assert_eq!(hour_of(86_400_000), 0);
    assert_eq!(hour_of(-1), 23);
    assert_eq!(hour_of(-3_600_001), 22);
    assert!(hour_of(i64::MIN) < 24);
    assert!(hour_of(i64::MAX) < 24);
}

#[test]
fn a_point_without_events_keeps_nothing() {
    let point = TrafficPoint::new(BASE_MS, 0).with_error_rate(500_000);
    let simulated = Simulator::new(0).simulate_point(&sample_policy(), &point, 0);
    assert_eq!(simulated.kept_eps, 0);
    assert_eq!(simulated.sample_rate, 0);
    assert!(!simulated.exceeds_budget);
    // A kept rate at the budget is no violation.
    let at_budget = TrafficPoint::new(BASE_MS, 1000).with_error_rate(1_000_000);
    assert!(!Simulator::new(1000).simulate_point(&sample_policy(), &at_budget, 0).exceeds_budget);
    assert!(Simulator::new(999).simulate_point(&sample_policy(), &at_budget, 0).exceeds_budget);
    let empty = Simulator::new(5).simulate(&sample_policy(), &TrafficPattern::new());
    assert!(empty.is_compliant());
    assert_eq!(empty.summary.total_points, 0);
    assert_eq!(empty.summary.overall_sample_rate, 0);
    assert_eq!(empty.peak_violation(), None);
}
