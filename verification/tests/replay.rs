use nectar::corpus::Corpus;
use nectar::policy::{Action, Policy, Rule};
use nectar::replay::{
    format_duration, simple_hash, ReplayConfig, ReplaySpeed, ReplayTimeRange, ReplayWindow,
    Replayer, TimeWindow,
};
use nectar::span::Span;
use nectar::trace::Trace;
use std::time::Duration;

fn rate(share: f64) -> u32 {
    (share * 1_000_000.0).round() as u32
}

fn sample_policy() -> Policy {
    let mut policy = Policy::new("test");
    policy.add_rule(Rule::new("keep-errors", "status >= 500", Action::Keep, 100));
    policy.add_rule(Rule::new("sample-normal", "true", Action::Sample(rate(0.1)), 0));
    policy
}

fn sample_corpus() -> Corpus {
    let base_ns = 1_000_000_000_000u64; // 1000 seconds
    let traces = vec![
        create_trace("t1", base_ns, 200, false),
        create_trace("t2", base_ns + 500_000_000, 200, false), // +0.5s
        create_trace("t3", base_ns + 1_000_000_000, 500, true), // +1s
        create_trace("t4", base_ns + 1_500_000_000, 200, false), // +1.5s
        create_trace("t5", base_ns + 2_000_000_000, 503, true), // +2s
    ];
    Corpus::from_traces(traces)
}

fn create_trace(id: &str, start_ns: u64, status: u16, is_error: bool) -> Trace {
    let span = Span::new(&format!("{id}-span"), "operation")
        .with_service("api")
        .with_start_time_ns(start_ns)
        .with_duration(Duration::from_millis(50));

    let mut trace = Trace::from_spans(id, vec![span]);
    trace.status = Some(status);
    trace.is_error = is_error;
    trace
}

#[test]
fn replay_speed_multipliers() {
    let factor = |speed: ReplaySpeed| speed.multiplier().map(|m| m as f64 / 1_000_000.0);
    assert!((factor(ReplaySpeed::RealTime).unwrap() - 1.0).abs() < f64::EPSILON);
    assert!((factor(ReplaySpeed::Fast).unwrap() - 10.0).abs() < f64::EPSILON);
    assert!((factor(ReplaySpeed::VeryFast).unwrap() - 100.0).abs() < f64::EPSILON);
    assert!(factor(ReplaySpeed::Max).is_none());
    assert!((factor(ReplaySpeed::Custom(50_000_000)).unwrap() - 50.0).abs() < f64::EPSILON);
}

#[test]
fn time_window_index() {
    let window = TimeWindow::one_second();
    assert_eq!(window.window_index(0), 0);
    assert_eq!(window.window_index(500_000_000), 0); // 0.5s
    assert_eq!(window.window_index(1_000_000_000), 1); // 1s
    assert_eq!(window.window_index(2_500_000_000), 2); // 2.5s
}

#[test]
fn replay_basic() {
    let policy = sample_policy();
    let corpus = sample_corpus();
    let replayer = Replayer::default();

    let result = replayer.replay(&policy, &corpus).unwrap();

    assert!(result.success);
    assert_eq!(result.total_traces, 5);
    // Errors (2) are always kept, others are sampled at 10%
    assert!(result.total_kept >= 2);
}

#[test]
fn replay_with_budget() {
    let policy = sample_policy();
    let corpus = sample_corpus();

    let config = ReplayConfig::new().with_window(TimeWindow::one_second()).with_budget(1); // Very low budget

    let replayer = Replayer::new(config);
    let result = replayer.replay(&policy, &corpus).unwrap();

    // With such a low budget, some windows should exceed it
    assert!(!result.windows.is_empty());
}

#[test]
fn replay_empty_corpus_fails() {
    let policy = sample_policy();
    let corpus = Corpus::new();
    let replayer = Replayer::default();

    let result = replayer.replay(&policy, &corpus);
    assert!(result.is_err());
}

#[test]
fn replay_time_range() {
    let policy = sample_policy();
    let corpus = sample_corpus();
    let replayer = Replayer::default();

    let result = replayer.replay(&policy, &corpus).unwrap();

    assert!(result.time_range.is_some());
    let range = result.time_range.unwrap();
    assert!(range.duration_ns > 0);
}

#[test]
fn replay_summary_stats() {
    let mut policy = Policy::new("test");
    policy.add_rule(Rule::new("keep-errors", "status >= 500", Action::Keep, 100));
    policy.add_rule(Rule::new("sample-normal", "true", Action::Sample(rate(0.1)), 0));
    let corpus = sample_corpus();
    let replayer = Replayer::default();

    let result = replayer.replay(&policy, &corpus).unwrap();

    assert!(result.summary.window_count > 0);
    assert!(result.summary.overall_sample_rate > 0);
    assert!(result.summary.overall_sample_rate <= 1_000_000);
}

#[test]
fn replay_window_aggregation() {
    let policy = sample_policy();
    let corpus = sample_corpus();

    let config = ReplayConfig::new().with_window(TimeWindow::one_minute());
    let replayer = Replayer::new(config);

    let result = replayer.replay(&policy, &corpus).unwrap();

    // With 1-minute windows, all traces (spanning ~2s) should be in one window
    assert_eq!(result.windows.len(), 1);
    assert_eq!(result.windows[0].trace_count, 5);
}

#[test]
fn replay_keeps_errors() {
    let mut policy = Policy::new("test");
    policy.add_rule(Rule::new("keep-errors", "status >= 500", Action::Keep, 100));
    policy.add_rule(Rule::new("drop-all", "true", Action::Drop, 0));

    let corpus = sample_corpus();
    let replayer = Replayer::default();

    let result = replayer.replay(&policy, &corpus).unwrap();

    // Only the 2 error traces should be kept
    assert_eq!(result.total_kept, 2);
    assert_eq!(result.total_errors, 2);
}

#[test]
fn deterministic_sampling() {
    let policy = sample_policy();
    let corpus = sample_corpus();
    let replayer = Replayer::default();

    // Run twice and verify same results
    let result1 = replayer.replay(&policy, &corpus).unwrap();
    let result2 = replayer.replay(&policy, &corpus).unwrap();

    assert_eq!(result1.total_kept, result2.total_kept);
    assert_eq!(result1.total_dropped, result2.total_dropped);
}

#[test]
fn round_trip_scenario() {
    let mut policy = Policy::new("round-trip");
    policy.add_rule(Rule::new("keep-errors", "status>=500", Action::Keep, 100));
    policy.add_rule(Rule::new("fallback", "true", Action::Sample(rate(0.01)), 0));
    let base_ns = 5_000_000_000u64;
    let corpus = Corpus::from_traces(vec![
        create_trace("a", base_ns, 200, false),
        create_trace("b", base_ns + 400_000_000, 500, true),
        create_trace("c", base_ns + 900_000_000, 200, false),
        create_trace("d", base_ns + 1_300_000_000, 500, true),
        create_trace("e", base_ns + 2_000_000_000, 404, false),
    ]);
    let config = ReplayConfig::new().with_window(TimeWindow::one_second());

    let result = Replayer::new(config).replay(&policy, &corpus).unwrap();

    assert_eq!(result.total_errors, 2);
    assert!(result.total_kept >= 2);
    assert_eq!(result.total_traces, 5);
    assert_eq!(result.total_kept + result.total_dropped, 5);
    let counts: Vec<(u64, usize, usize)> =
        result.windows.iter().map(|w| (w.index, w.trace_count, w.error_count)).collect();
    assert_eq!(counts, vec![(0, 3, 1), (1, 1, 1), (2, 1, 0)]);
    for window in &result.windows {
        assert!(window.kept_count >= window.error_count);
        assert_eq!(window.kept_count + window.dropped_count, window.trace_count);
    }
    let range = result.time_range.unwrap();
    assert_eq!(
        range,
        ReplayTimeRange {
            start_ns: base_ns,
            end_ns: base_ns + 2_000_000_000,
            duration_ns: 2_000_000_000,
            duration_str: "2s".to_string(),
        }
    );
}

#[test]
fn windows_and_summary_in_exact_numbers() {
    let mut policy = Policy::new("test");
    policy.add_rule(Rule::new("keep-errors", "status >= 500", Action::Keep, 100));
    policy.add_rule(Rule::new("drop-all", "true", Action::Drop, 0));
    let base_ns = 7_000_000_000u64;
    let corpus = Corpus::from_traces(vec![
        create_trace("late", base_ns + 3_500_000_000, 500, true),
        create_trace("e1", base_ns, 500, true),
        create_trace("e2", base_ns + 100, 500, true),
        create_trace("ok", base_ns + 200, 200, false),
        create_trace("e3", base_ns + 999_999_999, 503, true),
        Trace::new("no-spans").with_status(500),
    ]);
    let config = ReplayConfig::new().with_budget(2);

    let result = Replayer::new(config).replay(&policy, &corpus).unwrap();

    assert_eq!(
        result.windows,
        vec![
            ReplayWindow {
                index: 0,
                start_ns: 0,
                end_ns: 1_000_000_000,
                trace_count: 5,
                error_count: 4,
                kept_count: 4,
                dropped_count: 1,
                throughput: 4_000_000,
                exceeds_budget: true,
                over_budget_by: 2_000_000,
            },
            ReplayWindow {
                index: 3,
                start_ns: 3_000_000_000,
                end_ns: 4_000_000_000,
                trace_count: 1,
                error_count: 1,
                kept_count: 1,
                dropped_count: 0,
                throughput: 1_000_000,
                exceeds_budget: false,
                over_budget_by: 0,
            },
        ]
    );
    assert_eq!(result.violations, vec![result.windows[0]]);
    assert!(!result.is_compliant());
    assert_eq!(result.violation_count(), 1);
    assert_eq!(result.peak_throughput(), 4_000_000);
    assert_eq!((result.total_kept, result.total_dropped, result.total_errors), (5, 1, 5));
    let summary = result.summary;
    assert_eq!(summary.avg_throughput, 2_500_000);
    assert_eq!(summary.peak_throughput, 4_000_000);
    assert_eq!(summary.min_throughput, 1_000_000);
    assert_eq!(summary.throughput_std_dev, 1_500_000);
    assert_eq!(summary.overall_sample_rate, 833_333);
    assert_eq!(summary.error_rate, 833_333);
    assert_eq!(summary.window_count, 2);
    assert_eq!(summary.windows_over_budget, 1);
    assert_eq!(summary.percent_time_over_budget, 50_000_000);
}

#[test]
fn a_throughput_at_the_budget_is_no_violation() {
    let mut window = ReplayWindow::new(4, 500_000_000);
    assert_eq!((window.start_ns, window.end_ns), (2_000_000_000, 2_500_000_000));
    window.kept_count = 3;
    window.calculate_throughput(500_000_000);
    assert_eq!(window.throughput, 6_000_000);
    window.check_budget(Some(6));
    assert!(!window.exceeds_budget);
    window.check_budget(None);
    assert!(!window.exceeds_budget);
    window.check_budget(Some(5));
    assert!(window.exceeds_budget);
    assert_eq!(window.over_budget_by, 1_000_000);
    let far = ReplayWindow::new(u64::MAX, u64::MAX);
    assert_eq!(far.start_ns, u128::from(u64::MAX) * u128::from(u64::MAX));
    assert_eq!(far.end_ns, far.start_ns + u128::from(u64::MAX));
}

#[test]
fn sampling_decides_by_the_hash_of_the_identifier() {
    assert_eq!(simple_hash(""), 0);
    assert_eq!(simple_hash("a"), 97);
    assert_eq!(simple_hash("ab"), 97 * 31 + 98);
    assert_eq!(simple_hash("\u{e9}"), 0xC3 * 31 + 0xA9);
    let long = "x".repeat(40);
    let expected = long.bytes().fold(0u64, |h, b| h.wrapping_mul(31).wrapping_add(u64::from(b)));
    assert_eq!(simple_hash(&long), expected);

    let replayer = Replayer::default();
    let sampled = |ppm: u32, id: &str| {
        let mut policy = Policy::new("p");
        policy.add_rule(Rule::new("fallback", "true", Action::Sample(ppm), 0));
        replayer.should_keep_trace(&policy, &Trace::new(id))
    };
    // The hash of "a" is tiny against the highest hash.
    assert!(sampled(1, "a"));
    assert!(!sampled(0, "a"));
    // The hash of forty letters has wrapped; as a share it is fixed.
    let share = expected as f64 / u64::MAX as f64;
    assert_eq!(sampled(900_000, &long), share < 0.9);
    assert_eq!(sampled(100_000, &long), share < 0.1);
    assert!(sampled(1_000_000, &long));
}

#[test]
fn the_first_matching_rule_decides() {
    let replayer = Replayer::default();
    let mut policy = Policy::new("p");
    assert!(replayer.should_keep_trace(&policy, &Trace::new("t")));
    policy.add_rule(Rule::new("broken", "no operator", Action::Drop, 9));
    policy.add_rule(Rule::new("drop-api", "service == api", Action::Drop, 8));
    policy.add_rule(Rule::new("keep-api-errors", "service == api && status >= 500", Action::Keep, 7));
    let api_error = Trace::new("t").with_service("api").with_status(500);
    let other = Trace::new("t").with_service("web");
    assert!(!replayer.should_keep_trace(&policy, &api_error));
    // No rule matches: the trace is kept.
    assert!(replayer.should_keep_trace(&policy, &other));
    assert!(replayer.matches_rule("service == web", &other));
    assert!(!replayer.matches_rule("no operator", &other));
    assert!(replayer.matches_rule("TRUE", &other));
}

#[test]
fn durations_for_reading() {
    assert_eq!(format_duration(Duration::from_secs(0)), "0s");
    assert_eq!(format_duration(Duration::from_millis(59_999)), "59s");
    assert_eq!(format_duration(Duration::from_secs(60)), "1m 0s");
    assert_eq!(format_duration(Duration::from_secs(3_599)), "59m 59s");
    assert_eq!(format_duration(Duration::from_secs(3_600)), "1h 0m 0s");
    assert_eq!(format_duration(Duration::from_secs(90_061)), "25h 1m 1s");
    let range = ReplayTimeRange::new(10, 4);
    assert_eq!((range.duration_ns, range.duration_str.as_str()), (0, "0s"));
}

#[test]
fn time_windows_and_speeds() {
    assert_eq!(TimeWindow::one_second().duration_ns(), 1_000_000_000);
    assert_eq!(TimeWindow::one_minute().duration_ns(), 60_000_000_000);
    assert_eq!(TimeWindow::five_minutes().duration_ns(), 300_000_000_000);
    assert_eq!(TimeWindow::default(), TimeWindow::one_second());
    assert_eq!(TimeWindow::from_duration(Duration::from_millis(250)).duration_ns(), 250_000_000);
    assert_eq!(TimeWindow::five_minutes().duration(), Duration::from_secs(300));
    assert_eq!(TimeWindow::one_minute().window_index(u64::MAX), u64::MAX / 60_000_000_000);
    assert_eq!(ReplaySpeed::default(), ReplaySpeed::Max);
    assert_eq!(ReplaySpeed::Max.virtual_to_real(5_000), Duration::ZERO);
    assert_eq!(ReplaySpeed::Custom(0).virtual_to_real(5_000), Duration::ZERO);
    assert_eq!(ReplaySpeed::RealTime.virtual_to_real(5_000), Duration::from_nanos(5_000));
    assert_eq!(ReplaySpeed::Fast.virtual_to_real(5_005), Duration::from_nanos(500));
    assert_eq!(ReplaySpeed::Custom(500_000).virtual_to_real(7), Duration::from_nanos(14));
    assert_eq!(ReplaySpeed::Custom(1).virtual_to_real(u64::MAX), Duration::from_nanos(u64::MAX));
    let config = ReplayConfig::new().with_speed(ReplaySpeed::Fast);
    assert_eq!(config.speed, ReplaySpeed::Fast);
    assert_eq!(config.budget_per_second, None);
}

#[test]
fn defaults_are_empty() {
    assert_eq!(Replayer::default().config, ReplayConfig::default());
    let summary = nectar::replay::ReplaySummary::default();
    assert_eq!(summary.window_count, 0);
    assert_eq!(summary.peak_throughput, 0);
    assert_eq!(summary.percent_time_over_budget, 0);
    assert!(Corpus::default().is_empty());
    let pattern = nectar::traffic::TrafficPattern::default();
    assert!(pattern.is_empty());
    assert!(pattern.name.is_none());
    assert_eq!(pattern.stats(), nectar::traffic::TrafficStats::default());
    assert_eq!(
        nectar::reservoir::ReservoirStats::default(),
        nectar::reservoir::Reservoir::new(nectar::reservoir::ReservoirConfig::new(3)).stats()
    );
    let simulated = nectar::simulation::SimulationSummary::default();
    assert_eq!((simulated.total_points, simulated.total_kept, simulated.peak_kept_eps), (0, 0, 0));
    let coverage = nectar::analysis::CoverageAnalysis::default();
    assert_eq!(coverage, nectar::analysis::CoverageAnalysis::analyze(&Policy::new("none")));
    let results = nectar::harness::SimSummary::default();
    assert_eq!(results, nectar::harness::SimSummary::from_results(vec![]));
    let prompt = nectar::prompt::PromptBuilder::default();
    assert!(prompt.intent.is_none() && prompt.corpus.is_none() && prompt.current_policy.is_none());
}
