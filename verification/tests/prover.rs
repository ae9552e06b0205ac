use nectar::analysis::{AnalysisMode, Confidence};
use nectar::corpus::Corpus;
use nectar::error::Error;
use nectar::policy::{Action, Policy, Rule};
use nectar::prover::{determine_confidence, Prover, ProverConfig};
use nectar::result::Status;
use nectar::trace::Trace;
use nectar::traffic::{TrafficPattern, TrafficPoint};

fn rate(share: f64) -> u32 {
    (share * 1_000_000.0).round() as u32
}

/// 2024-01-15 09:00:00 UTC in milliseconds since the Unix epoch.
const BASE_MS: i64 = 1_705_309_200_000;

fn valid_policy() -> Policy {
    let mut policy = Policy::new("test");
    policy.add_rule(Rule::new("keep-errors", "status >= 500", Action::Keep, 100));
    policy.add_rule(Rule::new("fallback", "true", Action::Sample(rate(0.01)), 0));
    policy
}

#[test]
fn verify_valid_policy() {
    let prover = Prover::default();
    let policy = valid_policy();
    let corpus = Corpus::new();

    let result = prover.verify(&policy, &corpus).unwrap();
    assert!(result.is_approved());
}

#[test]
fn verify_empty_policy_fails() {
    let prover = Prover::default();
    let policy = Policy::new("empty");
    let corpus = Corpus::new();

    let result = prover.verify(&policy, &corpus);
    assert!(result.is_err());
}

#[test]
fn verify_policy_without_fallback() {
    let prover = Prover::default();
    let mut policy = Policy::new("no-fallback");
    policy.add_rule(Rule::new("errors", "error", Action::Keep, 100));
    let corpus = Corpus::new();

    let result = prover.verify(&policy, &corpus).unwrap();
    assert!(result.is_rejected());
}

#[test]
fn analyze_static_mode() {
    let config = ProverConfig { analysis_mode: AnalysisMode::Static, ..Default::default() };
    let prover = Prover::new(config);
    let policy = valid_policy();
    let corpus = Corpus::new();

    let result = prover.analyze(&policy, &corpus, None).unwrap();

    assert!(result.is_approved());
    assert!(result.static_result.is_some());
    assert!(result.simulation_result.is_none());
    assert_eq!(result.confidence, Confidence::Medium);
}

#[test]
fn analyze_dynamic_mode_without_traffic() {
    let config = ProverConfig { analysis_mode: AnalysisMode::Dynamic, ..Default::default() };
    let prover = Prover::new(config);
    let policy = valid_policy();
    let corpus = Corpus::new();

    let result = prover.analyze(&policy, &corpus, None).unwrap();

    assert!(result.is_approved());
    assert!(result.static_result.is_none());
    assert!(result.simulation_result.is_none());
    // Low confidence because no simulation without traffic
    assert_eq!(result.confidence, Confidence::Low);
}

#[test]
fn analyze_auto_mode() {
    let config = ProverConfig { analysis_mode: AnalysisMode::Auto, ..Default::default() };
    let prover = Prover::new(config);
    let policy = valid_policy();
    let corpus = Corpus::new();

    let result = prover.analyze(&policy, &corpus, None).unwrap();

    assert!(result.is_approved());
    assert!(result.static_result.is_some());
    // No traffic provided, so no simulation
    assert!(result.simulation_result.is_none());
    assert_eq!(result.confidence, Confidence::Medium);
}

#[test]
fn analyze_with_traffic_gives_high_confidence() {
    let config = ProverConfig {
        analysis_mode: AnalysisMode::Auto,
        max_budget: Some(100_000),
        ..Default::default()
    };
    let prover = Prover::new(config);
    let policy = valid_policy();
    let corpus = Corpus::new();

    let traffic = TrafficPattern::from_points(vec![
        TrafficPoint::new(BASE_MS, 5000),
        TrafficPoint::new(BASE_MS + 60_000, 6000),
    ]);

    let result = prover.analyze(&policy, &corpus, Some(&traffic)).unwrap();

    assert!(result.is_approved());
    assert!(result.static_result.is_some());
    assert!(result.simulation_result.is_some());
    assert!(result.simulation_compliant());
    assert_eq!(result.confidence, Confidence::High);
}

#[test]
fn analyze_all_passed() {
    let prover = Prover::default();
    let policy = valid_policy();
    let corpus = Corpus::new();

    let result = prover.analyze(&policy, &corpus, None).unwrap();

    assert!(result.all_passed());
}

#[test]
fn static_analysis_on_valid_policy() {
    let prover = Prover::default();
    let policy = valid_policy();

    let result = prover.analyze_static(&policy);

    assert!(result.passed);
    assert!(result.coverage.has_fallback);
    assert!(result.coverage.has_error_handling);
}

#[test]
fn fatal_conditions_say_which_precondition_failed() {
    let prover = Prover::default();
    let error = prover.verify(&Policy::new("empty"), &Corpus::new()).unwrap_err();
    assert_eq!(error, Error::InvalidPolicy("policy has no rules".to_string()));
    assert_eq!(error.message(), "invalid policy: policy has no rules");

    let error = prover.simulate_traffic(&valid_policy(), &TrafficPattern::new()).unwrap_err();
    assert_eq!(error, Error::InvalidTraffic("traffic pattern is empty".to_string()));
    assert_eq!(error.message(), "invalid traffic pattern: traffic pattern is empty");

    let error = prover.replay_corpus_default(&valid_policy(), &Corpus::new()).unwrap_err();
    assert_eq!(error, Error::InvalidCorpus("corpus is empty".to_string()));
    assert_eq!(error.message(), "invalid corpus: corpus is empty");

    // The policy is held against before the traffic.
    let empty = TrafficPattern::new();
    let error = prover.analyze(&Policy::new("empty"), &Corpus::new(), Some(&empty)).unwrap_err();
    assert_eq!(error, Error::InvalidPolicy("policy has no rules".to_string()));
    let error = prover.analyze(&valid_policy(), &Corpus::new(), Some(&empty)).unwrap_err();
    assert_eq!(error, Error::InvalidTraffic("traffic pattern is empty".to_string()));
    // The static mode simulates nothing, so empty traffic is no error there.
    let config = ProverConfig { analysis_mode: AnalysisMode::Static, ..Default::default() };
    assert!(Prover::new(config).analyze(&valid_policy(), &Corpus::new(), Some(&empty)).is_ok());

    assert_eq!(Error::SimulationError("x".to_string()).message(), "simulation error: x");
    assert_eq!(Error::Internal("x".to_string()).message(), "prover error: x");
    assert_eq!(Error::Unsupported("x".to_string()).message(), "unsupported construct: x");
}

#[test]
fn verification_counts_the_four_checks() {
    let mut policy = Policy::new("risky");
    policy.budget_per_second = Some(5_000);
    policy.add_rule(Rule::new("drop-slow", "duration > 1s", Action::Drop, 5));
    let corpus = Corpus::from_traces(vec![Trace::new("e").with_status(500)]);
    let config = ProverConfig {
        max_budget: Some(1_000),
        require_error_handling: true,
        analysis_mode: AnalysisMode::Auto,
    };

    let result = Prover::new(config).verify(&policy, &corpus).unwrap();

    assert_eq!(result.status, Status::Rejected);
    assert_eq!((result.checks_passed, result.checks_total), (0, 4));
    let checks: Vec<&str> = result.violations.iter().map(|v| v.check.as_str()).collect();
    assert_eq!(
        checks,
        vec!["fallback-rule", "error-handling", "must-keep-coverage", "budget-compliance"]
    );
    assert_eq!(result.violations[3].message, "Policy budget 5000 exceeds maximum 1000");

    // Without the requirement the error-handling check counts as passed.
    let lenient = ProverConfig { require_error_handling: false, ..config };
    let result = Prover::new(lenient).verify(&policy, &corpus).unwrap();
    assert_eq!((result.checks_passed, result.checks_total), (1, 4));

    // A budget at the maximum passes.
    policy.budget_per_second = Some(1_000);
    let result = Prover::new(lenient).verify(&policy, &corpus).unwrap();
    assert_eq!(result.checks_passed, 2);

    let approved = Prover::default().verify(&valid_policy(), &corpus).unwrap();
    assert_eq!(approved.status, Status::Approved);
    assert_eq!((approved.checks_passed, approved.checks_total), (4, 4));
}

#[test]
fn confidence_follows_simulation_then_static_analysis() {
    let prover = Prover::new(ProverConfig { max_budget: Some(10), ..Default::default() });
    let policy = valid_policy();
    let traffic = TrafficPattern::from_points(vec![TrafficPoint::new(BASE_MS, 50_000)]);

    // The simulation violates the budget: the static analysis decides.
    let result = prover.analyze(&policy, &Corpus::new(), Some(&traffic)).unwrap();
    assert!(!result.simulation_compliant());
    assert!(!result.all_passed());
    assert_eq!(result.confidence, Confidence::Medium);

    let dynamic = Prover::new(ProverConfig {
        max_budget: Some(10),
        analysis_mode: AnalysisMode::Dynamic,
        ..Default::default()
    });
    let result = dynamic.analyze(&policy, &Corpus::new(), Some(&traffic)).unwrap();
    assert_eq!(result.confidence, Confidence::Low);
    assert_eq!(result.mode, AnalysisMode::Dynamic);

    let static_result = prover.analyze_static(&policy);
    assert_eq!(determine_confidence(Some(&static_result), None), Confidence::Medium);
    assert_eq!(determine_confidence(None, None), Confidence::Low);
    assert_eq!(prover.analysis_mode(), AnalysisMode::Auto);

    let (verdict, simulation) =
        prover.verify_with_traffic(&policy, &Corpus::new(), &traffic).unwrap();
    assert!(verdict.is_approved());
    assert_eq!(simulation.violation_count(), 1);
}

#[test]
fn replay_with_budget_marks_the_crowded_second() {
    let mut policy = Policy::new("keep-all");
    policy.add_rule(Rule::new("everything", "true", Action::Keep, 0));

    let base_ns = 1_000_000_000_000u64;
    let starts = [0u64, 100_000_000, 200_000_000, 1_500_000_000];
    let mut traces = Vec::new();
    for (i, offset) in starts.iter().enumerate() {
        let span = nectar::span::Span::new(&format!("s{i}"), "operation")
            .with_start_time_ns(base_ns + offset);
        traces.push(Trace::from_spans(&format!("t{i}"), vec![span]));
    }
    let corpus = Corpus::from_traces(traces);

    let result = Prover::default().replay_corpus_with_budget(&policy, &corpus, 2).unwrap();
    assert_eq!(result.total_traces, 4);
    assert_eq!(result.total_kept, 4);
    assert_eq!(result.total_dropped, 0);
    assert_eq!(result.windows.len(), 2);
    assert_eq!(result.windows[0].kept_count, 3);
    assert!(result.windows[0].exceeds_budget);
    assert_eq!(result.windows[1].kept_count, 1);
    assert!(!result.windows[1].exceeds_budget);
    assert_eq!(result.summary.windows_over_budget, 1);
    assert_eq!(result.summary.percent_time_over_budget, 50_000_000);

    // With room for three a second nothing is over.
    let roomy = Prover::default().replay_corpus_with_budget(&policy, &corpus, 3).unwrap();
    assert_eq!(roomy.summary.windows_over_budget, 0);
}

#[test]
fn error_handling_is_required_of_a_sampled_fallback() {
    let strict = Prover::new(ProverConfig { require_error_handling: true, ..Default::default() });
    let mut policy = Policy::new("sampled");
    policy.add_rule(Rule::new("fallback", "true", Action::Sample(rate(0.1)), 0));

    let result = strict.verify(&policy, &Corpus::new()).unwrap();
    assert!(result.is_rejected());
    assert_eq!((result.checks_passed, result.checks_total), (3, 4));
    assert_eq!(result.violations.len(), 1);
    assert_eq!(result.violations[0].check, "error-handling");
    assert_eq!(result.violations[0].severity, nectar::result::Severity::Critical);

    // Without the requirement the same policy is approved.
    let result = Prover::default().verify(&policy, &Corpus::new()).unwrap();
    assert!(result.is_approved());
    assert_eq!((result.checks_passed, result.checks_total), (4, 4));

    // A rule for errors, whatever it does with them, meets the requirement.
    policy.add_rule(Rule::new("errors", "status >= 500", Action::Keep, 100));
    let result = strict.verify(&policy, &Corpus::new()).unwrap();
    assert!(result.is_approved());
    assert_eq!((result.checks_passed, result.checks_total), (4, 4));
}
