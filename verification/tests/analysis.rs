use nectar::analysis::{
    calculate_coverage_estimate, extract_fields, is_error_condition, AnalysisMode, Confidence,
    ConflictType, CoverageAnalysis, RuleConflict, StaticAnalyzer, StaticWarning,
};
use nectar::checks::{check_cardinality, check_error_handling, check_fallback, check_must_keep_coverage};
use nectar::corpus::Corpus;
use nectar::policy::{Action, Policy, Rule};
use nectar::result::{ProverResult, Severity, Status, Violation, Warning};
use nectar::trace::Trace;

fn rate(share: f64) -> u32 {
    (share * 1_000_000.0).round() as u32
}

fn sample_policy() -> Policy {
    let mut policy = Policy::new("test");
    policy.add_rule(Rule::new("keep-errors", "status >= 500", Action::Keep, 100));
    policy.add_rule(Rule::new("sample-normal", "true", Action::Sample(rate(0.1)), 0));
    policy
}

#[test]
fn analysis_mode_includes() {
    assert!(AnalysisMode::Static.includes_static());
    assert!(!AnalysisMode::Static.includes_dynamic());

    assert!(!AnalysisMode::Dynamic.includes_static());
    assert!(AnalysisMode::Dynamic.includes_dynamic());

    assert!(AnalysisMode::Auto.includes_static());
    assert!(AnalysisMode::Auto.includes_dynamic());
}

#[test]
fn coverage_analysis() {
    let policy = sample_policy();
    let coverage = CoverageAnalysis::analyze(&policy);

    assert_eq!(coverage.total_rules, 2);
    assert_eq!(coverage.keep_rules, 1);
    assert_eq!(coverage.sample_rules, 1);
    assert!(coverage.has_fallback);
    assert!(coverage.has_error_handling);
}

#[test]
fn static_analysis_passes() {
    let analyzer = StaticAnalyzer::new();
    let policy = sample_policy();

    let result = analyzer.analyze(&policy);

    assert!(result.passed);
    assert!(result.violations.is_empty());
    assert_eq!(result.confidence, Confidence::Medium);
}

#[test]
fn static_analysis_fails_without_fallback() {
    let analyzer = StaticAnalyzer::new();
    let mut policy = Policy::new("test");
    policy.add_rule(Rule::new("keep-errors", "status >= 500", Action::Keep, 100));

    let result = analyzer.analyze(&policy);

    assert!(!result.passed);
    assert!(result.violations.iter().any(|v| v.check == "missing-fallback"));
}

#[test]
fn detects_shadowed_rules() {
    let analyzer = StaticAnalyzer::new();
    let mut policy = Policy::new("test");
    policy.add_rule(Rule::new("catch-all", "true", Action::Keep, 100));
    policy.add_rule(Rule::new("errors", "status >= 500", Action::Keep, 50));

    let result = analyzer.analyze(&policy);

    assert!(!result.conflicts.is_empty());
    assert!(result.conflicts.iter().any(|c| c.conflict_type == ConflictType::Shadowed));
}

#[test]
fn confidence_ordering() {
    assert!(Confidence::Low < Confidence::Medium);
    assert!(Confidence::Medium < Confidence::High);
}

#[test]
fn empty_policy_fails() {
    let analyzer = StaticAnalyzer::new();
    let policy = Policy::new("empty");

    let result = analyzer.analyze(&policy);

    assert!(!result.passed);
    assert!(result.violations.iter().any(|v| v.check == "empty-policy"));
}

#[test]
fn shadowed_rule_is_named_in_conflict_and_warning() {
    let analyzer = StaticAnalyzer::new();
    let mut policy = Policy::new("test");
    policy.add_rule(Rule::new("catch-all", "true", Action::Keep, 100));
    policy.add_rule(Rule::new("errors", "status>=500", Action::Keep, 50));

    let result = analyzer.analyze(&policy);

    assert!(result.passed);
    assert_eq!(result.conflicts.len(), 1);
    let conflict = &result.conflicts[0];
    assert_eq!(conflict.conflict_type, ConflictType::Shadowed);
    assert_eq!(conflict.rule_a, "catch-all");
    assert_eq!(conflict.rule_b, "errors");
    assert_eq!(conflict.description, "Rule 'errors' is shadowed by an earlier rule");
    // "status>=500" without spaces is no error handling: one warning for
    // that, one for the conflict.
    assert_eq!(result.warnings.len(), 2);
    assert_eq!(result.warnings[0].rule_name, "policy");
    assert_eq!(result.warnings[0].message, "No explicit error handling detected");
    assert_eq!(
        result.warnings[0].suggestion.as_deref(),
        Some("Add a rule to keep error traces (e.g., status >= 500)")
    );
    assert_eq!(result.warnings[1].rule_name, "errors");
    assert_eq!(result.warnings[1].message, conflict.description);
    assert_eq!(result.warnings[1].suggestion, None);
}

#[test]
fn missing_fallback_is_reported_exactly_when_no_rule_is_the_literal_true() {
    let analyzer = StaticAnalyzer::new();
    for (texts, has_fallback) in [
        (vec![], false),
        (vec!["status >= 500"], false),
        (vec!["TRUE"], false),
        (vec!["true "], false),
        (vec!["status >= 500", "true"], true),
        (vec!["true"], true),
    ] {
        let mut policy = Policy::new("p");
        for (i, text) in texts.iter().enumerate() {
            policy.add_rule(Rule::new(&format!("r{i}"), text, Action::Keep, 0));
        }
        let result = analyzer.analyze(&policy);
        assert_eq!(result.passed, has_fallback, "{texts:?}");
        assert_eq!(
            result.violations.iter().any(|v| v.check == "missing-fallback"),
            !has_fallback,
            "{texts:?}"
        );
        assert_eq!(
            result.confidence,
            if has_fallback { Confidence::Medium } else { Confidence::Low }
        );
    }
}

#[test]
fn empty_policy_has_both_violations() {
    let result = StaticAnalyzer::new().analyze(&Policy::new("empty"));
    let expected = vec![
        Violation::new(
            Severity::Critical,
            "missing-fallback",
            "Policy must have a fallback rule matching 'true'",
        ),
        Violation::new(Severity::Critical, "empty-policy", "Policy has no rules"),
    ];
    assert_eq!(result.violations, expected);
    assert_eq!(result.coverage.estimated_coverage, 0);
    assert_eq!(result.coverage.total_rules, 0);
}

#[test]
fn overlaps_need_a_keep_and_a_drop() {
    let analyzer = StaticAnalyzer { check_shadowing: false, check_overlaps: true };
    let mut policy = Policy::new("test");
    policy.add_rule(Rule::new("keep-5xx", "status >= 500", Action::Keep, 100));
    policy.add_rule(Rule::new("drop-4xx", "status >= 400", Action::Drop, 90));
    policy.add_rule(Rule::new("sample-slow", "duration > 1s", Action::Sample(rate(0.5)), 80));
    policy.add_rule(Rule::new("drop-rest", "true", Action::Drop, 0));

    let result = analyzer.analyze(&policy);

    let pairs: Vec<(&str, &str)> =
        result.conflicts.iter().map(|c| (c.rule_a.as_str(), c.rule_b.as_str())).collect();
    assert_eq!(pairs, vec![("keep-5xx", "drop-4xx"), ("keep-5xx", "drop-rest")]);
    assert!(result.conflicts.iter().all(|c| c.conflict_type == ConflictType::Overlapping));
    assert_eq!(
        result.conflicts[0].description,
        "Rules 'keep-5xx' and 'drop-4xx' have overlapping conditions with contradictory actions"
    );
    // Conflicts are no violations.
    assert!(result.passed);

    let silent = StaticAnalyzer { check_shadowing: false, check_overlaps: false }.analyze(&policy);
    assert!(silent.conflicts.is_empty());
    let all = StaticAnalyzer::new().analyze(&policy);
    assert_eq!(all.conflicts.len(), 2);
}

#[test]
fn shadowing_needs_priority_not_lower() {
    let analyzer = StaticAnalyzer::new();
    let low = Rule::new("low", "true", Action::Keep, 1);
    let high = Rule::new("high", "status >= 500", Action::Keep, 9);
    let same = Rule::new("same", "status >= 500", Action::Drop, 9);
    assert!(!analyzer.rule_shadows(&low, &high));
    assert!(analyzer.rule_shadows(&high, &same));
    assert!(analyzer.rule_shadows(&same, &high));
    assert!(!analyzer.rule_shadows(&high, &low));
    assert!(analyzer.rule_shadows(&Rule::new("all", "true", Action::Keep, 9), &high));
}

#[test]
fn coverage_score_by_parts() {
    let score = |policy: &Policy| CoverageAnalysis::analyze(policy).estimated_coverage;
    assert_eq!(score(&Policy::new("empty")), 0);

    let mut policy = Policy::new("p");
    policy.add_rule(Rule::new("a", "service == api", Action::Keep, 5));
    assert_eq!(score(&policy), 30); // a rule and one kind of action
    policy.add_rule(Rule::new("b", "true", Action::Drop, 0));
    assert_eq!(score(&policy), 70); // fallback, second kind
    policy.add_rule(Rule::new("c", "Status >= 500", Action::Sample(rate(0.5)), 3));
    assert_eq!(score(&policy), 100); // error handling, third kind
    let coverage = CoverageAnalysis::analyze(&policy);
    assert_eq!(
        (coverage.keep_rules, coverage.drop_rules, coverage.sample_rules),
        (1, 1, 1)
    );
    assert_eq!(calculate_coverage_estimate(&coverage), 100);
}

#[test]
fn error_conditions_in_any_case() {
    assert!(is_error_condition("ERROR == true"));
    assert!(is_error_condition("Status >= 500"));
    assert!(is_error_condition("status >= 400"));
    assert!(is_error_condition("IS_ERROR"));
    assert!(is_error_condition("has Exception"));
    assert!(!is_error_condition("status >= 300"));
    assert!(!is_error_condition("status>=500"));
    assert!(!is_error_condition("true"));
    // Lower case by the rules of Unicode, not of ASCII alone.
    assert!(is_error_condition("\u{212A}eep || EXCEPTION"));
}

#[test]
fn fields_are_extracted_in_fixed_order() {
    assert_eq!(extract_fields("error && status >= 500"), vec!["status", "error"]);
    assert_eq!(extract_fields("service.name == x"), vec!["service", "name"]);
    assert!(extract_fields("true").is_empty());
    let analyzer = StaticAnalyzer::new();
    assert!(analyzer.conditions_overlap("true", "anything"));
    assert!(analyzer.conditions_overlap("anything", "true"));
    assert!(analyzer.conditions_overlap("duration > 1s", "duration < 5s"));
    assert!(!analyzer.conditions_overlap("duration > 1s", "status == 200"));
}

#[test]
fn warning_and_conflict_builders() {
    let warning = StaticWarning::new("rule", "message");
    assert_eq!((warning.rule_name.as_str(), warning.message.as_str()), ("rule", "message"));
    assert_eq!(warning.suggestion, None);
    assert_eq!(warning.with_suggestion("fix").suggestion.as_deref(), Some("fix"));
    let conflict = RuleConflict::overlapping("a", "b", "why");
    assert_eq!(conflict.conflict_type, ConflictType::Overlapping);
    assert_eq!(conflict.description, "why");
    let conflict = RuleConflict::shadowed("a", "b");
    assert_eq!((conflict.rule_a.as_str(), conflict.rule_b.as_str()), ("a", "b"));
    assert_eq!(Confidence::Low.description(), "heuristic analysis only");
    assert_eq!(Confidence::Medium.description(), "static analysis passed");
    assert_eq!(Confidence::High.description(), "dynamic simulation passed");
    assert_eq!(AnalysisMode::default(), AnalysisMode::Auto);
}

#[test]
fn check_fallback_passes_with_fallback() {
    let mut policy = Policy::new("test");
    policy.add_rule(Rule::new("fallback", "true", Action::Sample(rate(0.01)), 0));
    assert!(check_fallback(&policy).is_none());
}

#[test]
fn check_fallback_fails_without_fallback() {
    let mut policy = Policy::new("test");
    policy.add_rule(Rule::new("errors", "error", Action::Keep, 100));
    assert!(check_fallback(&policy).is_some());
}

#[test]
fn check_error_handling_rejects_drop_all() {
    let mut policy = Policy::new("test");
    policy.add_rule(Rule::new("drop-all", "true", Action::Drop, 0));
    assert!(check_error_handling(&policy).is_some());
}

#[test]
fn checks_report_what_failed() {
    let mut policy = Policy::new("test");
    policy.add_rule(Rule::new("keep-slow", "duration > 1s", Action::Keep, 9));
    policy.add_rule(Rule::new("drop-4xx", "status >= 400", Action::Drop, 5));
    policy.add_rule(Rule::new("drop-rest", "true", Action::Drop, 0));
    // A rule that speaks of a status of errors is error handling.
    assert_eq!(check_error_handling(&policy), None);
    let mut unhandled = Policy::new("unhandled");
    unhandled.add_rule(Rule::new("keep-slow", "duration > 1s", Action::Keep, 9));
    unhandled.add_rule(Rule::new("sample-rest", "true", Action::Sample(rate(0.1)), 0));
    assert_eq!(
        check_error_handling(&unhandled),
        Some(Violation::critical(
            "error-handling",
            "Policy has no rule that handles errors. Add a rule for errors, such as status >= 500."
        ))
    );
    assert!(check_error_handling(&Policy::new("empty")).is_some());
    for expr in ["error", "status >= 500", "status >= 400", "is_error", "exception", "has EXCEPTION"] {
        let mut handled = Policy::new("handled");
        handled.add_rule(Rule::new("r", expr, Action::Drop, 1));
        assert_eq!(check_error_handling(&handled), None, "{expr}");
    }
    for expr in ["status >= 300", "status > 500", "true", "duration > 1s"] {
        let mut other = Policy::new("other");
        other.add_rule(Rule::new("r", expr, Action::Keep, 1));
        assert!(check_error_handling(&other).is_some(), "{expr}");
    }
    assert_eq!(
        check_fallback(&Policy::new("none")),
        Some(Violation::critical(
            "fallback-rule",
            "Policy has no fallback rule (match: true). Unmatched traces will be dropped."
        ))
    );
    let corpus = Corpus::from_traces(vec![
        Trace::new("a").with_status(500),
        Trace::new("b").with_status(200),
        Trace::new("c").with_status(502),
    ]);
    assert_eq!(
        check_must_keep_coverage(&policy, &corpus),
        Err(Violation::critical(
            "must-keep-coverage",
            "Policy may drop 2 error traces. Add a rule to keep errors."
        ))
    );
    assert_eq!(check_must_keep_coverage(&policy, &Corpus::new()), Ok(()));
    policy.add_rule(Rule::new("keep-errors", "is_error == true", Action::Keep, 99));
    assert_eq!(check_must_keep_coverage(&policy, &corpus), Ok(()));
    assert_eq!(check_cardinality(&policy, &corpus), None);
    let mut sampled = Policy::new("sampled");
    sampled.add_rule(Rule::new("s", "status >= 500", Action::Sample(rate(0.5)), 1));
    assert_eq!(check_error_handling(&sampled), None);
    assert!(check_must_keep_coverage(&sampled, &corpus).is_err());
}

#[test]
fn approved_result_is_approved() {
    let result = ProverResult::approved(4);
    assert!(result.is_approved());
    assert!(!result.is_rejected());
}

#[test]
fn rejected_result_is_rejected() {
    let violations = vec![Violation::critical("test", "failed")];
    let result = ProverResult::rejected(violations, 2, 4);
    assert!(result.is_rejected());
    assert!(!result.is_approved());
}

#[test]
fn warning_changes_status() {
    let mut result = ProverResult::approved(4);
    result.add_warning(Warning::new("cardinality", "high cardinality key"));
    assert_eq!(result.status, Status::ApprovedWithWarnings);
    assert!(result.is_approved());
}

#[test]
fn warning_leaves_a_rejection_rejected() {
    let mut result = ProverResult::rejected(vec![Violation::critical("c", "m")], 3, 4);
    result.add_warning(Warning::new("w", "m"));
    result.add_warning(Warning::new("w2", "m2"));
    assert_eq!(result.status, Status::Rejected);
    assert_eq!(result.warnings.len(), 2);
    assert_eq!(result.warnings[1].check, "w2");
    assert_eq!(result.warnings[0].severity, Severity::Warning);
    assert_eq!((result.checks_passed, result.checks_total), (3, 4));
    let approved = ProverResult::approved(4);
    assert_eq!((approved.checks_passed, approved.checks_total), (4, 4));
    assert_eq!(Severity::Critical.label(), "CRITICAL");
    assert_eq!(Severity::Warning.label(), "WARNING");
    assert_eq!(Severity::Info.label(), "INFO");
}

#[test]
fn error_conditions_in_any_case_of_letters() {
    use_lowering();
}

fn use_lowering() {
    assert!(nectar::analysis::is_error_condition("STATUS >= 500"));
    assert!(nectar::analysis::is_error_condition("Is_Error == true"));
    assert!(!nectar::analysis::is_error_condition("true"));
    assert!(!nectar::analysis::is_error_condition("TRUE"));
    assert!(!nectar::analysis::is_error_condition("status >= 300"));
    // Texts with other letters than those of ASCII are lower-cased too.
    assert!(nectar::analysis::is_error_condition("café.ERROR == 1"));
    assert!(nectar::analysis::is_error_condition("Ünit EXCEPTION"));
    assert!(!nectar::analysis::is_error_condition("Ünit == 1"));
    assert_eq!(nectar::text::lower("Status >= 500 [A-Z]"), "status >= 500 [a-z]");
    assert_eq!(nectar::text::lower("ÄÖÜ Straße"), "äöü straße");
    assert_eq!(nectar::text::lower(""), "");
}
