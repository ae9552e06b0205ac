use nectar::policy::{Action, Policy, Rule};

fn rate(share: f64) -> u32 {
    (share * 1_000_000.0).round() as u32
}

fn share(rate: u32) -> f64 {
    f64::from(rate) / 1_000_000.0
}

#[test]
fn policy_sorts_rules_by_priority() {
    let mut policy = Policy::new("test");
    policy.add_rule(Rule::new("low", "true", Action::Sample(rate(0.01)), 10));
    policy.add_rule(Rule::new("high", "error", Action::Keep, 100));
    policy.add_rule(Rule::new("mid", "slow", Action::Keep, 50));

    assert_eq!(policy.rules[0].name, "high");
    assert_eq!(policy.rules[1].name, "mid");
    assert_eq!(policy.rules[2].name, "low");
}

#[test]
fn action_effective_rate() {
    assert!((share(Action::Keep.effective_rate()) - 1.0).abs() < f64::EPSILON);
    assert!((share(Action::Drop.effective_rate()) - 0.0).abs() < f64::EPSILON);
    assert!((share(Action::Sample(rate(0.5)).effective_rate()) - 0.5).abs() < f64::EPSILON);
}

#[test]
fn equal_priorities_keep_insertion_order() {
    let mut policy = Policy::new("ties");
    policy.add_rule(Rule::new("first", "a == 1", Action::Keep, 50));
    policy.add_rule(Rule::new("second", "b == 2", Action::Drop, 50));
    policy.add_rule(Rule::new("top", "c == 3", Action::Keep, 255));
    policy.add_rule(Rule::new("third", "d == 4", Action::Keep, 50));
    policy.add_rule(Rule::new("bottom", "true", Action::Drop, 0));

    let names: Vec<&str> = policy.rules.iter().map(|r| r.name.as_str()).collect();
    assert_eq!(names, vec!["top", "first", "second", "third", "bottom"]);
}

#[test]
fn add_rule_sorts_rules_that_were_out_of_order() {
    let mut policy = Policy::new("manual");
    policy.rules.push(Rule::new("low", "a == 1", Action::Keep, 1));
    policy.rules.push(Rule::new("high", "b == 2", Action::Keep, 9));
    policy.add_rule(Rule::new("mid", "c == 3", Action::Keep, 5));

    let names: Vec<&str> = policy.rules.iter().map(|r| r.name.as_str()).collect();
    assert_eq!(names, vec!["high", "mid", "low"]);
}

#[test]
fn new_policy_is_empty_version_one() {
    let policy = Policy::new("fresh");
    assert_eq!(policy.version, 1);
    assert_eq!(policy.name, "fresh");
    assert_eq!(policy.budget_per_second, None);
    assert!(policy.rules.is_empty());
    assert!(!policy.has_fallback());
}

#[test]
fn fallback_is_the_literal_true_only() {
    let mut policy = Policy::new("p");
    policy.add_rule(Rule::new("upper", "TRUE", Action::Keep, 1));
    policy.add_rule(Rule::new("spaced", " true", Action::Keep, 1));
    assert!(!policy.has_fallback());
    policy.add_rule(Rule::new("fallback", "true", Action::Drop, 0));
    assert!(policy.has_fallback());
}

#[test]
fn rule_with_description_keeps_the_rest() {
    let rule = Rule::new("r", "status >= 500", Action::Keep, 7).with_description("keeps errors");
    assert_eq!(rule.description.as_deref(), Some("keeps errors"));
    assert_eq!(rule.name, "r");
    assert_eq!(rule.match_expr, "status >= 500");
    assert_eq!(rule.action, Action::Keep);
    assert_eq!(rule.priority, 7);
}
