//! Static analysis: checks on the rules alone, without traffic.

use vstd::prelude::*;
use vstd::string::StringExecFns;
use crate::policy::{some_fallback, Action, Policy, Rule};
use crate::result::{findings_of, Finding, Severity, Violation};
use crate::text::{
    has_substring, is_ascii_text, lower, lowered, str_contains, str_eq,
};

verus! {

/// How a policy is analysed.
#[derive(Debug, Clone, Copy, PartialEq, Eq, Structural)]
pub enum AnalysisMode {
    /// Rule analysis only.
    Static,
    /// Traffic simulation only; needs a traffic pattern.
    Dynamic,
    /// Both, where possible.
    Auto,
}

impl AnalysisMode {
    /// Whether this mode runs the static analysis.
    pub fn includes_static(&self) -> (r: bool)
        ensures
            r == (*self == AnalysisMode::Static || *self == AnalysisMode::Auto),
    {
        match self {
            AnalysisMode::Static => true,
            AnalysisMode::Auto => true,
            AnalysisMode::Dynamic => false,
        }
    }

    /// Whether this mode runs the dynamic simulation.
    pub fn includes_dynamic(&self) -> (r: bool)
        ensures
            r == (*self == AnalysisMode::Dynamic || *self == AnalysisMode::Auto),
    {
        match self {
            AnalysisMode::Dynamic => true,
            AnalysisMode::Auto => true,
            AnalysisMode::Static => false,
        }
    }
}

impl Default for AnalysisMode {
    fn default() -> (m: Self)
        ensures
            m == AnalysisMode::Auto,
    {
        AnalysisMode::Auto
    }
}

/// How strongly a verdict was validated.
#[derive(Debug, Clone, Copy, PartialEq, Eq, PartialOrd, Ord, Structural)]
pub enum Confidence {
    /// Based on heuristics only.
    Low,
    /// Static analysis passed.
    Medium,
    /// Dynamic simulation passed.
    High,
}

impl Confidence {
    /// The rank of the level: higher is stronger.
    pub open spec fn rank(self) -> nat {
        match self {
            Confidence::Low => 0,
            Confidence::Medium => 1,
            Confidence::High => 2,
        }
    }

    /// A human-readable description of the level.
    pub fn description(&self) -> (s: &'static str)
        ensures
            s@ == match self {
                Confidence::Low => "heuristic analysis only"@,
                Confidence::Medium => "static analysis passed"@,
                Confidence::High => "dynamic simulation passed"@,
            },
    {
        match self {
            Confidence::Low => "heuristic analysis only",
            Confidence::Medium => "static analysis passed",
            Confidence::High => "dynamic simulation passed",
        }
    }
}

/// A warning of the static analysis, by what it says.
pub struct WarningText {
    pub rule_name: Seq<char>,
    pub message: Seq<char>,
    pub suggestion: Option<Seq<char>>,
}

/// Warning from static analysis.
#[derive(Debug, Clone)]
pub struct StaticWarning {
    /// Rule that the warning is about.
    pub rule_name: String,
    /// Warning message.
    pub message: String,
    /// Suggested fix.
    pub suggestion: Option<String>,
}

impl View for StaticWarning {
    type V = WarningText;

    open spec fn view(&self) -> WarningText {
        WarningText {
            rule_name: self.rule_name@,
            message: self.message@,
            suggestion: match self.suggestion {
                Some(s) => Some(s@),
                None => None,
            },
        }
    }
}

impl StaticWarning {
    /// Creates a warning without a suggestion.
    pub fn new(rule_name: &str, message: &str) -> (w: Self)
        ensures
            w@ == (WarningText { rule_name: rule_name@, message: message@, suggestion: None }),
    {
        StaticWarning { rule_name: rule_name.to_owned(), message: message.to_owned(), suggestion: None }
    }

    /// Sets the suggestion.
    pub fn with_suggestion(self, suggestion: &str) -> (w: Self)
        ensures
            w@ == (WarningText { suggestion: Some(suggestion@), ..self@ }),
    {
        let mut warning = self;
        warning.suggestion = Some(suggestion.to_owned());
        warning
    }
}

/// Kinds of rule conflicts.
#[derive(Debug, Clone, Copy, PartialEq, Eq, Structural)]
pub enum ConflictType {
    /// A rule is unreachable because of an earlier rule.
    Shadowed,
    /// Rules have overlapping conditions with different actions.
    Overlapping,
    /// A rule contradicts the intent of another.
    Contradictory,
}

/// A conflict, by what it says.
pub struct ConflictText {
    pub rule_a: Seq<char>,
    pub rule_b: Seq<char>,
    pub conflict_type: ConflictType,
    pub description: Seq<char>,
}

/// A conflict between two rules.
#[derive(Debug, Clone)]
pub struct RuleConflict {
    /// First rule in conflict.
    pub rule_a: String,
    /// Second rule in conflict.
    pub rule_b: String,
    /// Kind of conflict.
    pub conflict_type: ConflictType,
    /// Description of the conflict.
    pub description: String,
}

impl View for RuleConflict {
    type V = ConflictText;

    open spec fn view(&self) -> ConflictText {
        ConflictText {
            rule_a: self.rule_a@,
            rule_b: self.rule_b@,
            conflict_type: self.conflict_type,
            description: self.description@,
        }
    }
}

/// The conflict of a rule `rule_b` that an earlier rule `rule_a` shadows.
pub open spec fn shadowed_text(rule_a: Seq<char>, rule_b: Seq<char>) -> ConflictText {
    ConflictText {
        rule_a,
        rule_b,
        conflict_type: ConflictType::Shadowed,
        description: "Rule '"@ + rule_b + "' is shadowed by an earlier rule"@,
    }
}

/// The conflict of two rules that overlap with contradictory actions.
pub open spec fn overlap_text(rule_a: Seq<char>, rule_b: Seq<char>) -> ConflictText {
    ConflictText {
        rule_a,
        rule_b,
        conflict_type: ConflictType::Overlapping,
        description: "Rules '"@ + rule_a + "' and '"@ + rule_b
            + "' have overlapping conditions with contradictory actions"@,
    }
}

impl RuleConflict {
    /// Creates a shadowed conflict.
    pub fn shadowed(rule_a: &str, rule_b: &str) -> (c: Self)
        ensures
            c@ == shadowed_text(rule_a@, rule_b@),
    {
        let mut description = String::new();
        description.append("Rule '");
        description.append(rule_b);
        description.append("' is shadowed by an earlier rule");
        assert(description@ == shadowed_text(rule_a@, rule_b@).description);
        RuleConflict {
            rule_a: rule_a.to_owned(),
            rule_b: rule_b.to_owned(),
            conflict_type: ConflictType::Shadowed,
            description,
        }
    }

    /// Creates an overlapping conflict.
    pub fn overlapping(rule_a: &str, rule_b: &str, description: &str) -> (c: Self)
        ensures
            c@ == (ConflictText {
                rule_a: rule_a@,
                rule_b: rule_b@,
                conflict_type: ConflictType::Overlapping,
                description: description@,
            }),
    {
        RuleConflict {
            rule_a: rule_a.to_owned(),
            rule_b: rule_b.to_owned(),
            conflict_type: ConflictType::Overlapping,
            description: description.to_owned(),
        }
    }
}

/// Whether a lower-case match text speaks of errors.
pub open spec fn speaks_of_errors(lower: Seq<char>) -> bool {
    ||| has_substring(lower, "error"@)
    ||| has_substring(lower, "status >= 500"@)
    ||| has_substring(lower, "status >= 400"@)
    ||| has_substring(lower, "is_error"@)
    ||| has_substring(lower, "exception"@)
}

/// Whether a lower-case match text speaks of errors.
pub fn mentions_errors(lower: &str) -> (r: bool)
    ensures
        r == speaks_of_errors(lower@),
{
    str_contains(lower, "error") || str_contains(lower, "status >= 500") || str_contains(
        lower,
        "status >= 400",
    ) || str_contains(lower, "is_error") || str_contains(lower, "exception")
}

/// Whether a match expression is an error condition: in any case of
/// letters it speaks of `error`, `status >= 500`, `status >= 400`,
/// `is_error` or `exception`.
pub fn is_error_condition(expr: &str) -> (r: bool)
    ensures
        r == speaks_of_errors(lowered(expr@)),
{
    let text = lower(expr);
    mentions_errors(text.as_str())
}

/// Whether a rule handles errors.
pub open spec fn handles_errors(rule: Rule) -> bool {
    speaks_of_errors(lowered(rule.match_expr@))
}

/// A rule that matches everything is no error handling: the text `true`
/// speaks of no error.
pub proof fn the_fallback_handles_no_errors(rule: Rule)
    requires
        rule.is_fallback(),
    ensures
        !handles_errors(rule),
{
    reveal_strlit("true");
    reveal_strlit("error");
    reveal_strlit("status >= 500");
    reveal_strlit("status >= 400");
    reveal_strlit("is_error");
    reveal_strlit("exception");
    let text = rule.match_expr@;
    assert(text.len() == 4);
    assert(is_ascii_text(text));
    assert(lowered(text).len() == 4);
}

/// The number of rules among the first `n` that `pick` holds of.
pub open spec fn count_rules(rules: Seq<Rule>, pick: spec_fn(Rule) -> bool, n: nat) -> nat
    decreases n,
{
    if n == 0 || n > rules.len() {
        0
    } else {
        count_rules(rules, pick, (n - 1) as nat) + if pick(rules[n - 1]) {
            1nat
        } else {
            0nat
        }
    }
}

/// Whether some rule handles errors.
pub open spec fn some_error_handling(rules: Seq<Rule>) -> bool {
    exists|i: int| 0 <= i < rules.len() && handles_errors(#[trigger] rules[i])
}

/// The coverage score out of 100: 20 for having any rule, 30 for a
/// fallback, 20 for error handling, 10 for each kind of action in use.
pub open spec fn coverage_score(
    total_rules: nat,
    keep_rules: nat,
    drop_rules: nat,
    sample_rules: nat,
    has_fallback: bool,
    has_error_handling: bool,
) -> nat {
    let score = (if total_rules > 0 {
        20nat
    } else {
        0nat
    }) + (if has_fallback {
        30nat
    } else {
        0nat
    }) + (if has_error_handling {
        20nat
    } else {
        0nat
    }) + (if keep_rules > 0 {
        10nat
    } else {
        0nat
    }) + (if drop_rules > 0 {
        10nat
    } else {
        0nat
    }) + (if sample_rules > 0 {
        10nat
    } else {
        0nat
    });
    if score > 100 {
        100
    } else {
        score
    }
}

/// Coverage analysis of a policy.
#[derive(Debug, Clone, Copy, PartialEq, Eq, Structural)]
pub struct CoverageAnalysis {
    /// Number of rules.
    pub total_rules: usize,
    /// Number of rules that keep.
    pub keep_rules: usize,
    /// Number of rules that drop.
    pub drop_rules: usize,
    /// Number of rules that sample.
    pub sample_rules: usize,
    /// Whether a fallback rule exists.
    pub has_fallback: bool,
    /// Whether error handling exists.
    pub has_error_handling: bool,
    /// Coverage score, 0 to 100.
    pub estimated_coverage: u32,
}

/// The coverage of a list of rules.
pub open spec fn coverage_of(rules: Seq<Rule>) -> CoverageAnalysis {
    let n = rules.len();
    let keep = count_rules(rules, |r: Rule| r.action is Keep, n);
    let drop = count_rules(rules, |r: Rule| r.action is Drop, n);
    let sample = count_rules(rules, |r: Rule| r.action is Sample, n);
    CoverageAnalysis {
        total_rules: n as usize,
        keep_rules: keep as usize,
        drop_rules: drop as usize,
        sample_rules: sample as usize,
        has_fallback: some_fallback(rules),
        has_error_handling: some_error_handling(rules),
        estimated_coverage: coverage_score(
            n,
            keep,
            drop,
            sample,
            some_fallback(rules),
            some_error_handling(rules),
        ) as u32,
    }
}

/// Among the first `n` rules, no more than `n` can be picked.
pub proof fn lemma_count_bounded(rules: Seq<Rule>, pick: spec_fn(Rule) -> bool, n: nat)
    requires
        n <= rules.len(),
    ensures
        count_rules(rules, pick, n) <= n,
    decreases n,
{
    if n > 0 {
        lemma_count_bounded(rules, pick, (n - 1) as nat);
    }
}

/// The coverage score for the given counts and findings.
pub fn calculate_coverage_estimate(analysis: &CoverageAnalysis) -> (score: u32)
    ensures
        score == coverage_score(
            analysis.total_rules as nat,
            analysis.keep_rules as nat,
            analysis.drop_rules as nat,
            analysis.sample_rules as nat,
            analysis.has_fallback,
            analysis.has_error_handling,
        ),
        score <= 100,
{
    let mut score: u32 = 0;
    if analysis.total_rules > 0 {
        score += 20;
    }
    if analysis.has_fallback {
        score += 30;
    }
    if analysis.has_error_handling {
        score += 20;
    }
    if analysis.keep_rules > 0 {
        score += 10;
    }
    if analysis.drop_rules > 0 {
        score += 10;
    }
    if analysis.sample_rules > 0 {
        score += 10;
    }
    if score > 100 {
        100
    } else {
        score
    }
}

impl CoverageAnalysis {
    /// Analyses the coverage of a policy in one pass over its rules.
    pub fn analyze(policy: &Policy) -> (c: Self)
        ensures
            c == coverage_of(policy.rules@),
    {
        let ghost rules = policy.rules@;
        let ghost keeps = |r: Rule| r.action is Keep;
        let ghost drops = |r: Rule| r.action is Drop;
        let ghost samples = |r: Rule| r.action is Sample;
        let n = policy.rules.len();
        let mut keep_rules: usize = 0;
        let mut drop_rules: usize = 0;
        let mut sample_rules: usize = 0;
        let mut has_fallback = false;
        let mut has_error_handling = false;
        let mut i: usize = 0;
        while i < n
            invariant
                rules == policy.rules@,
                n == rules.len(),
                i <= n,
                keeps == |r: Rule| r.action is Keep,
                drops == |r: Rule| r.action is Drop,
                samples == |r: Rule| r.action is Sample,
                keep_rules == count_rules(rules, keeps, i as nat),
                drop_rules == count_rules(rules, drops, i as nat),
                sample_rules == count_rules(rules, samples, i as nat),
                has_fallback == (exists|k: int| 0 <= k < i && (#[trigger] rules[k]).is_fallback()),
                has_error_handling == (exists|k: int| 0 <= k < i && handles_errors(#[trigger] rules[k])),
            decreases n - i,
        {
            proof {
                lemma_count_bounded(rules, keeps, i as nat);
                lemma_count_bounded(rules, drops, i as nat);
                lemma_count_bounded(rules, samples, i as nat);
            }
            let rule = &policy.rules[i];
            match rule.action {
                Action::Keep => {
                    keep_rules += 1;
                },
                Action::Drop => {
                    drop_rules += 1;
                },
                Action::Sample(_) => {
                    sample_rules += 1;
                },
            }
            if rule.matches_everything() {
                has_fallback = true;
            }
            if is_error_condition(rule.match_expr.as_str()) {
                has_error_handling = true;
            }
            i += 1;
        }
        let mut analysis = CoverageAnalysis {
            total_rules: n,
            keep_rules,
            drop_rules,
            sample_rules,
            has_fallback,
            has_error_handling,
            estimated_coverage: 0,
        };
        analysis.estimated_coverage = calculate_coverage_estimate(&analysis);
        analysis
    }
}

/// The conflicts, each by what it says.
pub open spec fn conflict_texts(v: Seq<RuleConflict>) -> Seq<ConflictText> {
    Seq::new(v.len(), |i: int| v[i]@)
}

/// The warnings, each by what it says.
pub open spec fn warning_texts(v: Seq<StaticWarning>) -> Seq<WarningText> {
    Seq::new(v.len(), |i: int| v[i]@)
}

/// Whether rule `a`, evaluated first, takes every trace that rule `b`
/// would match: `a` matches everything or has the same match text, and its
/// priority is not lower.
pub open spec fn shadows(a: Rule, b: Rule) -> bool {
    (a.is_fallback() || a.match_expr@ == b.match_expr@) && a.priority >= b.priority
}

/// The conflicts of rule `i` with those of the first `j` rules that
/// shadow it, in order.
pub open spec fn shadowing_of(rules: Seq<Rule>, i: int, j: nat) -> Seq<ConflictText>
    decreases j,
{
    if j == 0 || j > rules.len() || i < 0 || i >= rules.len() {
        Seq::empty()
    } else {
        let before = shadowing_of(rules, i, (j - 1) as nat);
        if shadows(rules[j - 1], rules[i]) {
            before.push(shadowed_text(rules[j - 1].name@, rules[i].name@))
        } else {
            before
        }
    }
}

/// The shadowing conflicts of the first `n` rules, each with the rules
/// before it.
pub open spec fn shadowing_upto(rules: Seq<Rule>, n: nat) -> Seq<ConflictText>
    decreases n,
{
    if n == 0 || n > rules.len() {
        Seq::empty()
    } else {
        shadowing_upto(rules, (n - 1) as nat) + shadowing_of(rules, n - 1, (n - 1) as nat)
    }
}

/// Whether both texts mention the field name.
pub open spec fn both_mention(a: Seq<char>, b: Seq<char>, field: Seq<char>) -> bool {
    has_substring(a, field) && has_substring(b, field)
}

/// Whether two match texts may overlap: one matches everything, or both
/// mention one of the field names `status`, `duration`, `service`,
/// `endpoint`, `error` and `name`.
pub open spec fn may_overlap(a: Seq<char>, b: Seq<char>) -> bool {
    ||| a == "true"@
    ||| b == "true"@
    ||| both_mention(a, b, "status"@)
    ||| both_mention(a, b, "duration"@)
    ||| both_mention(a, b, "service"@)
    ||| both_mention(a, b, "endpoint"@)
    ||| both_mention(a, b, "error"@)
    ||| both_mention(a, b, "name"@)
}

/// Whether one action keeps what the other drops.
pub open spec fn contradictory(a: Action, b: Action) -> bool {
    (a is Keep && b is Drop) || (a is Drop && b is Keep)
}

/// Whether two rules overlap with contradictory actions.
pub open spec fn overlap(a: Rule, b: Rule) -> bool {
    may_overlap(a.match_expr@, b.match_expr@) && contradictory(a.action, b.action)
}

/// The conflicts of rule `i` with those of the rules behind it and before
/// position `m` that overlap with it, in order.
pub open spec fn overlaps_of(rules: Seq<Rule>, i: int, m: nat) -> Seq<ConflictText>
    decreases m,
{
    if m <= i + 1 || m > rules.len() || i < 0 {
        Seq::empty()
    } else {
        let before = overlaps_of(rules, i, (m - 1) as nat);
        if overlap(rules[i], rules[m - 1]) {
            before.push(overlap_text(rules[i].name@, rules[m - 1].name@))
        } else {
            before
        }
    }
}

/// The overlap conflicts of the first `n` rules, each with the rules
/// behind it.
pub open spec fn overlaps_upto(rules: Seq<Rule>, n: nat) -> Seq<ConflictText>
    decreases n,
{
    if n == 0 || n > rules.len() {
        Seq::empty()
    } else {
        overlaps_upto(rules, (n - 1) as nat) + overlaps_of(rules, n - 1, rules.len())
    }
}

/// The violation of a policy without fallback rule.
pub open spec fn missing_fallback() -> Finding {
    Finding {
        check: "missing-fallback"@,
        severity: Severity::Critical,
        message: "Policy must have a fallback rule matching 'true'"@,
    }
}

/// The violation of a policy without rules.
pub open spec fn empty_policy() -> Finding {
    Finding { check: "empty-policy"@, severity: Severity::Critical, message: "Policy has no rules"@ }
}

/// The warning of a policy without error handling.
pub open spec fn no_error_handling() -> WarningText {
    WarningText {
        rule_name: "policy"@,
        message: "No explicit error handling detected"@,
        suggestion: Some("Add a rule to keep error traces (e.g., status >= 500)"@),
    }
}

/// The violations of a list of rules: a missing fallback, then a missing
/// rule set.
pub open spec fn violations_for(rules: Seq<Rule>) -> Seq<Finding> {
    (if some_fallback(rules) {
        Seq::empty()
    } else {
        seq![missing_fallback()]
    }) + (if rules.len() == 0 {
        seq![empty_policy()]
    } else {
        Seq::empty()
    })
}

/// The warning that reports a conflict.
pub open spec fn conflict_warning(c: ConflictText) -> WarningText {
    WarningText { rule_name: c.rule_b, message: c.description, suggestion: None }
}

/// The warnings for a list of rules with the given conflicts: missing
/// error handling, then one warning for each conflict.
pub open spec fn warnings_for(rules: Seq<Rule>, conflicts: Seq<ConflictText>) -> Seq<WarningText> {
    (if some_error_handling(rules) {
        Seq::empty()
    } else {
        seq![no_error_handling()]
    }) + Seq::new(conflicts.len(), |i: int| conflict_warning(conflicts[i]))
}

/// Result of static analysis.
#[derive(Debug, Clone)]
pub struct StaticAnalysisResult {
    /// Whether the static checks passed.
    pub passed: bool,
    /// Violations found.
    pub violations: Vec<Violation>,
    /// Warnings: findings that do not block.
    pub warnings: Vec<StaticWarning>,
    /// Coverage analysis.
    pub coverage: CoverageAnalysis,
    /// Conflicts between rules.
    pub conflicts: Vec<RuleConflict>,
    /// Confidence level of this analysis.
    pub confidence: Confidence,
}

impl StaticAnalysisResult {
    /// Creates a passing result of medium confidence.
    pub fn passed(coverage: CoverageAnalysis) -> (r: Self)
        ensures
            r.passed,
            r.violations@.len() == 0,
            r.warnings@.len() == 0,
            r.coverage == coverage,
            r.conflicts@.len() == 0,
            r.confidence == Confidence::Medium,
    {
        StaticAnalysisResult {
            passed: true,
            violations: Vec::new(),
            warnings: Vec::new(),
            coverage,
            conflicts: Vec::new(),
            confidence: Confidence::Medium,
        }
    }

    /// Creates a failing result of low confidence.
    pub fn failed(violations: Vec<Violation>, coverage: CoverageAnalysis) -> (r: Self)
        ensures
            !r.passed,
            r.violations == violations,
            r.warnings@.len() == 0,
            r.coverage == coverage,
            r.conflicts@.len() == 0,
            r.confidence == Confidence::Low,
    {
        StaticAnalysisResult {
            passed: false,
            violations,
            warnings: Vec::new(),
            coverage,
            conflicts: Vec::new(),
            confidence: Confidence::Low,
        }
    }

    /// Sets the warnings.
    pub fn with_warnings(self, warnings: Vec<StaticWarning>) -> (r: Self)
        ensures
            r == (StaticAnalysisResult { warnings, ..self }),
    {
        let mut result = self;
        result.warnings = warnings;
        result
    }

    /// Sets the conflicts.
    pub fn with_conflicts(self, conflicts: Vec<RuleConflict>) -> (r: Self)
        ensures
            r == (StaticAnalysisResult { conflicts, ..self }),
    {
        let mut result = self;
        result.conflicts = conflicts;
        result
    }
}

/// Static analyzer for policies.
#[derive(Debug, Clone, Copy)]
pub struct StaticAnalyzer {
    /// Whether to check for shadowed rules.
    pub check_shadowing: bool,
    /// Whether to check for overlapping conditions.
    pub check_overlaps: bool,
}

/// The conflicts that an analyzer reports for a list of rules: shadowing
/// first, then overlaps, each if the analyzer checks for it.
pub open spec fn conflicts_for(analyzer: StaticAnalyzer, rules: Seq<Rule>) -> Seq<ConflictText> {
    (if analyzer.check_shadowing {
        shadowing_upto(rules, rules.len())
    } else {
        Seq::empty()
    }) + (if analyzer.check_overlaps {
        overlaps_upto(rules, rules.len())
    } else {
        Seq::empty()
    })
}

/// Whether `r` is what the analyzer finds of the rules: their coverage,
/// their violations, their conflicts and the warnings. The analysis passes
/// when there is no violation, with medium confidence; else confidence is
/// low.
pub open spec fn is_analysis_of(
    r: StaticAnalysisResult,
    analyzer: StaticAnalyzer,
    rules: Seq<Rule>,
) -> bool {
    &&& r.coverage == coverage_of(rules)
    &&& findings_of(r.violations@) == violations_for(rules)
    &&& conflict_texts(r.conflicts@) == conflicts_for(analyzer, rules)
    &&& warning_texts(r.warnings@) == warnings_for(rules, conflicts_for(analyzer, rules))
    &&& r.passed == (r.violations@.len() == 0)
    &&& r.confidence == if r.passed {
        Confidence::Medium
    } else {
        Confidence::Low
    }
}

/// The analysis of rules fails with the violation of a missing fallback
/// if and only if no rule's match text is `true`.
pub proof fn fallback_is_required(r: StaticAnalysisResult, analyzer: StaticAnalyzer, rules: Seq<Rule>)
    requires
        is_analysis_of(r, analyzer, rules),
    ensures
        r.passed <==> some_fallback(rules),
        (exists|k: int| 0 <= k < r.violations@.len() && (#[trigger] r.violations@[k])@
            == missing_fallback()) <==> !some_fallback(rules),
{
    let findings = findings_of(r.violations@);
    assert(findings.len() == r.violations@.len());
    if some_fallback(rules) {
        let k = choose|k: int| 0 <= k < rules.len() && (#[trigger] rules[k]).is_fallback();
        assert(rules.len() > 0);
        assert(findings.len() == 0);
    } else {
        assert(findings[0] == missing_fallback());
        assert(r.violations@[0]@ == findings[0]);
    }
}

/// Among the conflicts of rule `j` with the first `m` rules stands that
/// with each of them that shadows it.
pub proof fn lemma_shadowing_of(rules: Seq<Rule>, i: int, j: int, m: nat)
    requires
        0 <= i < m <= rules.len(),
        0 <= j < rules.len(),
        shadows(rules[i], rules[j]),
    ensures
        shadowing_of(rules, j, m).contains(shadowed_text(rules[i].name@, rules[j].name@)),
    decreases m,
{
    let found = shadowed_text(rules[i].name@, rules[j].name@);
    let before = shadowing_of(rules, j, (m - 1) as nat);
    if i == m - 1 {
        assert(before.push(found).last() == found);
    } else {
        lemma_shadowing_of(rules, i, j, (m - 1) as nat);
        let k = choose|k: int| 0 <= k < before.len() && before[k] == found;
        if shadows(rules[m - 1], rules[j]) {
            assert(shadowing_of(rules, j, m)[k] == found);
        }
    }
}

/// Among the shadowing conflicts of the first `n` rules stands that of
/// each rule with each rule before it that shadows it.
pub proof fn lemma_shadowing_upto(rules: Seq<Rule>, i: int, j: int, n: nat)
    requires
        0 <= i < j < n <= rules.len(),
        shadows(rules[i], rules[j]),
    ensures
        shadowing_upto(rules, n).contains(shadowed_text(rules[i].name@, rules[j].name@)),
    decreases n,
{
    let found = shadowed_text(rules[i].name@, rules[j].name@);
    let before = shadowing_upto(rules, (n - 1) as nat);
    let last = shadowing_of(rules, n - 1, (n - 1) as nat);
    if j == n - 1 {
        lemma_shadowing_of(rules, i, j, (n - 1) as nat);
        let k = choose|k: int| 0 <= k < last.len() && last[k] == found;
        assert((before + last)[before.len() + k] == found);
    } else {
        lemma_shadowing_upto(rules, i, j, (n - 1) as nat);
        let k = choose|k: int| 0 <= k < before.len() && before[k] == found;
        assert((before + last)[k] == found);
    }
}

/// Shadowing is reported: where a rule stands behind one that matches
/// everything or has the same match text, at a priority that is not
/// lower, an analyzer that checks for shadowing names the later rule in a
/// conflict as shadowed by the earlier.
pub proof fn shadowing_is_reported(
    r: StaticAnalysisResult,
    analyzer: StaticAnalyzer,
    rules: Seq<Rule>,
    i: int,
    j: int,
)
    requires
        is_analysis_of(r, analyzer, rules),
        analyzer.check_shadowing,
        0 <= i < j < rules.len(),
        shadows(rules[i], rules[j]),
    ensures
        exists|k: int|
            0 <= k < r.conflicts@.len() && (#[trigger] r.conflicts@[k])@ == shadowed_text(
                rules[i].name@,
                rules[j].name@,
            ),
{
    let found = shadowed_text(rules[i].name@, rules[j].name@);
    let shadowing = shadowing_upto(rules, rules.len());
    lemma_shadowing_upto(rules, i, j, rules.len());
    let k = choose|k: int| 0 <= k < shadowing.len() && shadowing[k] == found;
    let all = conflicts_for(analyzer, rules);
    assert(all[k] == found);
    assert(conflict_texts(r.conflicts@)[k] == found);
    assert(r.conflicts@[k]@ == found);
}

/// Whether two actions contradict each other.
pub fn is_contradictory_action(a: &Action, b: &Action) -> (r: bool)
    ensures
        r == contradictory(*a, *b),
{
    match (a, b) {
        (Action::Keep, Action::Drop) => true,
        (Action::Drop, Action::Keep) => true,
        _ => false,
    }
}

/// The field names among `status`, `duration`, `service`, `endpoint`,
/// `error` and `name` that the text mentions, in this order.
pub fn extract_fields(expr: &str) -> (r: Vec<&'static str>)
    ensures
        forall|field: Seq<char>|
            (exists|k: int| 0 <= k < r@.len() && (#[trigger] r@[k])@ == field) <==> (is_field_name(
                field,
            ) && has_substring(expr@, field)),
{
    let mut fields: Vec<&'static str> = Vec::new();
    if str_contains(expr, "status") {
        fields.push("status");
    }
    let ghost f1 = fields@;
    if str_contains(expr, "duration") {
        fields.push("duration");
    }
    let ghost f2 = fields@;
    if str_contains(expr, "service") {
        fields.push("service");
    }
    let ghost f3 = fields@;
    if str_contains(expr, "endpoint") {
        fields.push("endpoint");
    }
    let ghost f4 = fields@;
    if str_contains(expr, "error") {
        fields.push("error");
    }
    let ghost f5 = fields@;
    if str_contains(expr, "name") {
        fields.push("name");
    }
    proof {
        let r = fields@;
        assert forall|field: Seq<char>|
            (is_field_name(field) && has_substring(expr@, field)) implies (exists|k: int|
            0 <= k < r.len() && (#[trigger] r[k])@ == field) by {
            if field == "status"@ {
                assert(r[0]@ == field);
            } else if field == "duration"@ {
                assert(r[f1.len() as int]@ == field);
            } else if field == "service"@ {
                assert(r[f2.len() as int]@ == field);
            } else if field == "endpoint"@ {
                assert(r[f3.len() as int]@ == field);
            } else if field == "error"@ {
                assert(r[f4.len() as int]@ == field);
            } else {
                assert(r[f5.len() as int]@ == field);
            }
        }
    }
    fields
}

/// Whether the text is one of the field names that overlap detection
/// looks for.
pub open spec fn is_field_name(field: Seq<char>) -> bool {
    ||| field == "status"@
    ||| field == "duration"@
    ||| field == "service"@
    ||| field == "endpoint"@
    ||| field == "error"@
    ||| field == "name"@
}

impl StaticAnalyzer {
    /// Creates an analyzer with all checks enabled.
    pub fn new() -> (a: Self)
        ensures
            a.check_shadowing,
            a.check_overlaps,
    {
        StaticAnalyzer { check_shadowing: true, check_overlaps: true }
    }

    /// Analyses a policy: coverage, violations (a missing fallback, an
    /// empty rule set), conflicts between rules, and warnings. The analysis
    /// passes when there is no violation.
    pub fn analyze(&self, policy: &Policy) -> (r: StaticAnalysisResult)
        ensures
            is_analysis_of(r, *self, policy.rules@),
            r.passed == some_fallback(policy.rules@),
    {
        let coverage = CoverageAnalysis::analyze(policy);
        let mut violations: Vec<Violation> = Vec::new();
        let mut warnings: Vec<StaticWarning> = Vec::new();
        let mut conflicts: Vec<RuleConflict> = Vec::new();
        let ghost rules = policy.rules@;
        if !coverage.has_fallback {
            violations.push(
                Violation::new(
                    Severity::Critical,
                    "missing-fallback",
                    "Policy must have a fallback rule matching 'true'",
                ),
            );
        }
        if !coverage.has_error_handling {
            warnings.push(
                StaticWarning::new("policy", "No explicit error handling detected").with_suggestion(
                    "Add a rule to keep error traces (e.g., status >= 500)",
                ),
            );
        }
        let ghost head = warning_texts(warnings@);
        assert(head == if some_error_handling(rules) {
            Seq::<WarningText>::empty()
        } else {
            seq![no_error_handling()]
        });
        let ghost first = findings_of(violations@);
        assert(first == if some_fallback(rules) {
            Seq::<Finding>::empty()
        } else {
            seq![missing_fallback()]
        });
        if policy.rules.len() == 0 {
            violations.push(Violation::new(Severity::Critical, "empty-policy", "Policy has no rules"));
            assert(findings_of(violations@) == first + seq![empty_policy()]);
        } else {
            assert(findings_of(violations@) == first + Seq::<Finding>::empty());
        }
        if self.check_shadowing {
            let mut found = self.detect_shadowing(policy);
            conflicts.append(&mut found);
        }
        let ghost shadowing = conflict_texts(conflicts@);
        assert(shadowing == if self.check_shadowing {
            shadowing_upto(rules, rules.len())
        } else {
            Seq::<ConflictText>::empty()
        });
        if self.check_overlaps {
            let mut found = self.detect_overlaps(policy);
            let ghost more = conflict_texts(found@);
            conflicts.append(&mut found);
            assert(conflict_texts(conflicts@) == shadowing + more);
        } else {
            assert(conflict_texts(conflicts@) == shadowing + Seq::<ConflictText>::empty());
        }
        let ghost all = conflict_texts(conflicts@);
        let mut i: usize = 0;
        while i < conflicts.len()
            invariant
                i <= conflicts@.len(),
                all == conflict_texts(conflicts@),
                warning_texts(warnings@) == head + Seq::new(
                    i as nat,
                    |k: int| conflict_warning(all[k]),
                ),
            decreases conflicts.len() - i,
        {
            let conflict = &conflicts[i];
            let ghost before = warning_texts(warnings@);
            warnings.push(StaticWarning::new(conflict.rule_b.as_str(), conflict.description.as_str()));
            proof {
                assert(warning_texts(warnings@) == before + seq![conflict_warning(all[i as int])]);
                assert(Seq::new((i + 1) as nat, |k: int| conflict_warning(all[k])) == Seq::new(
                    i as nat,
                    |k: int| conflict_warning(all[k]),
                ) + seq![conflict_warning(all[i as int])]);
            }
            i += 1;
        }
        proof {
            if some_fallback(rules) {
                let k = choose|k: int| 0 <= k < rules.len() && (#[trigger] rules[k]).is_fallback();
                assert(rules.len() > 0);
            }
        }
        let ghost found = findings_of(violations@);
        let ghost warned = warning_texts(warnings@);
        let result = if violations.len() == 0 {
            StaticAnalysisResult::passed(coverage).with_warnings(warnings).with_conflicts(conflicts)
        } else {
            StaticAnalysisResult::failed(violations, coverage).with_warnings(
                warnings,
            ).with_conflicts(conflicts)
        };
        proof {
            assert(findings_of(result.violations@) =~= found);
            assert(warning_texts(result.warnings@) =~= warned);
            assert(warned =~= warnings_for(rules, conflicts_for(*self, rules)));
            assert(conflict_texts(result.conflicts@) =~= conflicts_for(*self, rules));
        }
        result
    }

    /// The conflicts of rules with earlier rules that shadow them.
    pub fn detect_shadowing(&self, policy: &Policy) -> (r: Vec<RuleConflict>)
        ensures
            conflict_texts(r@) == shadowing_upto(policy.rules@, policy.rules@.len()),
    {
        let ghost rules = policy.rules@;
        let n = policy.rules.len();
        let mut conflicts: Vec<RuleConflict> = Vec::new();
        let mut i: usize = 0;
        assert(conflict_texts(conflicts@) == Seq::<ConflictText>::empty());
        while i < n
            invariant
                rules == policy.rules@,
                n == rules.len(),
                i <= n,
                conflict_texts(conflicts@) == shadowing_upto(rules, i as nat),
            decreases n - i,
        {
            let ghost done = conflict_texts(conflicts@);
            let mut j: usize = 0;
            assert(conflict_texts(conflicts@) == done + shadowing_of(rules, i as int, 0));
            while j < i
                invariant
                    rules == policy.rules@,
                    n == rules.len(),
                    i < n,
                    j <= i,
                    conflict_texts(conflicts@) == done + shadowing_of(rules, i as int, j as nat),
                decreases i - j,
            {
                if self.rule_shadows(&policy.rules[j], &policy.rules[i]) {
                    let ghost before = conflict_texts(conflicts@);
                    conflicts.push(
                        RuleConflict::shadowed(
                            policy.rules[j].name.as_str(),
                            policy.rules[i].name.as_str(),
                        ),
                    );
                    proof {
                        let c = shadowed_text(rules[j as int].name@, rules[i as int].name@);
                        assert(conflict_texts(conflicts@) == before.push(c));
                        assert(done + shadowing_of(rules, i as int, j as nat).push(c) == (done
                            + shadowing_of(rules, i as int, j as nat)).push(c));
                    }
                }
                j += 1;
            }
            i += 1;
        }
        conflicts
    }

    /// Whether `rule_a` shadows `rule_b`.
    pub fn rule_shadows(&self, rule_a: &Rule, rule_b: &Rule) -> (r: bool)
        ensures
            r == shadows(*rule_a, *rule_b),
    {
        if rule_a.matches_everything() && rule_a.priority >= rule_b.priority {
            return true;
        }
        if str_eq(rule_a.match_expr.as_str(), rule_b.match_expr.as_str()) && rule_a.priority
            >= rule_b.priority {
            return true;
        }
        false
    }

    /// The conflicts of rules with later rules that overlap with them and
    /// have a contradictory action.
    pub fn detect_overlaps(&self, policy: &Policy) -> (r: Vec<RuleConflict>)
        ensures
            conflict_texts(r@) == overlaps_upto(policy.rules@, policy.rules@.len()),
    {
        let ghost rules = policy.rules@;
        let n = policy.rules.len();
        let mut conflicts: Vec<RuleConflict> = Vec::new();
        let mut i: usize = 0;
        assert(conflict_texts(conflicts@) == Seq::<ConflictText>::empty());
        while i < n
            invariant
                rules == policy.rules@,
                n == rules.len(),
                i <= n,
                conflict_texts(conflicts@) == overlaps_upto(rules, i as nat),
            decreases n - i,
        {
            let ghost done = conflict_texts(conflicts@);
            let mut j: usize = i + 1;
            assert(conflict_texts(conflicts@) == done + overlaps_of(rules, i as int, j as nat));
            while j < n
                invariant
                    rules == policy.rules@,
                    n == rules.len(),
                    i < n,
                    i < j <= n,
                    conflict_texts(conflicts@) == done + overlaps_of(rules, i as int, j as nat),
                decreases n - j,
            {
                if let Some(conflict) = self.check_overlap(&policy.rules[i], &policy.rules[j]) {
                    let ghost before = conflict_texts(conflicts@);
                    let ghost c = conflict@;
                    conflicts.push(conflict);
                    proof {
                        assert(conflict_texts(conflicts@) == before.push(c));
                        assert(done + overlaps_of(rules, i as int, j as nat).push(c) == (done
                            + overlaps_of(rules, i as int, j as nat)).push(c));
                    }
                }
                j += 1;
            }
            i += 1;
        }
        conflicts
    }

    /// The conflict of two rules, if their conditions may overlap and one
    /// keeps what the other drops.
    pub fn check_overlap(&self, rule_a: &Rule, rule_b: &Rule) -> (r: Option<RuleConflict>)
        ensures
            match r {
                Some(c) => overlap(*rule_a, *rule_b) && c@ == overlap_text(
                    rule_a.name@,
                    rule_b.name@,
                ),
                None => !overlap(*rule_a, *rule_b),
            },
    {
        if !is_contradictory_action(&rule_a.action, &rule_b.action) {
            return None;
        }
        if self.conditions_overlap(rule_a.match_expr.as_str(), rule_b.match_expr.as_str()) {
            let mut description = String::new();
            description.append("Rules '");
            description.append(rule_a.name.as_str());
            description.append("' and '");
            description.append(rule_b.name.as_str());
            description.append("' have overlapping conditions with contradictory actions");
            assert(description@ == overlap_text(rule_a.name@, rule_b.name@).description);
            return Some(
                RuleConflict::overlapping(
                    rule_a.name.as_str(),
                    rule_b.name.as_str(),
                    description.as_str(),
                ),
            );
        }
        None
    }

    /// Whether two match texts may overlap: a heuristic on the field names
    /// that they mention.
    pub fn conditions_overlap(&self, expr_a: &str, expr_b: &str) -> (r: bool)
        ensures
            r == may_overlap(expr_a@, expr_b@),
    {
        if str_eq(expr_a, "true") || str_eq(expr_b, "true") {
            return true;
        }
        (str_contains(expr_a, "status") && str_contains(expr_b, "status")) || (str_contains(
            expr_a,
            "duration",
        ) && str_contains(expr_b, "duration")) || (str_contains(expr_a, "service") && str_contains(
            expr_b,
            "service",
        )) || (str_contains(expr_a, "endpoint") && str_contains(expr_b, "endpoint")) || (
        str_contains(expr_a, "error") && str_contains(expr_b, "error")) || (str_contains(
            expr_a,
            "name",
        ) && str_contains(expr_b, "name"))
    }
}

impl Default for StaticAnalyzer {
    fn default() -> (a: Self)
        ensures
            !a.check_shadowing,
            !a.check_overlaps,
    {
        StaticAnalyzer { check_shadowing: false, check_overlaps: false }
    }
}

impl Default for CoverageAnalysis {
    /// The coverage of no rules.
    fn default() -> (c: Self)
        ensures
            c == (CoverageAnalysis {
                total_rules: 0,
                keep_rules: 0,
                drop_rules: 0,
                sample_rules: 0,
                has_fallback: false,
                has_error_handling: false,
                estimated_coverage: 0,
            }),
    {
        CoverageAnalysis {
            total_rules: 0,
            keep_rules: 0,
            drop_rules: 0,
            sample_rules: 0,
            has_fallback: false,
            has_error_handling: false,
            estimated_coverage: 0,
        }
    }
}

} // verus!
