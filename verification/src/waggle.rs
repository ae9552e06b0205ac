//! Reports that explain a policy to its readers.

use vstd::prelude::*;
use vstd::string::StringExecFns;
use crate::policy::{Action, Policy, Rule};
use crate::simulation::percent_text;
use crate::text::{append_decimal, decimal_text};

verus! {

/// What an action does, for reading.
pub open spec fn action_words(action: Action) -> Seq<char> {
    match action {
        Action::Keep => "Keep all"@,
        Action::Drop => "Drop all"@,
        Action::Sample(rate) => "Sample at "@ + percent_text(rate as nat) + "%"@,
    }
}

/// What an action does, for reading.
pub fn format_action(action: &Action) -> (s: String)
    ensures
        s@ == action_words(*action),
{
    match action {
        Action::Keep => "Keep all".to_owned(),
        Action::Drop => "Drop all".to_owned(),
        Action::Sample(rate) => {
            let mut out = "Sample at ".to_owned();
            let tenths: u128 = (*rate as u128 + 500) / 1000;
            append_decimal(&mut out, tenths / 10);
            out.append(".");
            append_decimal(&mut out, tenths % 10);
            out.append("%");
            proof {
                reveal_strlit(".");
                assert("."@ == seq!['.']);
                assert(out@ == "Sample at "@ + (decimal_text((tenths / 10) as nat) + seq!['.']
                    + decimal_text((tenths % 10) as nat)) + "%"@);
            }
            out
        },
    }
}

/// The section of the report on the rule at position `i`.
pub open spec fn rule_section(rule: Rule, i: nat) -> Seq<char> {
    "### "@ + decimal_text(i + 1) + ". "@ + rule.name@ + " (priority: "@ + decimal_text(
        rule.priority as nat,
    ) + ")\n\n"@ + (match rule.description {
        Some(d) => d@ + "\n\n"@,
        None => Seq::empty(),
    }) + "- **Match**: `"@ + rule.match_expr@ + "`\n"@ + "- **Action**: "@ + action_words(
        rule.action,
    ) + "\n"@ + "\n"@
}

/// The sections on the first `n` rules.
pub open spec fn rule_sections(rules: Seq<Rule>, n: nat) -> Seq<char>
    decreases n,
{
    if n == 0 || n > rules.len() {
        Seq::empty()
    } else {
        rule_sections(rules, (n - 1) as nat) + rule_section(rules[n - 1], (n - 1) as nat)
    }
}

/// The kind of an action: 0 for keep, 1 for sample, 2 for drop.
pub open spec fn kind_of(action: Action) -> int {
    match action {
        Action::Keep => 0,
        Action::Sample(_) => 1,
        Action::Drop => 2,
    }
}

/// The names of those of the first `n` rules whose action is of the
/// given kind, with `, ` between them.
pub open spec fn names_of_kind(rules: Seq<Rule>, kind: int, n: nat) -> Seq<char>
    decreases n,
{
    if n == 0 || n > rules.len() {
        Seq::empty()
    } else {
        let before = names_of_kind(rules, kind, (n - 1) as nat);
        if kind_of(rules[n - 1].action) != kind {
            before
        } else if count_of_kind(rules, kind, (n - 1) as nat) == 0 {
            rules[n - 1].name@
        } else {
            before + ", "@ + rules[n - 1].name@
        }
    }
}

/// The number of those of the first `n` rules whose action is of the
/// given kind.
pub open spec fn count_of_kind(rules: Seq<Rule>, kind: int, n: nat) -> nat
    decreases n,
{
    if n == 0 || n > rules.len() {
        0
    } else {
        count_of_kind(rules, kind, (n - 1) as nat) + if kind_of(rules[n - 1].action) == kind {
            1nat
        } else {
            0nat
        }
    }
}

/// The line of the summary for a kind of action, if some rule has it.
pub open spec fn summary_line(rules: Seq<Rule>, kind: int, label: Seq<char>) -> Seq<char> {
    if count_of_kind(rules, kind, rules.len()) > 0 {
        label + names_of_kind(rules, kind, rules.len()) + "\n"@
    } else {
        Seq::empty()
    }
}

/// The report on a policy: an overview, a section on each rule in the
/// order of evaluation, and a summary of which rules keep, sample and drop.
pub open spec fn report_text(policy: Policy) -> Seq<char> {
    let rules = policy.rules@;
    "# Waggle Report: "@ + policy.name@ + "\n\n"@ + "## Overview\n\n"@ + "- **Version**: "@
        + decimal_text(policy.version as nat) + "\n"@ + (match policy.budget_per_second {
        Some(budget) => "- **Budget**: "@ + decimal_text(budget as nat) + " traces/second\n"@,
        None => Seq::empty(),
    }) + "- **Rules**: "@ + decimal_text(rules.len()) + "\n"@ + "\n"@ + "## Rules\n\n"@
        + "Rules are evaluated in priority order (highest first).\n\n"@ + rule_sections(
        rules,
        rules.len(),
    ) + "## Summary\n\n"@ + summary_line(rules, 0, "**Always kept**: "@) + summary_line(
        rules,
        1,
        "**Sampled**: "@,
    ) + summary_line(rules, 2, "**Dropped**: "@)
}

/// Appends the section on a rule.
fn append_rule_section(out: &mut String, rule: &Rule, i: usize)
    requires
        i < usize::MAX,
    ensures
        final(out)@ == old(out)@ + rule_section(*rule, i as nat),
{
    let mut section = String::new();
    section.append("### ");
    append_decimal(&mut section, (i + 1) as u128);
    section.append(". ");
    section.append(rule.name.as_str());
    section.append(" (priority: ");
    append_decimal(&mut section, rule.priority as u128);
    section.append(")\n\n");
    match &rule.description {
        Some(d) => {
            let mut text = String::new();
            text.append(d.as_str());
            text.append("\n\n");
            section.append(text.as_str());
        },
        None => {
            assert(section@ + Seq::<char>::empty() == section@);
        },
    }
    section.append("- **Match**: `");
    section.append(rule.match_expr.as_str());
    section.append("`\n");
    section.append("- **Action**: ");
    section.append(format_action(&rule.action).as_str());
    section.append("\n");
    section.append("\n");
    assert(section@ == rule_section(*rule, i as nat));
    out.append(section.as_str());
}

/// Appends the line of the summary for a kind of action.
fn append_summary_line(out: &mut String, policy: &Policy, kind: u8, label: &str)
    requires
        kind <= 2,
    ensures
        final(out)@ == old(out)@ + summary_line(policy.rules@, kind as int, label@),
{
    let rules = &policy.rules;
    let mut names = String::new();
    let mut count: usize = 0;
    let mut i: usize = 0;
    while i < rules.len()
        invariant
            i <= rules@.len(),
            kind <= 2,
            count == count_of_kind(rules@, kind as int, i as nat),
            count <= i,
            count == 0 ==> names@ == Seq::<char>::empty(),
            names@ == names_of_kind(rules@, kind as int, i as nat),
        decreases rules.len() - i,
    {
        let this: u8 = match rules[i].action {
            Action::Keep => 0,
            Action::Sample(_) => 1,
            Action::Drop => 2,
        };
        if this == kind {
            if count > 0 {
                names.append(", ");
            } else {
                assert(names@ + rules@[i as int].name@ == rules@[i as int].name@);
            }
            names.append(rules[i].name.as_str());
            count += 1;
        }
        i += 1;
    }
    if count > 0 {
        let mut line = String::new();
        line.append(label);
        line.append(names.as_str());
        line.append("\n");
        out.append(line.as_str());
    } else {
        assert(out@ + Seq::<char>::empty() == out@);
    }
}

/// Writes the report on a policy.
pub fn generate_waggle_report(policy: &Policy) -> (r: String)
    ensures
        r@ == report_text(*policy),
{
    let mut report = String::new();
    report.append("# Waggle Report: ");
    report.append(policy.name.as_str());
    report.append("\n\n");
    report.append("## Overview\n\n");
    report.append("- **Version**: ");
    append_decimal(&mut report, policy.version as u128);
    report.append("\n");
    match policy.budget_per_second {
        Some(budget) => {
            let mut line = String::new();
            line.append("- **Budget**: ");
            append_decimal(&mut line, budget as u128);
            line.append(" traces/second\n");
            report.append(line.as_str());
        },
        None => {
            assert(report@ + Seq::<char>::empty() == report@);
        },
    }
    report.append("- **Rules**: ");
    append_decimal(&mut report, policy.rules.len() as u128);
    report.append("\n");
    report.append("\n");
    report.append("## Rules\n\n");
    report.append("Rules are evaluated in priority order (highest first).\n\n");
    let ghost head = report@;
    let n = policy.rules.len();
    let mut i: usize = 0;
    assert(report@ == head + rule_sections(policy.rules@, 0));
    while i < n
        invariant
            n == policy.rules@.len(),
            i <= n,
            report@ == head + rule_sections(policy.rules@, i as nat),
        decreases n - i,
    {
        append_rule_section(&mut report, &policy.rules[i], i);
        assert(head + rule_sections(policy.rules@, i as nat) + rule_section(
            policy.rules@[i as int],
            i as nat,
        ) == head + (rule_sections(policy.rules@, i as nat) + rule_section(
            policy.rules@[i as int],
            i as nat,
        )));
        i += 1;
    }
    report.append("## Summary\n\n");
    append_summary_line(&mut report, policy, 0, "**Always kept**: ");
    append_summary_line(&mut report, policy, 1, "**Sampled**: ");
    append_summary_line(&mut report, policy, 2, "**Dropped**: ");
    report
}

} // verus!
