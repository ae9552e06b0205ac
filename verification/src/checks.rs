//! The single checks of policy verification.

use vstd::prelude::*;
use vstd::string::StringExecFns;
use crate::analysis::{handles_errors, is_error_condition, some_error_handling};
use crate::corpus::{error_total, Corpus};
use crate::policy::{some_fallback, Action, Policy, Rule};
use crate::result::{Finding, Severity, Violation, Warning};
use crate::text::{append_decimal, decimal_text, has_substring, str_contains};

verus! {

/// The violation of a policy without fallback rule.
pub open spec fn no_fallback_rule() -> Finding {
    Finding {
        check: "fallback-rule"@,
        severity: Severity::Critical,
        message: "Policy has no fallback rule (match: true). Unmatched traces will be dropped."@,
    }
}

/// The violation of a policy of which no rule handles errors.
pub open spec fn no_error_handling_rule() -> Finding {
    Finding {
        check: "error-handling"@,
        severity: Severity::Critical,
        message: "Policy has no rule that handles errors. Add a rule for errors, such as status >= 500."@,
    }
}

/// Whether a rule keeps error traces: it keeps, and its match text
/// mentions `error` or `status >= 500`.
pub open spec fn keeps_errors(rule: Rule) -> bool {
    rule.action is Keep && (has_substring(rule.match_expr@, "error"@) || has_substring(
        rule.match_expr@,
        "status >= 500"@,
    ))
}

/// Whether some rule keeps error traces.
pub open spec fn covers_errors(rules: Seq<Rule>) -> bool {
    exists|i: int| 0 <= i < rules.len() && keeps_errors(#[trigger] rules[i])
}

/// The violation of a policy that may drop the error traces of a corpus.
pub open spec fn may_drop_errors(errors: nat) -> Finding {
    Finding {
        check: "must-keep-coverage"@,
        severity: Severity::Critical,
        message: "Policy may drop "@ + decimal_text(errors)
            + " error traces. Add a rule to keep errors."@,
    }
}

/// Checks that the policy has a fallback rule.
pub fn check_fallback(policy: &Policy) -> (r: Option<Violation>)
    ensures
        match r {
            Some(v) => !some_fallback(policy.rules@) && v@ == no_fallback_rule(),
            None => some_fallback(policy.rules@),
        },
{
    if policy.has_fallback() {
        None
    } else {
        Some(
            Violation::critical(
                "fallback-rule",
                "Policy has no fallback rule (match: true). Unmatched traces will be dropped.",
            ),
        )
    }
}

/// Checks that error handling is present: some rule's match text speaks
/// of `error`, `status >= 500`, `status >= 400`, `is_error` or
/// `exception`, in any case of letters.
pub fn check_error_handling(policy: &Policy) -> (r: Option<Violation>)
    ensures
        match r {
            Some(v) => !some_error_handling(policy.rules@) && v@ == no_error_handling_rule(),
            None => some_error_handling(policy.rules@),
        },
{
    let mut i: usize = 0;
    while i < policy.rules.len()
        invariant
            i <= policy.rules@.len(),
            forall|k: int| 0 <= k < i ==> !handles_errors(#[trigger] policy.rules@[k]),
        decreases policy.rules.len() - i,
    {
        if is_error_condition(policy.rules[i].match_expr.as_str()) {
            assert(handles_errors(policy.rules@[i as int]));
            return None;
        }
        i += 1;
    }
    Some(
        Violation::critical(
            "error-handling",
            "Policy has no rule that handles errors. Add a rule for errors, such as status >= 500.",
        ),
    )
}

/// Checks for grouping keys of high cardinality. No such check is made:
/// there is never a warning.
pub fn check_cardinality(_policy: &Policy, _corpus: &Corpus) -> (r: Option<Warning>)
    ensures
        r is None,
{
    None
}

/// Checks that the error traces of the corpus are kept: if there are any,
/// some rule must keep errors.
pub fn check_must_keep_coverage(policy: &Policy, corpus: &Corpus) -> (r: Result<(), Violation>)
    ensures
        match r {
            Ok(_) => error_total(corpus@, corpus@.len()) == 0 || covers_errors(policy.rules@),
            Err(v) => error_total(corpus@, corpus@.len()) > 0 && !covers_errors(policy.rules@)
                && v@ == may_drop_errors(error_total(corpus@, corpus@.len())),
        },
{
    let errors = corpus.error_count();
    if errors == 0 {
        return Ok(());
    }
    let mut i: usize = 0;
    while i < policy.rules.len()
        invariant
            i <= policy.rules@.len(),
            forall|k: int| 0 <= k < i ==> !keeps_errors(#[trigger] policy.rules@[k]),
        decreases policy.rules.len() - i,
    {
        let rule = &policy.rules[i];
        let keeps = match rule.action {
            Action::Keep => true,
            _ => false,
        };
        if keeps && (str_contains(rule.match_expr.as_str(), "error") || str_contains(
            rule.match_expr.as_str(),
            "status >= 500",
        )) {
            return Ok(());
        }
        i += 1;
    }
    let mut message = String::new();
    message.append("Policy may drop ");
    append_decimal(&mut message, errors as u128);
    message.append(" error traces. Add a rule to keep errors.");
    assert(message@ == may_drop_errors(errors as nat).message);
    Err(Violation::critical("must-keep-coverage", message.as_str()))
}

} // verus!
