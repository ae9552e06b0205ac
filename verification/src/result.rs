//! Verdicts of policy verification.

use vstd::prelude::*;

verus! {

/// Verification status.
#[derive(Debug, Clone, Copy, PartialEq, Eq, Structural)]
pub enum Status {
    /// Policy approved.
    Approved,
    /// Policy approved, with warnings.
    ApprovedWithWarnings,
    /// Policy rejected because of violations.
    Rejected,
}

/// Severity level.
#[derive(Debug, Clone, Copy, PartialEq, Eq, Structural)]
pub enum Severity {
    /// Critical: causes rejection.
    Critical,
    /// Warning: noted but not blocking.
    Warning,
    /// Info: for information only.
    Info,
}

impl Severity {
    /// The label of the severity in reports.
    pub open spec fn label_text(self) -> Seq<char> {
        match self {
            Severity::Critical => "CRITICAL"@,
            Severity::Warning => "WARNING"@,
            Severity::Info => "INFO"@,
        }
    }

    /// The label of the severity in reports.
    pub fn label(&self) -> (s: String)
        ensures
            s@ == self.label_text(),
    {
        match self {
            Severity::Critical => "CRITICAL".to_owned(),
            Severity::Warning => "WARNING".to_owned(),
            Severity::Info => "INFO".to_owned(),
        }
    }
}

/// A finding of a check, by what it says.
pub struct Finding {
    pub check: Seq<char>,
    pub severity: Severity,
    pub message: Seq<char>,
}

/// A violation: a finding that causes rejection.
#[derive(Debug, Clone, PartialEq, Eq)]
pub struct Violation {
    /// Which check failed.
    pub check: String,
    /// Severity level.
    pub severity: Severity,
    /// Human-readable message.
    pub message: String,
}

/// A warning: a finding that does not block approval.
#[derive(Debug, Clone, PartialEq, Eq)]
pub struct Warning {
    /// Which check produced the warning.
    pub check: String,
    /// Severity level.
    pub severity: Severity,
    /// Human-readable message.
    pub message: String,
}

impl View for Violation {
    type V = Finding;

    open spec fn view(&self) -> Finding {
        Finding { check: self.check@, severity: self.severity, message: self.message@ }
    }
}

impl View for Warning {
    type V = Finding;

    open spec fn view(&self) -> Finding {
        Finding { check: self.check@, severity: self.severity, message: self.message@ }
    }
}

/// The violations, each by what it says.
pub open spec fn findings_of(v: Seq<Violation>) -> Seq<Finding> {
    Seq::new(v.len(), |i: int| v[i]@)
}

impl Violation {
    /// Creates a violation of the given severity.
    pub fn new(severity: Severity, check: &str, message: &str) -> (v: Self)
        ensures
            v@ == (Finding { check: check@, severity, message: message@ }),
    {
        Violation { check: check.to_owned(), severity, message: message.to_owned() }
    }

    /// Creates a critical violation.
    pub fn critical(check: &str, message: &str) -> (v: Self)
        ensures
            v@ == (Finding { check: check@, severity: Severity::Critical, message: message@ }),
    {
        Violation {
            check: check.to_owned(),
            severity: Severity::Critical,
            message: message.to_owned(),
        }
    }
}

impl Warning {
    /// Creates a warning.
    pub fn new(check: &str, message: &str) -> (w: Self)
        ensures
            w@ == (Finding { check: check@, severity: Severity::Warning, message: message@ }),
    {
        Warning { check: check.to_owned(), severity: Severity::Warning, message: message.to_owned() }
    }
}

/// Result of policy verification.
#[derive(Debug, Clone, PartialEq, Eq)]
pub struct ProverResult {
    /// Overall status.
    pub status: Status,
    /// Number of checks passed.
    pub checks_passed: usize,
    /// Total number of checks.
    pub checks_total: usize,
    /// Violations; they cause rejection.
    pub violations: Vec<Violation>,
    /// Warnings.
    pub warnings: Vec<Warning>,
}

impl ProverResult {
    /// Creates an approved result: every check passed.
    pub fn approved(checks_passed: usize) -> (r: Self)
        ensures
            r.status == Status::Approved,
            r.checks_passed == checks_passed,
            r.checks_total == checks_passed,
            r.violations@.len() == 0,
            r.warnings@.len() == 0,
    {
        ProverResult {
            status: Status::Approved,
            checks_passed,
            checks_total: checks_passed,
            violations: Vec::new(),
            warnings: Vec::new(),
        }
    }

    /// Creates a rejected result that carries the violations.
    pub fn rejected(violations: Vec<Violation>, checks_passed: usize, checks_total: usize) -> (r:
        Self)
        ensures
            r.status == Status::Rejected,
            r.checks_passed == checks_passed,
            r.checks_total == checks_total,
            r.violations == violations,
            r.warnings@.len() == 0,
    {
        ProverResult {
            status: Status::Rejected,
            checks_passed,
            checks_total,
            violations,
            warnings: Vec::new(),
        }
    }

    /// Whether the policy is approved, with or without warnings.
    pub fn is_approved(&self) -> (r: bool)
        ensures
            r == (self.status == Status::Approved || self.status == Status::ApprovedWithWarnings),
    {
        match self.status {
            Status::Approved => true,
            Status::ApprovedWithWarnings => true,
            Status::Rejected => false,
        }
    }

    /// Whether the policy is rejected.
    pub fn is_rejected(&self) -> (r: bool)
        ensures
            r == (self.status == Status::Rejected),
    {
        match self.status {
            Status::Rejected => true,
            _ => false,
        }
    }

    /// Adds a warning; an approval becomes an approval with warnings, a
    /// rejection stays one.
    pub fn add_warning(&mut self, warning: Warning)
        ensures
            final(self).warnings@ == old(self).warnings@.push(warning),
            final(self).status == if old(self).status == Status::Approved {
                Status::ApprovedWithWarnings
            } else {
                old(self).status
            },
            final(self).checks_passed == old(self).checks_passed,
            final(self).checks_total == old(self).checks_total,
            final(self).violations == old(self).violations,
    {
        self.warnings.push(warning);
        match self.status {
            Status::Approved => {
                self.status = Status::ApprovedWithWarnings;
            },
            _ => {},
        }
    }
}

} // verus!
