//! Errors of the library.

use vstd::prelude::*;
use vstd::string::StringExecFns;
use crate::text::{append_decimal, decimal_text};

verus! {

/// What can go wrong.
#[derive(Debug, Clone, PartialEq, Eq)]
pub enum Error {
    /// The policy cannot be verified at all.
    InvalidPolicy(String),
    /// The corpus is empty or invalid.
    InvalidCorpus(String),
    /// The traffic pattern is empty or invalid.
    InvalidTraffic(String),
    /// The simulation is inconsistent.
    SimulationError(String),
    /// An internal error.
    Internal(String),
    /// A construct that the target format cannot express.
    Unsupported(String),
    /// A match expression that cannot be parsed.
    InvalidMatch {
        /// The offending expression.
        expr: String,
        /// Why it is invalid.
        reason: String,
    },
    /// A policy text with a syntax error.
    Parse {
        /// The line of the error, counted from 1.
        line: usize,
        /// What is wrong.
        reason: String,
    },
    /// A policy text that declares another number of rows than it holds.
    CountMismatch {
        /// The number that the header declares.
        declared: usize,
        /// The number of rows found.
        actual: usize,
    },
    /// A policy text without a required field.
    MissingField(String),
    /// An action that is none of `keep`, `drop` and `sample(rate)`.
    InvalidAction {
        /// The offending action.
        action: String,
        /// Why it is invalid.
        reason: String,
    },
    /// A trace whose data cannot be read.
    InvalidTrace(String),
    /// Data that is not in the format it is taken for.
    Format {
        /// The format.
        format: String,
        /// What is wrong.
        message: String,
    },
}

/// An error, by what it says.
pub enum ErrorText {
    InvalidPolicy(Seq<char>),
    InvalidCorpus(Seq<char>),
    InvalidTraffic(Seq<char>),
    SimulationError(Seq<char>),
    Internal(Seq<char>),
    Unsupported(Seq<char>),
    InvalidMatch { expr: Seq<char>, reason: Seq<char> },
    Parse { line: usize, reason: Seq<char> },
    CountMismatch { declared: usize, actual: usize },
    MissingField(Seq<char>),
    InvalidAction { action: Seq<char>, reason: Seq<char> },
    InvalidTrace(Seq<char>),
    Format { format: Seq<char>, message: Seq<char> },
}

impl View for Error {
    type V = ErrorText;

    open spec fn view(&self) -> ErrorText {
        match self {
            Error::InvalidPolicy(m) => ErrorText::InvalidPolicy(m@),
            Error::InvalidCorpus(m) => ErrorText::InvalidCorpus(m@),
            Error::InvalidTraffic(m) => ErrorText::InvalidTraffic(m@),
            Error::SimulationError(m) => ErrorText::SimulationError(m@),
            Error::Internal(m) => ErrorText::Internal(m@),
            Error::Unsupported(m) => ErrorText::Unsupported(m@),
            Error::InvalidMatch { expr, reason } => ErrorText::InvalidMatch {
                expr: expr@,
                reason: reason@,
            },
            Error::Parse { line, reason } => ErrorText::Parse { line: *line, reason: reason@ },
            Error::CountMismatch { declared, actual } => ErrorText::CountMismatch {
                declared: *declared,
                actual: *actual,
            },
            Error::MissingField(m) => ErrorText::MissingField(m@),
            Error::InvalidAction { action, reason } => ErrorText::InvalidAction {
                action: action@,
                reason: reason@,
            },
            Error::InvalidTrace(m) => ErrorText::InvalidTrace(m@),
            Error::Format { format, message } => ErrorText::Format {
                format: format@,
                message: message@,
            },
        }
    }
}

impl ErrorText {
    /// The message shown to the user.
    pub open spec fn message(self) -> Seq<char> {
        match self {
            ErrorText::InvalidPolicy(m) => "invalid policy: "@ + m,
            ErrorText::InvalidCorpus(m) => "invalid corpus: "@ + m,
            ErrorText::InvalidTraffic(m) => "invalid traffic pattern: "@ + m,
            ErrorText::SimulationError(m) => "simulation error: "@ + m,
            ErrorText::Internal(m) => "prover error: "@ + m,
            ErrorText::Unsupported(m) => "unsupported construct: "@ + m,
            ErrorText::InvalidMatch { expr, reason } => "invalid match expression '"@ + expr + "': "@
                + reason,
            ErrorText::Parse { line, reason } => "parse error at line "@ + decimal_text(line as nat)
                + ": "@ + reason,
            ErrorText::CountMismatch { declared, actual } => "count mismatch: declared "@
                + decimal_text(declared as nat) + ", found "@ + decimal_text(actual as nat),
            ErrorText::MissingField(m) => "missing required field: "@ + m,
            ErrorText::InvalidAction { action, reason } => "invalid action '"@ + action + "': "@
                + reason,
            ErrorText::InvalidTrace(m) => "invalid trace format: "@ + m,
            ErrorText::Format { format, message } => "parse error ("@ + format + "): "@ + message,
        }
    }
}

impl Error {
    /// The error of data that is not in the format it is taken for.
    pub fn parse(format: &str, message: &str) -> (e: Self)
        ensures
            e@ == (ErrorText::Format { format: format@, message: message@ }),
    {
        Error::Format { format: format.to_owned(), message: message.to_owned() }
    }

    /// The message shown to the user: which precondition failed, and why.
    pub fn message(&self) -> (s: String)
        ensures
            s@ == self@.message(),
    {
        let mut out = String::new();
        match self {
            Error::InvalidPolicy(m) => {
                out.append("invalid policy: ");
                out.append(m.as_str());
            },
            Error::InvalidCorpus(m) => {
                out.append("invalid corpus: ");
                out.append(m.as_str());
            },
            Error::InvalidTraffic(m) => {
                out.append("invalid traffic pattern: ");
                out.append(m.as_str());
            },
            Error::SimulationError(m) => {
                out.append("simulation error: ");
                out.append(m.as_str());
            },
            Error::Internal(m) => {
                out.append("prover error: ");
                out.append(m.as_str());
            },
            Error::Unsupported(m) => {
                out.append("unsupported construct: ");
                out.append(m.as_str());
            },
            Error::InvalidMatch { expr, reason } => {
                out.append("invalid match expression '");
                out.append(expr.as_str());
                out.append("': ");
                out.append(reason.as_str());
            },
            Error::Parse { line, reason } => {
                out.append("parse error at line ");
                append_decimal(&mut out, *line as u128);
                out.append(": ");
                out.append(reason.as_str());
            },
            Error::CountMismatch { declared, actual } => {
                out.append("count mismatch: declared ");
                append_decimal(&mut out, *declared as u128);
                out.append(", found ");
                append_decimal(&mut out, *actual as u128);
            },
            Error::MissingField(m) => {
                out.append("missing required field: ");
                out.append(m.as_str());
            },
            Error::InvalidAction { action, reason } => {
                out.append("invalid action '");
                out.append(action.as_str());
                out.append("': ");
                out.append(reason.as_str());
            },
            Error::InvalidTrace(m) => {
                out.append("invalid trace format: ");
                out.append(m.as_str());
            },
            Error::Format { format, message } => {
                out.append("parse error (");
                out.append(format.as_str());
                out.append("): ");
                out.append(message.as_str());
            },
        }
        out
    }
}

} // verus!
