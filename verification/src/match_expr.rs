//! Match expressions: the predicate language of sampling rules.

use vstd::prelude::*;
use crate::error::{Error, ErrorText};
use crate::literal::{
    duration_of, integer_of, micros_limit, micros_of, parse_decimal, parse_duration_value,
    parse_i64, read_comparable, tracks,
};
use crate::refinery::{
    ConditionValue, ConditionValueModel, RefineryCondition, RefineryConditionModel,
};
use crate::time::nanos_of;
use crate::trace::{find_trace_attribute, trace_attribute_index, Trace};
use crate::text::{
    chars_eq, chars_of, contains_chars, eq_ignore_ascii_case, find_chars, find_first, has_prefix,
    has_substring, lemma_trim_bounds, same_ignoring_ascii_case, slice_chars, starts_with_chars,
    str_eq, string_of, trim_chars, trimmed,
};

verus! {

/// Comparison operators.
#[derive(Debug, Clone, Copy, PartialEq, Eq, Structural)]
pub enum Operator {
    /// Equals (`==` or `=`).
    Eq,
    /// Not equals (`!=`).
    Ne,
    /// Greater than (`>`).
    Gt,
    /// Greater than or equal (`>=`).
    Ge,
    /// Less than (`<`).
    Lt,
    /// Less than or equal (`<=`).
    Le,
    /// Contains a substring.
    Contains,
    /// Starts with a prefix.
    StartsWith,
    /// Has a value.
    Exists,
}

/// A value in a condition.
#[derive(Debug, Clone, PartialEq)]
pub enum Value {
    /// String value.
    String(String),
    /// Integer value.
    Int(i64),
    /// A number with a fraction, in millionths, rounded toward zero.
    Decimal(i64),
    /// Boolean value.
    Bool(bool),
    /// Duration in milliseconds.
    Duration(u64),
}

/// A simple comparison condition.
#[derive(Debug, Clone, PartialEq)]
pub struct Condition {
    /// Field name, such as `http.status`, `duration` or `service.name`.
    pub field: String,
    /// Comparison operator.
    pub operator: Operator,
    /// Value to compare against.
    pub value: Value,
}

/// A parsed match expression.
#[derive(Debug, PartialEq)]
pub enum MatchExpr {
    /// Always matches.
    True,
    /// A simple comparison condition.
    Condition(Condition),
    /// Matches when every part matches.
    And(Vec<MatchExpr>),
    /// Matches when some part matches.
    Or(Vec<MatchExpr>),
}

/// A value, by what it holds.
pub enum ValueModel {
    Text(Seq<char>),
    Int(i64),
    Decimal(i64),
    Bool(bool),
    Duration(u64),
}

/// A condition, by what it holds.
pub struct ConditionModel {
    pub field: Seq<char>,
    pub operator: Operator,
    pub value: ValueModel,
}

/// An expression tree, by what it holds.
pub enum ExprModel {
    True,
    Condition(ConditionModel),
    And(Seq<ExprModel>),
    Or(Seq<ExprModel>),
}

impl View for Value {
    type V = ValueModel;

    open spec fn view(&self) -> ValueModel {
        match self {
            Value::String(s) => ValueModel::Text(s@),
            Value::Int(n) => ValueModel::Int(*n),
            Value::Decimal(d) => ValueModel::Decimal(*d),
            Value::Bool(b) => ValueModel::Bool(*b),
            Value::Duration(ms) => ValueModel::Duration(*ms),
        }
    }
}

impl View for Condition {
    type V = ConditionModel;

    open spec fn view(&self) -> ConditionModel {
        ConditionModel { field: self.field@, operator: self.operator, value: self.value@ }
    }
}

impl MatchExpr {
    /// The expression tree, by what it holds.
    pub open spec fn model(&self) -> ExprModel
        decreases self,
    {
        match self {
            MatchExpr::True => ExprModel::True,
            MatchExpr::Condition(c) => ExprModel::Condition(c@),
            MatchExpr::And(parts) => ExprModel::And(
                Seq::new(
                    parts@.len(),
                    |i: int|
                        if 0 <= i < parts@.len() {
                            parts[i].model()
                        } else {
                            ExprModel::True
                        },
                ),
            ),
            MatchExpr::Or(parts) => ExprModel::Or(
                Seq::new(
                    parts@.len(),
                    |i: int|
                        if 0 <= i < parts@.len() {
                            parts[i].model()
                        } else {
                            ExprModel::True
                        },
                ),
            ),
        }
    }
}

/// The number of operator spellings that a condition is probed for.
pub const OPERATOR_SPELLINGS: usize = 10;

/// The operator spellings in the order in which a condition is probed for
/// them: two-character comparisons before the one-character ones that they
/// begin with.
pub open spec fn operator_text(k: int) -> Seq<char> {
    if k == 0 {
        ">="@
    } else if k == 1 {
        "<="@
    } else if k == 2 {
        "!="@
    } else if k == 3 {
        "=="@
    } else if k == 4 {
        ">"@
    } else if k == 5 {
        "<"@
    } else if k == 6 {
        "="@
    } else if k == 7 {
        "contains"@
    } else if k == 8 {
        "starts-with"@
    } else {
        "exists"@
    }
}

/// The operator that the spelling at position `k` stands for.
pub open spec fn operator_at(k: int) -> Operator {
    if k == 0 {
        Operator::Ge
    } else if k == 1 {
        Operator::Le
    } else if k == 2 {
        Operator::Ne
    } else if k == 3 {
        Operator::Eq
    } else if k == 4 {
        Operator::Gt
    } else if k == 5 {
        Operator::Lt
    } else if k == 6 {
        Operator::Eq
    } else if k == 7 {
        Operator::Contains
    } else if k == 8 {
        Operator::StartsWith
    } else {
        Operator::Exists
    }
}

/// Where an operator was found: which spelling, and at which position.
pub struct OperatorSite {
    pub spelling: int,
    pub position: int,
}

/// The first spelling at or after `k` that occurs in `t`, with its first
/// position.
pub open spec fn first_operator(t: Seq<char>, k: int) -> Option<OperatorSite>
    decreases 10 - k,
{
    if k < 0 || k >= 10 {
        None
    } else {
        match find_first(t, operator_text(k)) {
            Some(p) => Some(OperatorSite { spelling: k, position: p }),
            None => first_operator(t, k + 1),
        }
    }
}

/// Whether the text is wrapped in a pair of double or single quotes.
pub open spec fn is_quoted(t: Seq<char>) -> bool {
    t.len() >= 2 && ((t[0] == '"' && t[t.len() - 1] == '"') || (t[0] == '\'' && t[t.len() - 1]
        == '\''))
}

/// The value that a literal stands for. The readings are tried in this
/// order: boolean, duration, quoted string, integer, decimal; what fits none
/// is a string as it stands.
pub open spec fn value_of(s: Seq<char>) -> ValueModel {
    let t = trimmed(s);
    if same_ignoring_ascii_case(t, "true"@) {
        ValueModel::Bool(true)
    } else if same_ignoring_ascii_case(t, "false"@) {
        ValueModel::Bool(false)
    } else {
        match duration_of(t) {
            Some(ms) => ValueModel::Duration(ms),
            None => if is_quoted(t) {
                ValueModel::Text(t.subrange(1, t.len() - 1))
            } else {
                match integer_of(t) {
                    Some(n) if i64::MIN <= n <= i64::MAX => ValueModel::Int(n as i64),
                    _ => match micros_of(t) {
                        Some(d) if i64::MIN <= d <= i64::MAX => ValueModel::Decimal(d as i64),
                        _ => ValueModel::Text(t),
                    },
                }
            },
        }
    }
}

/// The condition that a text without logical operators stands for, if an
/// operator occurs in it: the field before the operator, the value behind.
pub open spec fn condition_of(s: Seq<char>) -> Option<ConditionModel> {
    let t = trimmed(s);
    match first_operator(t, 0) {
        None => None,
        Some(site) => {
            let operator = operator_at(site.spelling);
            let field = trimmed(t.subrange(0, site.position));
            let rest = t.subrange(site.position + operator_text(site.spelling).len(), t.len() as int);
            Some(
                ConditionModel {
                    field,
                    operator,
                    value: if operator == Operator::Exists {
                        ValueModel::Bool(true)
                    } else {
                        value_of(rest)
                    },
                },
            )
        },
    }
}

/// The parts of `s[start..]` split at each doubled `op` outside
/// parentheses, each part trimmed; `i` is the reading position and `depth`
/// the number of parentheses open there. A part that would begin at the end
/// of the text is left out.
pub open spec fn split_from(s: Seq<char>, op: char, i: int, depth: int, start: int) -> Seq<
    Seq<char>,
>
    decreases s.len() - i,
{
    if i < 0 || i >= s.len() {
        if 0 <= start < s.len() {
            seq![trimmed(s.subrange(start, s.len() as int))]
        } else {
            Seq::empty()
        }
    } else if s[i] == '(' {
        split_from(s, op, i + 1, depth + 1, start)
    } else if s[i] == ')' {
        split_from(s, op, i + 1, depth - 1, start)
    } else if s[i] == op && depth == 0 && i + 1 < s.len() && s[i + 1] == op {
        seq![trimmed(s.subrange(start, i))] + split_from(s, op, i + 2, depth, i + 2)
    } else {
        split_from(s, op, i + 1, depth, start)
    }
}

/// The parts of a text split at a logical operator, if there are at least
/// two.
pub open spec fn split_at_logical(s: Seq<char>, op: char) -> Option<Seq<Seq<char>>> {
    let parts = split_from(s, op, 0, 0, 0);
    if parts.len() > 1 {
        Some(parts)
    } else {
        None
    }
}

/// The error for a text in which no operator occurs.
pub open spec fn no_operator_error(s: Seq<char>) -> ErrorText {
    ErrorText::InvalidMatch { expr: trimmed(s), reason: "no valid operator found"@ }
}

/// What parsing yields.
pub enum Parsed {
    Expr(ExprModel),
    Failure(ErrorText),
}

/// What parsing a list of parts yields.
pub enum ParsedParts {
    Exprs(Seq<ExprModel>),
    Failure(ErrorText),
}

/// The expression that a text stands for. The text is trimmed; `true` in
/// any case is the expression that always matches; else the text is split
/// at `||`, else at `&&`, each outside parentheses, and the parts are parsed
/// in turn; what cannot be split is a single condition.
pub open spec fn parse_text(s: Seq<char>) -> Parsed
    decreases s.len(), 1nat, 0nat,
{
    let t = trimmed(s);
    if same_ignoring_ascii_case(t, "true"@) {
        Parsed::Expr(ExprModel::True)
    } else if t.len() > s.len() {
        Parsed::Failure(no_operator_error(s))
    } else {
        match split_at_logical(t, '|') {
            Some(parts) => match parse_parts(parts, t.len(), 0) {
                ParsedParts::Exprs(es) => Parsed::Expr(ExprModel::Or(es)),
                ParsedParts::Failure(e) => Parsed::Failure(e),
            },
            None => match split_at_logical(t, '&') {
                Some(parts) => match parse_parts(parts, t.len(), 0) {
                    ParsedParts::Exprs(es) => Parsed::Expr(ExprModel::And(es)),
                    ParsedParts::Failure(e) => Parsed::Failure(e),
                },
                None => match condition_of(t) {
                    Some(c) => Parsed::Expr(ExprModel::Condition(c)),
                    None => Parsed::Failure(no_operator_error(t)),
                },
            },
        }
    }
}

/// The expressions that the parts from position `k` on stand for, or the
/// error of the first part that has one. Every part of a split is shorter
/// than the text that was split, `limit`.
pub open spec fn parse_parts(parts: Seq<Seq<char>>, limit: nat, k: nat) -> ParsedParts
    decreases limit, 0nat, parts.len() - k,
{
    if k >= parts.len() {
        ParsedParts::Exprs(Seq::empty())
    } else if parts[k as int].len() >= limit {
        ParsedParts::Failure(no_operator_error(parts[k as int]))
    } else {
        match parse_text(parts[k as int]) {
            Parsed::Failure(e) => ParsedParts::Failure(e),
            Parsed::Expr(first) => match parse_parts(parts, limit, k + 1) {
                ParsedParts::Failure(e) => ParsedParts::Failure(e),
                ParsedParts::Exprs(rest) => ParsedParts::Exprs(seq![first] + rest),
            },
        }
    }
}

/// The texts that the vectors hold.
pub open spec fn texts_of(parts: Seq<Vec<char>>) -> Seq<Seq<char>> {
    Seq::new(parts.len(), |k: int| parts[k]@)
}

/// The expression trees of the expressions.
pub open spec fn models_of(exprs: Seq<MatchExpr>) -> Seq<ExprModel> {
    Seq::new(exprs.len(), |k: int| exprs[k].model())
}

/// Parts of a split leave out at least the operator that split them.
pub proof fn lemma_split_parts_shorter(s: Seq<char>, op: char, i: int, depth: int, start: int)
    requires
        0 <= start <= i <= s.len(),
    ensures
        forall|k: int|
            0 <= k < split_from(s, op, i, depth, start).len() ==> (#[trigger] split_from(
                s,
                op,
                i,
                depth,
                start,
            )[k]).len() <= s.len() - start,
        split_from(s, op, i, depth, start).len() >= 2 ==> forall|k: int|
            0 <= k < split_from(s, op, i, depth, start).len() ==> (#[trigger] split_from(
                s,
                op,
                i,
                depth,
                start,
            )[k]).len() + 2 <= s.len() - start,
    decreases s.len() - i,
{
    if i >= s.len() {
        if start < s.len() {
            lemma_trim_bounds(s.subrange(start, s.len() as int));
        }
    } else if s[i] == '(' {
        lemma_split_parts_shorter(s, op, i + 1, depth + 1, start);
    } else if s[i] == ')' {
        lemma_split_parts_shorter(s, op, i + 1, depth - 1, start);
    } else if s[i] == op && depth == 0 && i + 1 < s.len() && s[i + 1] == op {
        lemma_split_parts_shorter(s, op, i + 2, depth, i + 2);
        lemma_trim_bounds(s.subrange(start, i));
        let rest = split_from(s, op, i + 2, depth, i + 2);
        let all = split_from(s, op, i, depth, start);
        assert(all == seq![trimmed(s.subrange(start, i))] + rest);
        assert forall|k: int| 0 <= k < all.len() implies (#[trigger] all[k]).len() + 2 <= s.len()
            - start by {
            if k > 0 {
                assert(all[k] == rest[k - 1]);
            }
        }
    } else {
        lemma_split_parts_shorter(s, op, i + 1, depth, start);
    }
}

/// Splits a text at each doubled `op` (`|` or `&`) that stands outside
/// parentheses and trims the parts; `None` unless there are at least two.
pub fn split_logical(input: &[char], op: char) -> (r: Option<Vec<Vec<char>>>)
    ensures
        match r {
            Some(parts) => split_at_logical(input@, op) == Some(texts_of(parts@)),
            None => split_at_logical(input@, op) is None,
        },
{
    let n = input.len();
    let mut parts: Vec<Vec<char>> = Vec::new();
    let mut depth: i128 = 0;
    let mut start: usize = 0;
    let mut i: usize = 0;
    while i < n
        invariant
            n == input.len(),
            start <= i <= n,
            -(i as int) <= depth <= i as int,
            texts_of(parts@) + split_from(input@, op, i as int, depth as int, start as int)
                == split_from(input@, op, 0, 0, 0),
        decreases n - i,
    {
        let c = input[i];
        if c == '(' {
            depth = depth + 1;
            i += 1;
        } else if c == ')' {
            depth = depth - 1;
            i += 1;
        } else if c == op && depth == 0 && i + 1 < n && input[i + 1] == op {
            let part = slice_chars(input, start, i);
            let ghost before = texts_of(parts@);
            let ghost rest = split_from(input@, op, i + 2, depth as int, i + 2);
            parts.push(trim_chars(part.as_slice()));
            proof {
                assert(texts_of(parts@) == before + seq![trimmed(input@.subrange(start as int, i as int))]);
                assert(before + (seq![trimmed(input@.subrange(start as int, i as int))] + rest) == (
                before + seq![trimmed(input@.subrange(start as int, i as int))]) + rest);
            }
            i += 2;
            start = i;
        } else {
            i += 1;
        }
    }
    if start < n {
        let part = slice_chars(input, start, n);
        let ghost before = texts_of(parts@);
        parts.push(trim_chars(part.as_slice()));
        assert(texts_of(parts@) == before + seq![trimmed(input@.subrange(start as int, n as int))]);
    } else {
        assert(texts_of(parts@) + Seq::<Seq<char>>::empty() == texts_of(parts@));
    }
    if parts.len() > 1 {
        Some(parts)
    } else {
        None
    }
}

/// The operator that a spelling stands for.
pub fn operator_from_str(s: &[char]) -> (r: Option<Operator>)
    ensures
        r == if s@ == "=="@ || s@ == "="@ {
            Some(Operator::Eq)
        } else if s@ == "!="@ || s@ == "<>"@ {
            Some(Operator::Ne)
        } else if s@ == ">"@ {
            Some(Operator::Gt)
        } else if s@ == ">="@ {
            Some(Operator::Ge)
        } else if s@ == "<"@ {
            Some(Operator::Lt)
        } else if s@ == "<="@ {
            Some(Operator::Le)
        } else if s@ == "contains"@ {
            Some(Operator::Contains)
        } else if s@ == "starts-with"@ || s@ == "startsWith"@ {
            Some(Operator::StartsWith)
        } else if s@ == "exists"@ {
            Some(Operator::Exists)
        } else {
            None
        },
{
    if is_text(s, "==") || is_text(s, "=") {
        Some(Operator::Eq)
    } else if is_text(s, "!=") || is_text(s, "<>") {
        Some(Operator::Ne)
    } else if is_text(s, ">") {
        Some(Operator::Gt)
    } else if is_text(s, ">=") {
        Some(Operator::Ge)
    } else if is_text(s, "<") {
        Some(Operator::Lt)
    } else if is_text(s, "<=") {
        Some(Operator::Le)
    } else if is_text(s, "contains") {
        Some(Operator::Contains)
    } else if is_text(s, "starts-with") || is_text(s, "startsWith") {
        Some(Operator::StartsWith)
    } else if is_text(s, "exists") {
        Some(Operator::Exists)
    } else {
        None
    }
}

impl Operator {
    /// The operator that a spelling stands for.
    pub fn from_str(s: &str) -> (r: Option<Self>)
        ensures
            r == if s@ == "=="@ || s@ == "="@ {
                Some(Operator::Eq)
            } else if s@ == "!="@ || s@ == "<>"@ {
                Some(Operator::Ne)
            } else if s@ == ">"@ {
                Some(Operator::Gt)
            } else if s@ == ">="@ {
                Some(Operator::Ge)
            } else if s@ == "<"@ {
                Some(Operator::Lt)
            } else if s@ == "<="@ {
                Some(Operator::Le)
            } else if s@ == "contains"@ {
                Some(Operator::Contains)
            } else if s@ == "starts-with"@ || s@ == "startsWith"@ {
                Some(Operator::StartsWith)
            } else if s@ == "exists"@ {
                Some(Operator::Exists)
            } else {
                None
            },
    {
        let chars = chars_of(s);
        operator_from_str(chars.as_slice())
    }
}

/// Whether the characters spell the given text.
pub fn is_text(s: &[char], text: &str) -> (r: bool)
    ensures
        r == (s@ == text@),
{
    let t = chars_of(text);
    crate::text::chars_eq(s, t.as_slice())
}

/// The spelling at position `k` of the probing order.
fn operator_spelling(k: usize) -> (r: Vec<char>)
    requires
        k < OPERATOR_SPELLINGS,
    ensures
        r@ == operator_text(k as int),
{
    if k == 0 {
        chars_of(">=")
    } else if k == 1 {
        chars_of("<=")
    } else if k == 2 {
        chars_of("!=")
    } else if k == 3 {
        chars_of("==")
    } else if k == 4 {
        chars_of(">")
    } else if k == 5 {
        chars_of("<")
    } else if k == 6 {
        chars_of("=")
    } else if k == 7 {
        chars_of("contains")
    } else if k == 8 {
        chars_of("starts-with")
    } else {
        chars_of("exists")
    }
}

/// The operator at position `k` of the probing order.
fn operator_for(k: usize) -> (r: Operator)
    requires
        k < OPERATOR_SPELLINGS,
    ensures
        r == operator_at(k as int),
{
    if k == 0 {
        Operator::Ge
    } else if k == 1 {
        Operator::Le
    } else if k == 2 {
        Operator::Ne
    } else if k == 3 {
        Operator::Eq
    } else if k == 4 {
        Operator::Gt
    } else if k == 5 {
        Operator::Lt
    } else if k == 6 {
        Operator::Eq
    } else if k == 7 {
        Operator::Contains
    } else if k == 8 {
        Operator::StartsWith
    } else {
        Operator::Exists
    }
}

/// Reads a value literal.
pub fn parse_value(s: &[char]) -> (v: Value)
    ensures
        v@ == value_of(s@),
{
    let t = trim_chars(s);
    let t = t.as_slice();
    let yes = chars_of("true");
    let no = chars_of("false");
    if eq_ignore_ascii_case(t, yes.as_slice()) {
        return Value::Bool(true);
    }
    if eq_ignore_ascii_case(t, no.as_slice()) {
        return Value::Bool(false);
    }
    if let Some(ms) = parse_duration_value(t) {
        return Value::Duration(ms);
    }
    let n = t.len();
    if n >= 2 && ((t[0] == '"' && t[n - 1] == '"') || (t[0] == '\'' && t[n - 1] == '\'')) {
        let inner = slice_chars(t, 1, n - 1);
        return Value::String(string_of(inner.as_slice()));
    }
    if let Some(number) = parse_i64(t) {
        return Value::Int(number);
    }
    if let Some(decimal) = parse_decimal(t) {
        return Value::Decimal(decimal);
    }
    Value::String(string_of(t))
}

/// Reads a single condition such as `http.status >= 500`.
pub fn parse_condition(input: &[char]) -> (r: Result<Condition, Error>)
    ensures
        match r {
            Ok(c) => condition_of(input@) == Some(c@),
            Err(e) => condition_of(input@) is None && e@ == no_operator_error(input@),
        },
{
    let t = trim_chars(input);
    let t = t.as_slice();
    let n = t.len();
    let mut k: usize = 0;
    while k < OPERATOR_SPELLINGS
        invariant
            k <= OPERATOR_SPELLINGS,
            n == t@.len(),
            t@ == trimmed(input@),
            first_operator(t@, k as int) == first_operator(t@, 0),
        decreases OPERATOR_SPELLINGS - k,
    {
        let spelling = operator_spelling(k);
        if let Some(position) = find_chars(t, spelling.as_slice()) {
            let operator = operator_for(k);
            let head = slice_chars(t, 0, position);
            let field = trim_chars(head.as_slice());
            let field = string_of(field.as_slice());
            let rest = slice_chars(t, position + spelling.len(), n);
            let value = match operator {
                Operator::Exists => Value::Bool(true),
                _ => parse_value(rest.as_slice()),
            };
            return Ok(Condition { field, operator, value });
        }
        k += 1;
    }
    Err(
        Error::InvalidMatch {
            expr: string_of(t),
            reason: "no valid operator found".to_owned(),
        },
    )
}

/// `parts` put before what parsing the remaining parts yields.
pub open spec fn prepend(parts: Seq<ExprModel>, rest: ParsedParts) -> ParsedParts {
    match rest {
        ParsedParts::Exprs(es) => ParsedParts::Exprs(parts + es),
        ParsedParts::Failure(e) => ParsedParts::Failure(e),
    }
}

impl MatchExpr {
    /// Parses a match expression.
    pub fn parse(input: &str) -> (r: Result<Self, Error>)
        ensures
            match r {
                Ok(e) => parse_text(input@) == Parsed::Expr(e.model()),
                Err(e) => parse_text(input@) == Parsed::Failure(e@),
            },
    {
        let chars = chars_of(input);
        parse_chars(chars.as_slice())
    }
}

/// Parses a match expression given as characters.
pub fn parse_chars(input: &[char]) -> (r: Result<MatchExpr, Error>)
    ensures
        match r {
            Ok(e) => parse_text(input@) == Parsed::Expr(e.model()),
            Err(e) => parse_text(input@) == Parsed::Failure(e@),
        },
    decreases input@.len(), 1nat, 0nat,
{
    let t = trim_chars(input);
    let t = t.as_slice();
    proof {
        lemma_trim_bounds(input@);
        lemma_split_parts_shorter(t@, '|', 0, 0, 0);
        lemma_split_parts_shorter(t@, '&', 0, 0, 0);
    }
    let yes = chars_of("true");
    if eq_ignore_ascii_case(t, yes.as_slice()) {
        return Ok(MatchExpr::True);
    }
    if let Some(parts) = split_logical(t, '|') {
        proof {
            let texts = split_from(t@, '|', 0, 0, 0);
            assert(texts == texts_of(parts@));
            assert forall|k: int| 0 <= k < parts@.len() implies (#[trigger] parts@[k])@.len()
                < t@.len() by {
                assert(texts[k] == parts@[k]@);
            }
        }
        return match parse_all(&parts, t.len()) {
            Ok(exprs) => {
                assert(MatchExpr::Or(exprs).model() == ExprModel::Or(models_of(exprs@))) by {
                    assert(MatchExpr::Or(exprs).model()->Or_0 =~= models_of(exprs@));
                }
                Ok(MatchExpr::Or(exprs))
            },
            Err(e) => Err(e),
        };
    }
    if let Some(parts) = split_logical(t, '&') {
        proof {
            let texts = split_from(t@, '&', 0, 0, 0);
            assert(texts == texts_of(parts@));
            assert forall|k: int| 0 <= k < parts@.len() implies (#[trigger] parts@[k])@.len()
                < t@.len() by {
                assert(texts[k] == parts@[k]@);
            }
        }
        return match parse_all(&parts, t.len()) {
            Ok(exprs) => {
                assert(MatchExpr::And(exprs).model() == ExprModel::And(models_of(exprs@))) by {
                    assert(MatchExpr::And(exprs).model()->And_0 =~= models_of(exprs@));
                }
                Ok(MatchExpr::And(exprs))
            },
            Err(e) => Err(e),
        };
    }
    proof {
        lemma_trim_idempotent(input@);
    }
    match parse_condition(t) {
        Ok(c) => Ok(MatchExpr::Condition(c)),
        Err(e) => Err(e),
    }
}

/// Parses the parts of a split in turn and stops at the first error.
fn parse_all(parts: &Vec<Vec<char>>, limit: usize) -> (r: Result<Vec<MatchExpr>, Error>)
    requires
        forall|k: int| 0 <= k < parts@.len() ==> (#[trigger] parts@[k])@.len() < limit,
    ensures
        match r {
            Ok(exprs) => parse_parts(texts_of(parts@), limit as nat, 0) == ParsedParts::Exprs(
                models_of(exprs@),
            ),
            Err(e) => parse_parts(texts_of(parts@), limit as nat, 0) == ParsedParts::Failure(e@),
        },
    decreases limit, 0nat, parts@.len(),
{
    let ghost texts = texts_of(parts@);
    let mut exprs: Vec<MatchExpr> = Vec::new();
    let mut k: usize = 0;
    while k < parts.len()
        invariant
            k <= parts@.len(),
            texts == texts_of(parts@),
            forall|j: int| 0 <= j < parts@.len() ==> (#[trigger] parts@[j])@.len() < limit,
            prepend(models_of(exprs@), parse_parts(texts, limit as nat, k as nat)) == parse_parts(
                texts,
                limit as nat,
                0,
            ),
        decreases parts.len() - k,
    {
        assert(texts[k as int] == parts@[k as int]@);
        match parse_chars(parts[k].as_slice()) {
            Ok(e) => {
                let ghost before = models_of(exprs@);
                let ghost first = e.model();
                exprs.push(e);
                proof {
                    assert(models_of(exprs@) == before + seq![first]);
                    match parse_parts(texts, limit as nat, (k + 1) as nat) {
                        ParsedParts::Exprs(rest) => {
                            assert(before + (seq![first] + rest) == (before + seq![first]) + rest);
                        },
                        ParsedParts::Failure(_) => {},
                    }
                }
            },
            Err(e) => {
                return Err(e);
            },
        }
        k += 1;
    }
    assert(models_of(exprs@) + Seq::<ExprModel>::empty() == models_of(exprs@));
    Ok(exprs)
}

/// Trimming a trimmed text changes nothing.
pub proof fn lemma_trim_idempotent(s: Seq<char>)
    ensures
        trimmed(trimmed(s)) == trimmed(s),
{
    lemma_trim_bounds(s);
    crate::text::lemma_trimmed_ends(s);
    let t = trimmed(s);
    if t.len() > 0 {
        assert(crate::text::skip_spaces(t, 0) == 0);
        assert(crate::text::drop_spaces(t, 0, t.len() as int) == t.len());
        assert(t.subrange(0, t.len() as int) == t);
    } else {
        assert(crate::text::skip_spaces(t, 0) == 0);
        assert(crate::text::drop_spaces(t, 0, 0) == 0);
        assert(t.subrange(0, 0) == t);
    }
}

/// What a comparison is made on. Numbers are counted in millionths, so
/// that whole numbers, decimals, milliseconds and nanoseconds compare
/// exactly.
pub enum Operand {
    Number(int),
    Text(Seq<char>),
    Flag(bool),
    Missing,
}

/// What a field of a trace holds. `status`, `duration`, `service`,
/// `endpoint`, `error` and `is_error` are the trace's own fields; any other
/// name is looked up among the attributes. A duration is counted in
/// milliseconds.
pub open spec fn field_operand(field: Seq<char>, trace: Trace) -> Operand {
    if field == "status"@ {
        match trace.status {
            Some(status) => Operand::Number(status as int * 1_000_000),
            None => Operand::Missing,
        }
    } else if field == "duration"@ {
        Operand::Number(nanos_of(trace.duration) as int)
    } else if field == "service"@ {
        match trace.service {
            Some(service) => Operand::Text(service@),
            None => Operand::Missing,
        }
    } else if field == "endpoint"@ {
        match trace.endpoint {
            Some(endpoint) => Operand::Text(endpoint@),
            None => Operand::Missing,
        }
    } else if field == "error"@ || field == "is_error"@ {
        Operand::Flag(trace.is_error)
    } else {
        match trace_attribute_index(trace.attributes@, field) {
            Some(i) => Operand::Text(trace.attributes@[i].value@),
            None => Operand::Missing,
        }
    }
}

/// What a value of a condition holds. A duration is counted in
/// milliseconds, like a number without unit.
pub open spec fn value_operand(v: ValueModel) -> Operand {
    match v {
        ValueModel::Text(s) => Operand::Text(s),
        ValueModel::Int(n) => Operand::Number(n as int * 1_000_000),
        ValueModel::Decimal(d) => Operand::Number(d as int),
        ValueModel::Bool(b) => Operand::Flag(b),
        ValueModel::Duration(ms) => Operand::Number(ms as int * 1_000_000),
    }
}

/// A comparison of two numbers.
pub open spec fn compare_numbers(op: Operator, a: int, b: int) -> bool {
    match op {
        Operator::Eq => a == b,
        Operator::Ne => a != b,
        Operator::Gt => a > b,
        Operator::Ge => a >= b,
        Operator::Lt => a < b,
        Operator::Le => a <= b,
        _ => false,
    }
}

/// A comparison of two texts.
pub open spec fn compare_texts(op: Operator, a: Seq<char>, b: Seq<char>) -> bool {
    match op {
        Operator::Eq => a == b,
        Operator::Ne => a != b,
        Operator::Contains => has_substring(a, b),
        Operator::StartsWith => has_prefix(a, b),
        _ => false,
    }
}

/// A comparison of two flags.
pub open spec fn compare_flags(op: Operator, a: bool, b: bool) -> bool {
    match op {
        Operator::Eq => a == b,
        Operator::Ne => a != b,
        _ => false,
    }
}

/// A comparison by the kinds of its operands: a text that is held against
/// a number is read as a decimal; operands that do not fit each other, and
/// a missing field, never match.
pub open spec fn compare(op: Operator, left: Operand, right: Operand) -> bool {
    match (left, right) {
        (Operand::Number(a), Operand::Number(b)) => compare_numbers(op, a, b),
        (Operand::Text(a), Operand::Text(b)) => compare_texts(op, a, b),
        (Operand::Flag(a), Operand::Flag(b)) => compare_flags(op, a, b),
        (Operand::Text(a), Operand::Number(b)) => match micros_of(trimmed(a)) {
            Some(v) => compare_numbers(op, v, b),
            None => false,
        },
        (Operand::Number(a), Operand::Text(b)) => match micros_of(trimmed(b)) {
            Some(v) => compare_numbers(op, a, v),
            None => false,
        },
        _ => false,
    }
}

/// Whether a condition holds of a trace.
pub open spec fn condition_holds(c: ConditionModel, trace: Trace) -> bool {
    let left = field_operand(c.field, trace);
    if c.operator == Operator::Exists {
        !(left is Missing)
    } else {
        compare(c.operator, left, value_operand(c.value))
    }
}

/// Whether an expression matches a trace: `True` always, a condition by
/// its comparison, `And` when every part matches, `Or` when some part does.
pub open spec fn holds(e: ExprModel, trace: Trace) -> bool
    decreases e, 0nat,
{
    match e {
        ExprModel::True => true,
        ExprModel::Condition(c) => condition_holds(c, trace),
        ExprModel::And(parts) => all_hold(parts, trace, parts.len()),
        ExprModel::Or(parts) => some_holds(parts, trace, parts.len()),
    }
}

/// The condition that a duration is greater than so many milliseconds.
pub open spec fn lasts_longer_than(ms: u64) -> ExprModel {
    ExprModel::Condition(
        ConditionModel {
            field: "duration"@,
            operator: Operator::Gt,
            value: ValueModel::Duration(ms),
        },
    )
}

/// Greater-than is strict: the condition that a duration is greater than
/// so many milliseconds matches a trace exactly if the trace lasted
/// longer, so that a trace of just that duration does not match and one
/// of a millisecond more does.
pub proof fn greater_than_is_strict(trace: Trace, ms: u64)
    ensures
        holds(lasts_longer_than(ms), trace) <==> nanos_of(trace.duration) > ms * 1_000_000,
        nanos_of(trace.duration) == ms * 1_000_000 ==> !holds(lasts_longer_than(ms), trace),
        nanos_of(trace.duration) == (ms + 1) * 1_000_000 ==> holds(lasts_longer_than(ms), trace),
{
    reveal_strlit("duration");
    reveal_strlit("status");
    assert("duration"@.len() == 8);
    assert("status"@.len() == 6);
    assert("duration"@ != "status"@);
}

/// Whether each of the first `n` parts matches the trace.
pub open spec fn all_hold(parts: Seq<ExprModel>, trace: Trace, n: nat) -> bool
    decreases parts, n,
{
    if n == 0 || n > parts.len() {
        true
    } else {
        all_hold(parts, trace, (n - 1) as nat) && holds(parts[n - 1], trace)
    }
}

/// Whether one of the first `n` parts matches the trace.
pub open spec fn some_holds(parts: Seq<ExprModel>, trace: Trace, n: nat) -> bool
    decreases parts, n,
{
    if n == 0 || n > parts.len() {
        false
    } else {
        some_holds(parts, trace, (n - 1) as nat) || holds(parts[n - 1], trace)
    }
}

/// The parts of `And` and `Or` are read as "every" and "some".
pub proof fn lemma_parts_hold(parts: Seq<ExprModel>, trace: Trace, n: nat)
    requires
        n <= parts.len(),
    ensures
        all_hold(parts, trace, n) <==> forall|i: int| 0 <= i < n ==> holds(#[trigger] parts[i], trace),
        some_holds(parts, trace, n) <==> exists|i: int| 0 <= i < n && holds(#[trigger] parts[i], trace),
    decreases n,
{
    if n > 0 {
        lemma_parts_hold(parts, trace, (n - 1) as nat);
        if some_holds(parts, trace, n) {
            if holds(parts[n - 1], trace) {
            } else {
                let i = choose|i: int| 0 <= i < n - 1 && holds(#[trigger] parts[i], trace);
                assert(0 <= i < n && holds(parts[i], trace));
            }
        }
    }
}

/// An operand as the evaluation holds it; a number read from a text is
/// held as [`tracks`] has it.
enum Held {
    Number(i128),
    Text(Vec<char>),
    Flag(bool),
    Missing,
}

impl Held {
    spec fn stands_for(&self, operand: Operand) -> bool {
        match (self, operand) {
            (Held::Number(a), Operand::Number(b)) => *a == b && -micros_limit() < b
                < micros_limit(),
            (Held::Text(a), Operand::Text(b)) => a@ == b,
            (Held::Flag(a), Operand::Flag(b)) => *a == b,
            (Held::Missing, Operand::Missing) => true,
            _ => false,
        }
    }
}

/// What a field of a trace holds.
fn read_field(field: &str, trace: &Trace) -> (r: Held)
    ensures
        r.stands_for(field_operand(field@, *trace)),
{
    if str_eq(field, "status") {
        match trace.status {
            Some(status) => Held::Number(status as i128 * 1_000_000),
            None => Held::Missing,
        }
    } else if str_eq(field, "duration") {
        Held::Number(trace.duration.as_nanos() as i128)
    } else if str_eq(field, "service") {
        match &trace.service {
            Some(service) => Held::Text(chars_of(service.as_str())),
            None => Held::Missing,
        }
    } else if str_eq(field, "endpoint") {
        match &trace.endpoint {
            Some(endpoint) => Held::Text(chars_of(endpoint.as_str())),
            None => Held::Missing,
        }
    } else if str_eq(field, "error") || str_eq(field, "is_error") {
        Held::Flag(trace.is_error)
    } else {
        match find_trace_attribute(&trace.attributes, field) {
            Some(i) => Held::Text(chars_of(trace.attributes[i].value.as_str())),
            None => Held::Missing,
        }
    }
}

/// What a value of a condition holds.
fn read_value(value: &Value) -> (r: Held)
    ensures
        r.stands_for(value_operand(value@)),
{
    match value {
        Value::String(s) => Held::Text(chars_of(s.as_str())),
        Value::Int(n) => Held::Number(*n as i128 * 1_000_000),
        Value::Decimal(d) => Held::Number(*d as i128),
        Value::Bool(b) => Held::Flag(*b),
        Value::Duration(ms) => Held::Number(*ms as i128 * 1_000_000),
    }
}

/// A comparison of two numbers, one of which may be held as [`tracks`]
/// has it.
fn numbers_match(op: Operator, a: i128, b: i128) -> (r: bool)
    ensures
        r == compare_numbers(op, a as int, b as int),
{
    match op {
        Operator::Eq => a == b,
        Operator::Ne => a != b,
        Operator::Gt => a > b,
        Operator::Ge => a >= b,
        Operator::Lt => a < b,
        Operator::Le => a <= b,
        _ => false,
    }
}

/// Comparing with a tracked number gives what the number itself would.
proof fn lemma_tracked_comparison(op: Operator, key: i128, v: int, b: int)
    requires
        tracks(key, v),
        -micros_limit() < b < micros_limit(),
    ensures
        compare_numbers(op, key as int, b) == compare_numbers(op, v, b),
        compare_numbers(op, b, key as int) == compare_numbers(op, b, v),
{
}

/// A comparison of two operands.
fn operands_match(
    op: Operator,
    left: &Held,
    right: &Held,
    Ghost(l): Ghost<Operand>,
    Ghost(v): Ghost<Operand>,
) -> (r: bool)
    requires
        left.stands_for(l),
        right.stands_for(v),
    ensures
        r == compare(op, l, v),
{
    match (left, right) {
        (Held::Number(a), Held::Number(b)) => numbers_match(op, *a, *b),
        (Held::Text(a), Held::Text(b)) => match op {
            Operator::Eq => chars_eq(a.as_slice(), b.as_slice()),
            Operator::Ne => !chars_eq(a.as_slice(), b.as_slice()),
            Operator::Contains => contains_chars(a.as_slice(), b.as_slice()),
            Operator::StartsWith => starts_with_chars(a.as_slice(), b.as_slice()),
            _ => false,
        },
        (Held::Flag(a), Held::Flag(b)) => match op {
            Operator::Eq => *a == *b,
            Operator::Ne => *a != *b,
            _ => false,
        },
        (Held::Text(a), Held::Number(b)) => {
            let t = trim_chars(a.as_slice());
            match read_comparable(t.as_slice()) {
                Some(key) => {
                    proof {
                        lemma_tracked_comparison(op, key, micros_of(t@)->0, *b as int);
                    }
                    numbers_match(op, key, *b)
                },
                None => false,
            }
        },
        (Held::Number(a), Held::Text(b)) => {
            let t = trim_chars(b.as_slice());
            match read_comparable(t.as_slice()) {
                Some(key) => {
                    proof {
                        lemma_tracked_comparison(op, key, micros_of(t@)->0, *a as int);
                    }
                    numbers_match(op, *a, key)
                },
                None => false,
            }
        },
        _ => false,
    }
}

impl Condition {
    /// Whether the condition holds of a trace.
    pub fn evaluate(&self, trace: &Trace) -> (r: bool)
        ensures
            r == condition_holds(self@, *trace),
    {
        let left = read_field(self.field.as_str(), trace);
        match self.operator {
            Operator::Exists => match left {
                Held::Missing => false,
                _ => true,
            },
            _ => {
                let right = read_value(&self.value);
                operands_match(
                    self.operator,
                    &left,
                    &right,
                    Ghost(field_operand(self.field@, *trace)),
                    Ghost(value_operand(self.value@)),
                )
            },
        }
    }
}

impl MatchExpr {
    /// Whether the expression matches a trace: `True` always, a condition
    /// by its comparison, `And` when every part matches, `Or` when some
    /// part does.
    pub fn evaluate(&self, trace: &Trace) -> (r: bool)
        ensures
            r == holds(self.model(), *trace),
        decreases self,
    {
        match self {
            MatchExpr::True => true,
            MatchExpr::Condition(c) => c.evaluate(trace),
            MatchExpr::And(parts) => {
                let ghost models = models_of(parts@);
                assert(self.model() == ExprModel::And(models)) by {
                    assert(self.model()->And_0 =~= models);
                }
                let mut i: usize = 0;
                while i < parts.len()
                    invariant
                        i <= parts@.len(),
                        models == models_of(parts@),
                        self == MatchExpr::And(*parts),
                        self.model() == ExprModel::And(models),
                        all_hold(models, *trace, i as nat),
                    decreases parts.len() - i,
                {
                    if !parts[i].evaluate(trace) {
                        proof {
                            lemma_parts_hold(models, *trace, models.len());
                            assert(!holds(models[i as int], *trace));
                        }
                        return false;
                    }
                    i += 1;
                }
                true
            },
            MatchExpr::Or(parts) => {
                let ghost models = models_of(parts@);
                assert(self.model() == ExprModel::Or(models)) by {
                    assert(self.model()->Or_0 =~= models);
                }
                let mut i: usize = 0;
                while i < parts.len()
                    invariant
                        i <= parts@.len(),
                        models == models_of(parts@),
                        self == MatchExpr::Or(*parts),
                        self.model() == ExprModel::Or(models),
                        !some_holds(models, *trace, i as nat),
                    decreases parts.len() - i,
                {
                    if parts[i].evaluate(trace) {
                        proof {
                            lemma_parts_hold(models, *trace, models.len());
                            assert(holds(models[i as int], *trace));
                        }
                        return true;
                    }
                    i += 1;
                }
                false
            },
        }
    }
}

/// The spelling of an operator in a lowered condition.
pub open spec fn operator_symbol(op: Operator) -> Seq<char> {
    match op {
        Operator::Eq => "="@,
        Operator::Ne => "!="@,
        Operator::Gt => ">"@,
        Operator::Ge => ">="@,
        Operator::Lt => "<"@,
        Operator::Le => "<="@,
        Operator::Contains => "contains"@,
        Operator::StartsWith => "starts-with"@,
        Operator::Exists => "exists"@,
    }
}

/// Millionths rounded to the nearest whole number, halves away from zero.
pub open spec fn rounded_units(d: i64) -> i64 {
    if d >= 0 {
        ((d + 500_000) / 1_000_000) as i64
    } else {
        (-((-d + 500_000) / 1_000_000)) as i64
    }
}

/// A 64-bit count read as a signed number of the same bits.
pub open spec fn as_signed(ms: u64) -> i64 {
    if ms <= i64::MAX {
        ms as i64
    } else {
        (ms - 0x1_0000_0000_0000_0000) as i64
    }
}

/// The value of a lowered condition: numbers are whole, a decimal is
/// rounded, a duration is its milliseconds.
pub open spec fn lowered_value(v: ValueModel) -> ConditionValueModel {
    match v {
        ValueModel::Text(s) => ConditionValueModel::Text(s),
        ValueModel::Int(n) => ConditionValueModel::Number(n),
        ValueModel::Decimal(d) => ConditionValueModel::Number(rounded_units(d)),
        ValueModel::Bool(b) => ConditionValueModel::Bool(b),
        ValueModel::Duration(ms) => ConditionValueModel::Number(as_signed(ms)),
    }
}

/// A condition in the lowered format; the field `duration` is called
/// `duration_ms` there.
pub open spec fn lowered_condition(c: ConditionModel) -> RefineryConditionModel {
    RefineryConditionModel {
        field: if c.field == "duration"@ {
            "duration_ms"@
        } else {
            c.field
        },
        operator: operator_symbol(c.operator),
        value: lowered_value(c.value),
    }
}

/// What lowering yields.
pub enum Lowered {
    Conditions(Seq<RefineryConditionModel>),
    Failure(ErrorText),
}

/// The error for an `Or`, which a flat set of conditions cannot express.
pub open spec fn or_unsupported() -> ErrorText {
    ErrorText::Unsupported(
        "OR expressions not supported in single rule, split into multiple rules"@,
    )
}

/// The flat conditions that an expression lowers to: none for `True`,
/// one for a condition, those of all parts in order for `And`; an `Or`
/// anywhere is an error.
pub open spec fn lowered(e: ExprModel) -> Lowered
    decreases e, 0nat,
{
    match e {
        ExprModel::True => Lowered::Conditions(Seq::empty()),
        ExprModel::Condition(c) => Lowered::Conditions(seq![lowered_condition(c)]),
        ExprModel::And(parts) => lowered_parts(parts, parts.len()),
        ExprModel::Or(_) => Lowered::Failure(or_unsupported()),
    }
}

/// The conditions of the first `n` parts in order, or the error of the
/// first part that has one.
pub open spec fn lowered_parts(parts: Seq<ExprModel>, n: nat) -> Lowered
    decreases parts, n,
{
    if n == 0 || n > parts.len() {
        Lowered::Conditions(Seq::empty())
    } else {
        match lowered_parts(parts, (n - 1) as nat) {
            Lowered::Failure(e) => Lowered::Failure(e),
            Lowered::Conditions(before) => match lowered(parts[n - 1]) {
                Lowered::Failure(e) => Lowered::Failure(e),
                Lowered::Conditions(more) => Lowered::Conditions(before + more),
            },
        }
    }
}

/// The lowered conditions, each by what it holds.
pub open spec fn condition_models(v: Seq<RefineryCondition>) -> Seq<RefineryConditionModel> {
    Seq::new(v.len(), |i: int| v[i]@)
}

impl Condition {
    /// The condition in the lowered format.
    pub fn to_refinery(&self) -> (r: RefineryCondition)
        ensures
            r@ == lowered_condition(self@),
    {
        let operator = match self.operator {
            Operator::Eq => "=",
            Operator::Ne => "!=",
            Operator::Gt => ">",
            Operator::Ge => ">=",
            Operator::Lt => "<",
            Operator::Le => "<=",
            Operator::Contains => "contains",
            Operator::StartsWith => "starts-with",
            Operator::Exists => "exists",
        };
        let value = match &self.value {
            Value::String(s) => ConditionValue::String(s.clone()),
            Value::Int(n) => ConditionValue::Number(*n),
            Value::Decimal(d) => {
                let d: i128 = *d as i128;
                let rounded: i128 = if d >= 0 {
                    (d + 500_000) / 1_000_000
                } else {
                    -((-d + 500_000) / 1_000_000)
                };
                ConditionValue::Number(rounded as i64)
            },
            Value::Bool(b) => ConditionValue::Bool(*b),
            Value::Duration(ms) => {
                let signed: i64 = if *ms <= 9_223_372_036_854_775_807 {
                    *ms as i64
                } else {
                    (*ms as i128 - 0x1_0000_0000_0000_0000) as i64
                };
                ConditionValue::Number(signed)
            },
        };
        let field = if str_eq(self.field.as_str(), "duration") {
            "duration_ms".to_owned()
        } else {
            self.field.clone()
        };
        RefineryCondition { field, operator: operator.to_owned(), value }
    }
}

impl MatchExpr {
    /// The flat conditions that the expression lowers to.
    pub fn to_refinery_conditions(&self) -> (r: Result<Vec<RefineryCondition>, Error>)
        ensures
            match r {
                Ok(conditions) => lowered(self.model()) == Lowered::Conditions(
                    condition_models(conditions@),
                ),
                Err(e) => lowered(self.model()) == Lowered::Failure(e@),
            },
        decreases self,
    {
        match self {
            MatchExpr::True => {
                let conditions: Vec<RefineryCondition> = Vec::new();
                assert(condition_models(conditions@) == Seq::<RefineryConditionModel>::empty());
                Ok(conditions)
            },
            MatchExpr::Condition(c) => {
                let mut conditions: Vec<RefineryCondition> = Vec::new();
                conditions.push(c.to_refinery());
                assert(condition_models(conditions@) == seq![lowered_condition(c@)]);
                Ok(conditions)
            },
            MatchExpr::And(parts) => {
                let ghost models = models_of(parts@);
                assert(self.model() == ExprModel::And(models)) by {
                    assert(self.model()->And_0 =~= models);
                }
                let mut conditions: Vec<RefineryCondition> = Vec::new();
                let mut i: usize = 0;
                assert(condition_models(conditions@) == Seq::<RefineryConditionModel>::empty());
                while i < parts.len()
                    invariant
                        i <= parts@.len(),
                        models == models_of(parts@),
                        self == MatchExpr::And(*parts),
                        self.model() == ExprModel::And(models),
                        lowered_parts(models, i as nat) == Lowered::Conditions(
                            condition_models(conditions@),
                        ),
                    decreases parts.len() - i,
                {
                    match parts[i].to_refinery_conditions() {
                        Ok(mut more) => {
                            let ghost before = condition_models(conditions@);
                            let ghost added = condition_models(more@);
                            conditions.append(&mut more);
                            assert(condition_models(conditions@) == before + added);
                        },
                        Err(e) => {
                            proof {
                                lemma_lowering_fails(models, (i + 1) as nat, models.len());
                            }
                            return Err(e);
                        },
                    }
                    i += 1;
                }
                Ok(conditions)
            },
            MatchExpr::Or(_) => Err(
                Error::Unsupported(
                    "OR expressions not supported in single rule, split into multiple rules".to_owned(),
                ),
            ),
        }
    }
}

/// Once a part fails to lower, the failure stands for all parts.
pub proof fn lemma_lowering_fails(parts: Seq<ExprModel>, k: nat, n: nat)
    requires
        k <= n <= parts.len(),
        lowered_parts(parts, k) is Failure,
    ensures
        lowered_parts(parts, n) == lowered_parts(parts, k),
    decreases n - k,
{
    if k < n {
        lemma_lowering_fails(parts, k, (n - 1) as nat);
    }
}

} // verus!
