//! The tabular text format of policies: a header that names the fields,
//! one value on each of the lines that follow, and the rules as rows of
//! comma-separated values.

use vstd::prelude::*;
use vstd::string::StringExecFns;
use crate::encoder::needs_quotes;
use crate::error::{Error, ErrorText};
use crate::literal::{micros_of, parse_u64, read_comparable, unsigned_of};
use crate::policy::{
    insert_by_priority, lemma_sort_ordered_is_identity, lemma_sort_orders, sort_by_priority, Action,
    Policy, Rule,
};
use crate::text::{
    append_chars, append_decimal, char_is_space, chars_eq, chars_of, decimal_text, digit_char,
    ends_with_chars, has_prefix, has_suffix, is_space, slice_chars, starts_with_chars, string_of,
    trim_chars, trimmed,
};

verus! {

/// The number of bytes that a character takes in UTF-8.
pub open spec fn utf8_width(c: char) -> nat {
    let u = c as u32;
    if u < 0x80 {
        1
    } else if u < 0x800 {
        2
    } else if u < 0x1_0000 {
        3
    } else {
        4
    }
}

/// The bytes of white space from position `i` up to the first character
/// that is none.
pub open spec fn indent_from(line: Seq<char>, i: int) -> nat
    decreases line.len() - i,
{
    if 0 <= i < line.len() && is_space(line[i]) {
        utf8_width(line[i]) + indent_from(line, i + 1)
    } else {
        0
    }
}

/// The indent of a line: the bytes of white space that it begins with.
pub open spec fn indent_of(line: Seq<char>) -> nat {
    indent_from(line, 0)
}

/// The indent of a line.
pub fn count_indent(line: &[char]) -> (n: u128)
    ensures
        n == indent_of(line@),
{
    let len = line.len();
    let mut bytes: u128 = 0;
    let mut i: usize = 0;
    while i < len && char_is_space(line[i])
        invariant
            len == line@.len(),
            i <= len,
            bytes + indent_from(line@, i as int) == indent_of(line@),
            bytes <= 4 * i,
        decreases len - i,
    {
        let u: u32 = line[i] as u32;
        let width: u128 = if u < 0x80 {
            1
        } else if u < 0x800 {
            2
        } else if u < 0x1_0000 {
            3
        } else {
            4
        };
        bytes = bytes + width;
        i += 1;
    }
    bytes
}

/// The values of a row from position `i` on, where `current` holds what
/// was read of the value at hand and `in_quotes` tells whether a quoted
/// part is open: a comma outside quotes ends a value; a double quote opens
/// or closes a quoted part, and doubled inside one it stands for itself.
/// Each value is trimmed.
pub open spec fn csv_from(row: Seq<char>, i: int, in_quotes: bool, current: Seq<char>) -> Seq<
    Seq<char>,
>
    decreases row.len() - i,
{
    if i < 0 || i >= row.len() {
        seq![trimmed(current)]
    } else if row[i] == '"' {
        if in_quotes {
            if i + 1 < row.len() && row[i + 1] == '"' {
                csv_from(row, i + 2, true, current.push('"'))
            } else {
                csv_from(row, i + 1, false, current)
            }
        } else {
            csv_from(row, i + 1, true, current)
        }
    } else if row[i] == ',' && !in_quotes {
        seq![trimmed(current)] + csv_from(row, i + 1, false, Seq::empty())
    } else {
        csv_from(row, i + 1, in_quotes, current.push(row[i]))
    }
}

/// The values of a row of comma-separated values.
pub open spec fn csv_values(row: Seq<char>) -> Seq<Seq<char>> {
    csv_from(row, 0, false, Seq::empty())
}

/// The texts that the strings hold.
pub open spec fn string_texts(v: Seq<String>) -> Seq<Seq<char>> {
    Seq::new(v.len(), |i: int| v[i]@)
}

/// Reads a row of comma-separated values, with quoted values.
pub fn parse_csv_row(row: &str) -> (values: Vec<String>)
    ensures
        string_texts(values@) == csv_values(row@),
{
    let chars = chars_of(row);
    let n = chars.len();
    let mut values: Vec<String> = Vec::new();
    let mut current: Vec<char> = Vec::new();
    let mut in_quotes = false;
    let mut i: usize = 0;
    assert(string_texts(values@) + csv_values(row@) == csv_values(row@));
    while i < n
        invariant
            n == chars@.len(),
            chars@ == row@,
            i <= n,
            string_texts(values@) + csv_from(chars@, i as int, in_quotes, current@) == csv_values(
                row@,
            ),
        decreases n - i,
    {
        let c = chars[i];
        if c == '"' {
            if in_quotes {
                if i + 1 < n && chars[i + 1] == '"' {
                    current.push('"');
                    i += 2;
                } else {
                    in_quotes = false;
                    i += 1;
                }
            } else {
                in_quotes = true;
                i += 1;
            }
        } else if c == ',' && !in_quotes {
            let ghost before = string_texts(values@);
            let ghost rest = csv_from(chars@, i + 1, false, Seq::empty());
            let value = trim_chars(current.as_slice());
            values.push(string_of(value.as_slice()));
            proof {
                assert(string_texts(values@) == before + seq![trimmed(current@)]);
                assert(before + (seq![trimmed(current@)] + rest) == (before + seq![
                    trimmed(current@),
                ]) + rest);
            }
            current = Vec::new();
            i += 1;
        } else {
            current.push(c);
            i += 1;
        }
    }
    let ghost before = string_texts(values@);
    let value = trim_chars(current.as_slice());
    values.push(string_of(value.as_slice()));
    assert(string_texts(values@) == before + seq![trimmed(current@)]);
    values
}

/// The text with each double quote doubled.
pub open spec fn quotes_doubled(s: Seq<char>) -> Seq<char>
    decreases s.len(),
{
    if s.len() == 0 {
        s
    } else if s.last() == '"' {
        quotes_doubled(s.drop_last()).push('"').push('"')
    } else {
        quotes_doubled(s.drop_last()).push(s.last())
    }
}

/// A value as it is written in a row: as it stands, or in double quotes
/// with its own double quotes doubled if it holds a comma, a double quote
/// or a line feed.
pub open spec fn csv_escaped(s: Seq<char>) -> Seq<char> {
    if needs_quotes(s) {
        seq!['"'] + quotes_doubled(s) + seq!['"']
    } else {
        s
    }
}

/// Escapes a value for a row of comma-separated values.
pub fn escape_csv_value(value: &str) -> (r: String)
    ensures
        r@ == csv_escaped(value@),
{
    let chars = chars_of(value);
    let n = chars.len();
    let mut quoted = false;
    let mut out: Vec<char> = Vec::new();
    out.push('"');
    let mut i: usize = 0;
    while i < n
        invariant
            n == chars@.len(),
            i <= n,
            quoted == needs_quotes(chars@.subrange(0, i as int)),
            out@ == seq!['"'] + quotes_doubled(chars@.subrange(0, i as int)),
        decreases n - i,
    {
        let c = chars[i];
        let ghost before = chars@.subrange(0, i as int);
        let ghost now = chars@.subrange(0, i as int + 1);
        proof {
            assert(now.drop_last() == before);
            assert(now.last() == c);
            if needs_quotes(before) {
                let k = choose|k: int|
                    0 <= k < before.len() && (#[trigger] before[k] == ',' || before[k] == '\n'
                        || before[k] == '"');
                assert(now[k] == before[k]);
            }
            if needs_quotes(now) && !(c == ',' || c == '\n' || c == '"') {
                let k = choose|k: int|
                    0 <= k < now.len() && (#[trigger] now[k] == ',' || now[k] == '\n' || now[k]
                        == '"');
                assert(before[k] == now[k]);
            }
            if c == ',' || c == '\n' || c == '"' {
                assert(now[i as int] == c);
            }
        }
        if c == ',' || c == '\n' || c == '"' {
            quoted = true;
        }
        if c == '"' {
            out.push('"');
            out.push('"');
        } else {
            out.push(c);
        }
        assert(out@ == seq!['"'] + quotes_doubled(now));
        i += 1;
    }
    assert(chars@.subrange(0, n as int) == chars@);
    if quoted {
        out.push('"');
        string_of(out.as_slice())
    } else {
        value.to_owned()
    }
}

/// The error of an action with the given reason.
pub open spec fn invalid_action(action: Seq<char>, reason: Seq<char>) -> ErrorText {
    ErrorText::InvalidAction { action, reason }
}

/// The action that a text stands for: `keep`, `drop`, or `sample(rate)`
/// with a decimal rate between 0 and 1, which is read in millionths.
pub open spec fn action_of(s: Seq<char>) -> Result<Action, ErrorText> {
    let t = trimmed(s);
    if t == "keep"@ {
        Ok(Action::Keep)
    } else if t == "drop"@ {
        Ok(Action::Drop)
    } else if has_prefix(t, "sample("@) && has_suffix(t, ")"@) {
        let rate = t.subrange(7, t.len() - 1);
        match micros_of(rate) {
            None => Err(invalid_action(t, "invalid sample rate: "@ + rate)),
            Some(v) => if 0 <= v <= 1_000_000 {
                Ok(Action::Sample(v as u32))
            } else {
                Err(invalid_action(t, "sample rate must be between 0.0 and 1.0"@))
            },
        }
    } else {
        Err(invalid_action(t, "expected 'keep', 'drop', or 'sample(rate)'"@))
    }
}

/// Reads an action.
pub fn parse_action(s: &str) -> (r: Result<Action, Error>)
    ensures
        match r {
            Ok(a) => action_of(s@) == Ok::<Action, ErrorText>(a),
            Err(e) => action_of(s@) == Err::<Action, ErrorText>(e@),
        },
{
    let chars = chars_of(s);
    let t = trim_chars(chars.as_slice());
    let t = t.as_slice();
    let keep = chars_of("keep");
    let drop = chars_of("drop");
    let open = chars_of("sample(");
    let close = chars_of(")");
    proof {
        reveal_strlit("sample(");
        reveal_strlit(")");
    }
    if chars_eq(t, keep.as_slice()) {
        return Ok(Action::Keep);
    }
    if chars_eq(t, drop.as_slice()) {
        return Ok(Action::Drop);
    }
    if starts_with_chars(t, open.as_slice()) && ends_with_chars(t, close.as_slice()) {
        proof {
            if t@.len() == 7 {
                assert(t@.subrange(0, 7)[6] == '(');
                assert(t@.subrange(6, 7)[0] == ')');
            }
        }
        let rate = slice_chars(t, 7, t.len() - 1);
        return match read_comparable(rate.as_slice()) {
            None => {
                let mut reason = "invalid sample rate: ".to_owned();
                append_chars(&mut reason, rate.as_slice());
                Err(Error::InvalidAction { action: string_of(t), reason })
            },
            Some(v) => {
                if 0 <= v && v <= 1_000_000 {
                    Ok(Action::Sample(v as u32))
                } else {
                    Err(
                        Error::InvalidAction {
                            action: string_of(t),
                            reason: "sample rate must be between 0.0 and 1.0".to_owned(),
                        },
                    )
                }
            },
        };
    }
    Err(
        Error::InvalidAction {
            action: string_of(t),
            reason: "expected 'keep', 'drop', or 'sample(rate)'".to_owned(),
        },
    )
}

/// The digits of `v` in `width` places, with zeros in front.
pub open spec fn padded_digits(v: nat, width: nat) -> Seq<char>
    decreases width,
{
    if width == 0 {
        Seq::empty()
    } else {
        padded_digits(v / 10, (width - 1) as nat).push(digit_char((v % 10) as int))
    }
}

/// The digits without the zeros at their end.
pub open spec fn without_trailing_zeros(s: Seq<char>) -> Seq<char>
    decreases s.len(),
{
    if s.len() > 0 && s.last() == '0' {
        without_trailing_zeros(s.drop_last())
    } else {
        s
    }
}

/// A rate in millionths as a decimal number: `0.01` for 10000, `1` for a
/// million.
pub open spec fn rate_text(rate: u32) -> Seq<char> {
    let whole = (rate / 1_000_000) as nat;
    let part = (rate % 1_000_000) as nat;
    if part == 0 {
        decimal_text(whole)
    } else {
        decimal_text(whole) + seq!['.'] + without_trailing_zeros(padded_digits(part, 6))
    }
}

/// An action as it is written.
pub open spec fn action_text(action: Action) -> Seq<char> {
    match action {
        Action::Keep => "keep"@,
        Action::Drop => "drop"@,
        Action::Sample(rate) => "sample("@ + rate_text(rate) + ")"@,
    }
}

/// The six digits of a number below a million.
fn six_digits(part: u32) -> (digits: Vec<char>)
    requires
        part < 1_000_000,
    ensures
        digits@ == padded_digits(part as nat, 6),
{
    let mut digits: Vec<char> = Vec::new();
    let d0: u8 = ((part / 100_000) % 10) as u8;
    let d1: u8 = ((part / 10_000) % 10) as u8;
    let d2: u8 = ((part / 1_000) % 10) as u8;
    let d3: u8 = ((part / 100) % 10) as u8;
    let d4: u8 = ((part / 10) % 10) as u8;
    let d5: u8 = (part % 10) as u8;
    digits.push((48 + d0) as char);
    digits.push((48 + d1) as char);
    digits.push((48 + d2) as char);
    digits.push((48 + d3) as char);
    digits.push((48 + d4) as char);
    digits.push((48 + d5) as char);
    proof {
        reveal_with_fuel(padded_digits, 7);
        let p = part as nat;
        assert(padded_digits(p, 6) =~= seq![
            digit_char(((p / 100_000) % 10) as int),
            digit_char(((p / 10_000) % 10) as int),
            digit_char(((p / 1_000) % 10) as int),
            digit_char(((p / 100) % 10) as int),
            digit_char(((p / 10) % 10) as int),
            digit_char((p % 10) as int),
        ]);
        assert(digits@ =~= padded_digits(p, 6));
    }
    digits
}

/// Appends a rate as a decimal number.
fn append_rate(out: &mut String, rate: u32)
    ensures
        final(out)@ == old(out)@ + rate_text(rate),
{
    let whole = rate / 1_000_000;
    let part = rate % 1_000_000;
    append_decimal(out, whole as u128);
    if part != 0 {
        let digits = six_digits(part);
        assert(digits@.len() == 6) by {
            reveal_with_fuel(padded_digits, 7);
        }
        let mut end: usize = 6;
        assert(digits@.subrange(0, 6) == digits@);
        while end > 0 && digits[end - 1] == '0'
            invariant
                end <= 6,
                digits@.len() == 6,
                without_trailing_zeros(digits@.subrange(0, end as int)) == without_trailing_zeros(
                    digits@,
                ),
            decreases end,
        {
            assert(digits@.subrange(0, end as int).drop_last() == digits@.subrange(0, end - 1));
            end -= 1;
        }
        let kept = slice_chars(digits.as_slice(), 0, end);
        out.append(".");
        proof {
            reveal_strlit(".");
            assert("."@ == seq!['.']);
        }
        append_chars(out, kept.as_slice());
        assert(out@ == old(out)@ + (decimal_text(whole as nat) + seq!['.'] + kept@));
    }
}

/// The row of a rule: name, description, match expression, action and
/// priority; the first three escaped.
pub open spec fn rule_row(rule: Rule) -> Seq<char> {
    "    "@ + csv_escaped(rule.name@) + ","@ + csv_escaped(
        match rule.description {
            Some(d) => d@,
            None => Seq::empty(),
        },
    ) + ","@ + csv_escaped(rule.match_expr@) + ","@ + action_text(rule.action) + ","@
        + decimal_text(rule.priority as nat) + "\n"@
}

/// The rows of the first `n` rules.
pub open spec fn rule_rows(rules: Seq<Rule>, n: nat) -> Seq<char>
    decreases n,
{
    if n == 0 || n > rules.len() {
        Seq::empty()
    } else {
        rule_rows(rules, (n - 1) as nat) + rule_row(rules[n - 1])
    }
}

/// A policy in the tabular text format: the header, then version, name
/// and budget (0 if there is none) on a line each, then the header of the
/// rules with their number, then the rows.
pub open spec fn policy_text(policy: Policy) -> Seq<char> {
    "nectar_policy{version,name,budget_per_second,rules}:\n"@ + "  "@ + decimal_text(
        policy.version as nat,
    ) + "\n"@ + "  "@ + policy.name@ + "\n"@ + "  "@ + decimal_text(
        match policy.budget_per_second {
            Some(budget) => budget as nat,
            None => 0,
        },
    ) + "\n"@ + "  rules["@ + decimal_text(policy.rules@.len())
        + "]{name,description,match,action,priority}:\n"@ + rule_rows(
        policy.rules@,
        policy.rules@.len(),
    )
}

/// Appends the row of a rule.
fn append_rule_row(out: &mut String, rule: &Rule)
    ensures
        final(out)@ == old(out)@ + rule_row(*rule),
{
    let mut row = String::new();
    row.append("    ");
    row.append(escape_csv_value(rule.name.as_str()).as_str());
    row.append(",");
    match &rule.description {
        Some(d) => row.append(escape_csv_value(d.as_str()).as_str()),
        None => {
            proof {
                reveal_strlit("");
            }
            row.append(escape_csv_value("").as_str())
        },
    }
    row.append(",");
    row.append(escape_csv_value(rule.match_expr.as_str()).as_str());
    row.append(",");
    match rule.action {
        Action::Keep => row.append("keep"),
        Action::Drop => row.append("drop"),
        Action::Sample(rate) => {
            let mut text = String::new();
            text.append("sample(");
            append_rate(&mut text, rate);
            text.append(")");
            assert(text@ == action_text(rule.action));
            row.append(text.as_str());
        },
    }
    row.append(",");
    append_decimal(&mut row, rule.priority as u128);
    row.append("\n");
    assert(row@ == rule_row(*rule));
    out.append(row.as_str());
}

/// Writes a policy in the tabular text format.
pub fn serialize(policy: &Policy) -> (r: String)
    ensures
        r@ == policy_text(*policy),
{
    let mut out = String::new();
    out.append("nectar_policy{version,name,budget_per_second,rules}:\n");
    out.append("  ");
    append_decimal(&mut out, policy.version as u128);
    out.append("\n");
    out.append("  ");
    out.append(policy.name.as_str());
    out.append("\n");
    out.append("  ");
    match policy.budget_per_second {
        Some(budget) => append_decimal(&mut out, budget as u128),
        None => append_decimal(&mut out, 0),
    }
    out.append("\n");
    out.append("  rules[");
    append_decimal(&mut out, policy.rules.len() as u128);
    out.append("]{name,description,match,action,priority}:\n");
    let ghost head = out@;
    let n = policy.rules.len();
    let mut i: usize = 0;
    assert(out@ == head + rule_rows(policy.rules@, 0));
    while i < n
        invariant
            n == policy.rules@.len(),
            i <= n,
            out@ == head + rule_rows(policy.rules@, i as nat),
        decreases n - i,
    {
        append_rule_row(&mut out, &policy.rules[i]);
        assert(head + rule_rows(policy.rules@, i as nat) + rule_row(policy.rules@[i as int])
            == head + (rule_rows(policy.rules@, i as nat) + rule_row(policy.rules@[i as int])));
        i += 1;
    }
    out
}

/// A line of a policy text with its number, counted from 1.
#[derive(Debug, Clone)]
pub struct Line {
    pub number: usize,
    pub text: Vec<char>,
}

/// A line, by what it holds.
pub struct LineText {
    pub number: usize,
    pub text: Seq<char>,
}

impl View for Line {
    type V = LineText;

    open spec fn view(&self) -> LineText {
        LineText { number: self.number, text: self.text@ }
    }
}

/// The lines, each by what it holds.
pub open spec fn line_texts(lines: Seq<Line>) -> Seq<LineText> {
    Seq::new(lines.len(), |i: int| lines[i]@)
}

/// The position of the first line feed at or after `i`, or the length.
pub open spec fn line_end(s: Seq<char>, i: int) -> int
    decreases s.len() - i,
{
    if i < 0 || i >= s.len() || s[i] == '\n' {
        i
    } else {
        line_end(s, i + 1)
    }
}

/// The end of the line that holds position `i` lies between `i` and the end
/// of the text.
pub proof fn lemma_line_end(s: Seq<char>, i: int)
    requires
        0 <= i <= s.len(),
    ensures
        i <= line_end(s, i) <= s.len(),
    decreases s.len() - i,
{
    if i < s.len() && s[i] != '\n' {
        lemma_line_end(s, i + 1);
    }
}

/// A line number as it is held: at most `usize::MAX`.
pub open spec fn line_number(number: int) -> usize {
    if number > usize::MAX {
        usize::MAX
    } else if number < 0 {
        0
    } else {
        number as usize
    }
}

/// The lines of a text from position `i` on that hold more than white
/// space; the line at `i` has the given number.
pub open spec fn lines_from(s: Seq<char>, i: int, number: int) -> Seq<LineText>
    decreases s.len() + 1 - i,
{
    if i < 0 || i >= s.len() {
        Seq::empty()
    } else {
        let end = line_end(s, i);
        if end < i || end > s.len() {
            Seq::empty()
        } else {
            let text = s.subrange(i, end);
            let rest = lines_from(s, end + 1, number + 1);
            if trimmed(text).len() > 0 {
                seq![LineText { number: line_number(number), text }] + rest
            } else {
                rest
            }
        }
    }
}

/// The lines of a text that hold more than white space, numbered as they
/// stand in the text.
pub open spec fn content_lines(s: Seq<char>) -> Seq<LineText> {
    lines_from(s, 0, 1)
}

/// Splits a text into its lines that hold more than white space.
pub fn split_lines(input: &[char]) -> (lines: Vec<Line>)
    ensures
        line_texts(lines@) == content_lines(input@),
{
    let n = input.len();
    let mut lines: Vec<Line> = Vec::new();
    let mut i: usize = 0;
    let mut number: usize = 1;
    let ghost mut count: int = 1;
    assert(line_texts(lines@) + lines_from(input@, 0, 1) == content_lines(input@));
    while i < n
        invariant
            n == input@.len(),
            i <= n,
            1 <= count,
            number == line_number(count),
            line_texts(lines@) + lines_from(input@, i as int, count) == content_lines(input@),
        decreases n - i,
    {
        let mut end: usize = i;
        while end < n && input[end] != '\n'
            invariant
                n == input@.len(),
                i <= end <= n,
                line_end(input@, end as int) == line_end(input@, i as int),
            decreases n - end,
        {
            end += 1;
        }
        let text = slice_chars(input, i, end);
        let kept = trim_chars(text.as_slice());
        let ghost before = line_texts(lines@);
        let ghost rest = lines_from(input@, end + 1, count + 1);
        proof {
            lemma_line_end(input@, i as int);
        }
        if kept.len() > 0 {
            lines.push(Line { number, text });
            proof {
                let line = LineText { number, text: input@.subrange(i as int, end as int) };
                assert(line_texts(lines@) == before + seq![line]);
                assert(before + (seq![line] + rest) == (before + seq![line]) + rest);
            }
        }
        if end == n {
            assert(rest == Seq::<LineText>::empty());
            assert(line_texts(lines@) + Seq::<LineText>::empty() == line_texts(lines@));
            return lines;
        }
        i = end + 1;
        if number < usize::MAX {
            number = number + 1;
        }
        proof {
            count = count + 1;
        }
    }
    assert(line_texts(lines@) + Seq::<LineText>::empty() == line_texts(lines@));
    lines
}

/// A header, by what it holds.
pub struct HeaderText {
    pub name: Seq<char>,
    pub count: Option<usize>,
    pub fields: Seq<Seq<char>>,
}

/// The header of a section: its name, the declared number of rows if
/// there is one, and the names of the fields.
#[derive(Debug, Clone)]
pub struct Header {
    pub name: String,
    pub count: Option<usize>,
    pub fields: Vec<String>,
}

impl View for Header {
    type V = HeaderText;

    open spec fn view(&self) -> HeaderText {
        HeaderText { name: self.name@, count: self.count, fields: string_texts(self.fields@) }
    }
}

/// A syntax error at a line.
pub open spec fn syntax_error(line: usize, reason: Seq<char>) -> ErrorText {
    ErrorText::Parse { line, reason }
}

/// The first position at or after `i` that holds `[` or `{`.
pub open spec fn first_bracket(s: Seq<char>, i: int) -> Option<int>
    decreases s.len() - i,
{
    if i < 0 || i >= s.len() {
        None
    } else if s[i] == '[' || s[i] == '{' {
        Some(i)
    } else {
        first_bracket(s, i + 1)
    }
}

/// The first position at or after `i` that holds `c`.
pub open spec fn first_char(s: Seq<char>, c: char, i: int) -> Option<int>
    decreases s.len() - i,
{
    if i < 0 || i >= s.len() {
        None
    } else if s[i] == c {
        Some(i)
    } else {
        first_char(s, c, i + 1)
    }
}

/// The parts of `s[start..]` between commas, each trimmed; `i` is the
/// reading position.
pub open spec fn comma_parts(s: Seq<char>, i: int, start: int) -> Seq<Seq<char>>
    decreases s.len() - i,
{
    if i < 0 || i >= s.len() {
        if 0 <= start <= s.len() {
            seq![trimmed(s.subrange(start, s.len() as int))]
        } else {
            Seq::empty()
        }
    } else if s[i] == ',' {
        seq![trimmed(s.subrange(start, i))] + comma_parts(s, i + 1, i + 1)
    } else {
        comma_parts(s, i + 1, start)
    }
}

/// The header that a line stands for: `name{fields}:` or
/// `name[count]{fields}:`.
pub open spec fn header_of(text: Seq<char>, line: usize) -> Result<HeaderText, ErrorText> {
    let t = trimmed(text);
    if t.len() == 0 || t.last() != ':' {
        Err(syntax_error(line, "header must end with ':'"@))
    } else {
        let body = t.drop_last();
        match first_bracket(body, 0) {
            None => Err(syntax_error(line, "header must have fields in braces"@)),
            Some(name_end) => {
                let name = body.subrange(0, name_end);
                if body[name_end] == '[' {
                    match first_char(body, ']', name_end) {
                        None => Err(syntax_error(line, "unclosed '[' in header"@)),
                        Some(close) => {
                            let digits = body.subrange(name_end + 1, close);
                            match unsigned_of(digits) {
                                Some(count) if count <= usize::MAX => fields_of(
                                    body,
                                    name,
                                    Some(count as usize),
                                    close + 1,
                                    line,
                                ),
                                _ => Err(
                                    syntax_error(line, "invalid count in header: "@ + digits),
                                ),
                            }
                        },
                    }
                } else {
                    fields_of(body, name, None, name_end, line)
                }
            },
        }
    }
}

/// The header with the fields that stand in braces from `start` to the
/// end of the body.
pub open spec fn fields_of(
    body: Seq<char>,
    name: Seq<char>,
    count: Option<usize>,
    start: int,
    line: usize,
) -> Result<HeaderText, ErrorText> {
    if 0 <= start < body.len() && body[start] == '{' && body.last() == '}' {
        let inner = body.subrange(start + 1, body.len() - 1);
        Ok(HeaderText { name, count, fields: comma_parts(inner, 0, 0) })
    } else {
        Err(syntax_error(line, "header must have fields in braces"@))
    }
}

/// Makes a syntax error.
fn syntax(line: usize, reason: String) -> (e: Error)
    ensures
        e@ == syntax_error(line, reason@),
{
    Error::Parse { line, reason }
}

/// Splits a text at its commas and trims the parts.
pub fn split_commas(s: &[char]) -> (parts: Vec<String>)
    ensures
        string_texts(parts@) == comma_parts(s@, 0, 0),
{
    let n = s.len();
    let mut parts: Vec<String> = Vec::new();
    let mut start: usize = 0;
    let mut i: usize = 0;
    assert(string_texts(parts@) + comma_parts(s@, 0, 0) == comma_parts(s@, 0, 0));
    while i < n
        invariant
            n == s@.len(),
            start <= i <= n,
            string_texts(parts@) + comma_parts(s@, i as int, start as int) == comma_parts(s@, 0, 0),
        decreases n - i,
    {
        if s[i] == ',' {
            let piece = slice_chars(s, start, i);
            let piece = trim_chars(piece.as_slice());
            let ghost before = string_texts(parts@);
            let ghost rest = comma_parts(s@, i + 1, i + 1);
            let ghost part = trimmed(s@.subrange(start as int, i as int));
            parts.push(string_of(piece.as_slice()));
            proof {
                assert(string_texts(parts@) == before + seq![part]);
                assert(before + (seq![part] + rest) == (before + seq![part]) + rest);
            }
            start = i + 1;
        }
        i += 1;
    }
    let piece = slice_chars(s, start, n);
    let piece = trim_chars(piece.as_slice());
    let ghost before = string_texts(parts@);
    parts.push(string_of(piece.as_slice()));
    assert(string_texts(parts@) == before + seq![trimmed(s@.subrange(start as int, n as int))]);
    parts
}

/// Reads a header line such as `name[N]{field1,field2}:`.
pub fn parse_header(text: &[char], line: usize) -> (r: Result<Header, Error>)
    ensures
        match r {
            Ok(h) => header_of(text@, line) == Ok::<HeaderText, ErrorText>(h@),
            Err(e) => header_of(text@, line) == Err::<HeaderText, ErrorText>(e@),
        },
{
    let t = trim_chars(text);
    let t = t.as_slice();
    if t.len() == 0 || t[t.len() - 1] != ':' {
        return Err(syntax(line, "header must end with ':'".to_owned()));
    }
    let body = slice_chars(t, 0, t.len() - 1);
    let body = body.as_slice();
    assert(body@ == trimmed(text@).drop_last());
    let n = body.len();
    let mut name_end: usize = 0;
    while name_end < n && body[name_end] != '[' && body[name_end] != '{'
        invariant
            n == body@.len(),
            name_end <= n,
            first_bracket(body@, name_end as int) == first_bracket(body@, 0),
        decreases n - name_end,
    {
        name_end += 1;
    }
    if name_end == n {
        return Err(syntax(line, "header must have fields in braces".to_owned()));
    }
    let name = slice_chars(body, 0, name_end);
    let mut count: Option<usize> = None;
    let mut fields_start: usize = name_end;
    if body[name_end] == '[' {
        let mut close: usize = name_end;
        while close < n && body[close] != ']'
            invariant
                n == body@.len(),
                name_end <= close <= n,
                first_char(body@, ']', close as int) == first_char(body@, ']', name_end as int),
            decreases n - close,
        {
            close += 1;
        }
        if close == n {
            return Err(syntax(line, "unclosed '[' in header".to_owned()));
        }
        let digits = slice_chars(body, name_end + 1, close);
        match parse_u64(digits.as_slice()) {
            Some(v) => {
                if v > usize::MAX as u64 {
                    let mut reason = "invalid count in header: ".to_owned();
                    append_chars(&mut reason, digits.as_slice());
                    return Err(syntax(line, reason));
                }
                count = Some(v as usize);
            },
            None => {
                let mut reason = "invalid count in header: ".to_owned();
                append_chars(&mut reason, digits.as_slice());
                return Err(syntax(line, reason));
            },
        }
        fields_start = close + 1;
    }
    if fields_start < n && body[fields_start] == '{' && body[n - 1] == '}' {
        let inner = slice_chars(body, fields_start + 1, n - 1);
        let fields = split_commas(inner.as_slice());
        Ok(Header { name: string_of(name.as_slice()), count, fields })
    } else {
        Err(syntax(line, "header must have fields in braces".to_owned()))
    }
}

/// A rule, by what it holds.
pub struct RuleText {
    pub name: Seq<char>,
    pub description: Option<Seq<char>>,
    pub match_expr: Seq<char>,
    pub action: Action,
    pub priority: u8,
}

/// What a rule holds.
pub open spec fn rule_text(rule: Rule) -> RuleText {
    RuleText {
        name: rule.name@,
        description: match rule.description {
            Some(d) => Some(d@),
            None => None,
        },
        match_expr: rule.match_expr@,
        action: rule.action,
        priority: rule.priority,
    }
}

/// The rules, each by what it holds.
pub open spec fn rule_texts(rules: Seq<Rule>) -> Seq<RuleText> {
    Seq::new(rules.len(), |i: int| rule_text(rules[i]))
}

/// What was read of a row so far.
pub struct RowState {
    pub name: Option<Seq<char>>,
    pub description: Option<Seq<char>>,
    pub match_expr: Option<Seq<char>>,
    pub action: Option<Action>,
    pub priority: Option<u8>,
}

/// A row of which nothing is read yet.
pub open spec fn blank_row() -> RowState {
    RowState { name: None, description: None, match_expr: None, action: None, priority: None }
}

/// The row state after the values from position `k` on are read into
/// their fields; an empty description counts as none.
pub open spec fn row_fields(
    fields: Seq<Seq<char>>,
    values: Seq<Seq<char>>,
    line: usize,
    k: int,
    st: RowState,
) -> Result<RowState, ErrorText>
    decreases fields.len() - k,
{
    if k < 0 || k >= fields.len() || k >= values.len() {
        Ok(st)
    } else {
        let field = fields[k];
        let value = values[k];
        if field == "name"@ {
            row_fields(fields, values, line, k + 1, RowState { name: Some(value), ..st })
        } else if field == "description"@ {
            row_fields(
                fields,
                values,
                line,
                k + 1,
                if value.len() > 0 {
                    RowState { description: Some(value), ..st }
                } else {
                    st
                },
            )
        } else if field == "match"@ {
            row_fields(fields, values, line, k + 1, RowState { match_expr: Some(value), ..st })
        } else if field == "action"@ {
            match action_of(value) {
                Ok(a) => row_fields(fields, values, line, k + 1, RowState { action: Some(a), ..st }),
                Err(e) => Err(syntax_error(line, "invalid action: "@ + e.message())),
            }
        } else if field == "priority"@ {
            match unsigned_of(value) {
                Some(p) if p <= 255 => row_fields(
                    fields,
                    values,
                    line,
                    k + 1,
                    RowState { priority: Some(p as u8), ..st },
                ),
                _ => Err(syntax_error(line, "invalid priority: "@ + value)),
            }
        } else {
            Err(syntax_error(line, "unknown rule field: "@ + field))
        }
    }
}

/// The rule that a row stands for under the fields of its header.
pub open spec fn rule_of_row(fields: Seq<Seq<char>>, line: usize, row: Seq<char>) -> Result<
    RuleText,
    ErrorText,
> {
    let values = csv_values(row);
    if values.len() != fields.len() {
        Err(
            syntax_error(
                line,
                "expected "@ + decimal_text(fields.len()) + " fields, found "@ + decimal_text(
                    values.len(),
                ) + " in row: "@ + row,
            ),
        )
    } else {
        match row_fields(fields, values, line, 0, blank_row()) {
            Err(e) => Err(e),
            Ok(st) => if st.name is None {
                Err(syntax_error(line, "rule missing 'name' field"@))
            } else if st.match_expr is None {
                Err(syntax_error(line, "rule missing 'match' field"@))
            } else if st.action is None {
                Err(syntax_error(line, "rule missing 'action' field"@))
            } else if st.priority is None {
                Err(syntax_error(line, "rule missing 'priority' field"@))
            } else {
                Ok(
                    RuleText {
                        name: st.name->0,
                        description: st.description,
                        match_expr: st.match_expr->0,
                        action: st.action->0,
                        priority: st.priority->0,
                    },
                )
            },
        }
    }
}

/// Reads a row of a rule.
pub fn parse_rule_row(fields: &Vec<String>, line: usize, row: &str) -> (r: Result<Rule, Error>)
    ensures
        match r {
            Ok(rule) => rule_of_row(string_texts(fields@), line, row@) == Ok::<RuleText, ErrorText>(
                rule_text(rule),
            ),
            Err(e) => rule_of_row(string_texts(fields@), line, row@) == Err::<RuleText, ErrorText>(
                e@,
            ),
        },
{
    let values = parse_csv_row(row);
    let ghost names = string_texts(fields@);
    let ghost texts = string_texts(values@);
    if values.len() != fields.len() {
        let mut reason = "expected ".to_owned();
        append_decimal(&mut reason, fields.len() as u128);
        reason.append(" fields, found ");
        append_decimal(&mut reason, values.len() as u128);
        reason.append(" in row: ");
        reason.append(row);
        return Err(syntax(line, reason));
    }
    let mut name: Option<String> = None;
    let mut description: Option<String> = None;
    let mut match_expr: Option<String> = None;
    let mut action: Option<Action> = None;
    let mut priority: Option<u8> = None;
    let n = fields.len();
    let mut k: usize = 0;
    while k < n
        invariant
            n == fields@.len(),
            n == values@.len(),
            k <= n,
            names == string_texts(fields@),
            texts == string_texts(values@),
            texts == csv_values(row@),
            row_fields(
                names,
                texts,
                line,
                k as int,
                RowState {
                    name: match name {
                        Some(v) => Some(v@),
                        None => None,
                    },
                    description: match description {
                        Some(v) => Some(v@),
                        None => None,
                    },
                    match_expr: match match_expr {
                        Some(v) => Some(v@),
                        None => None,
                    },
                    action,
                    priority,
                },
            ) == row_fields(names, texts, line, 0, blank_row()),
        decreases n - k,
    {
        let field = fields[k].as_str();
        let value = &values[k];
        assert(names[k as int] == field@);
        assert(texts[k as int] == value@);
        if crate::text::str_eq(field, "name") {
            name = Some(value.clone());
        } else if crate::text::str_eq(field, "description") {
            if value.as_str().unicode_len() > 0 {
                description = Some(value.clone());
            }
        } else if crate::text::str_eq(field, "match") {
            match_expr = Some(value.clone());
        } else if crate::text::str_eq(field, "action") {
            match parse_action(value.as_str()) {
                Ok(a) => {
                    action = Some(a);
                },
                Err(e) => {
                    let mut reason = "invalid action: ".to_owned();
                    reason.append(e.message().as_str());
                    return Err(syntax(line, reason));
                },
            }
        } else if crate::text::str_eq(field, "priority") {
            let digits = chars_of(value.as_str());
            match parse_u64(digits.as_slice()) {
                Some(p) => {
                    if p > 255 {
                        let mut reason = "invalid priority: ".to_owned();
                        reason.append(value.as_str());
                        return Err(syntax(line, reason));
                    }
                    priority = Some(p as u8);
                },
                None => {
                    let mut reason = "invalid priority: ".to_owned();
                    reason.append(value.as_str());
                    return Err(syntax(line, reason));
                },
            }
        } else {
            let mut reason = "unknown rule field: ".to_owned();
            reason.append(field);
            return Err(syntax(line, reason));
        }
        k += 1;
    }
    let name = match name {
        Some(v) => v,
        None => {
            return Err(syntax(line, "rule missing 'name' field".to_owned()));
        },
    };
    let match_expr = match match_expr {
        Some(v) => v,
        None => {
            return Err(syntax(line, "rule missing 'match' field".to_owned()));
        },
    };
    let action = match action {
        Some(v) => v,
        None => {
            return Err(syntax(line, "rule missing 'action' field".to_owned()));
        },
    };
    let priority = match priority {
        Some(v) => v,
        None => {
            return Err(syntax(line, "rule missing 'priority' field".to_owned()));
        },
    };
    Ok(Rule { name, description, match_expr, action, priority })
}

/// The number of the last line, or 1 if there is no line: the line that
/// an unexpected end of the text is reported at.
pub open spec fn last_line_number(lines: Seq<LineText>) -> usize {
    if lines.len() == 0 {
        1
    } else {
        lines.last().number
    }
}

/// The line at `pos` as a value: it must be indented by two bytes at
/// least, and is trimmed.
pub open spec fn value_at(lines: Seq<LineText>, pos: int) -> Result<LineText, ErrorText> {
    if pos < 0 || pos >= lines.len() {
        Err(syntax_error(last_line_number(lines), "unexpected end of input"@))
    } else if indent_of(lines[pos].text) < 2 {
        Err(
            syntax_error(
                lines[pos].number,
                "expected indent of at least 2 spaces, found "@ + decimal_text(
                    indent_of(lines[pos].text),
                ),
            ),
        )
    } else {
        Ok(LineText { number: lines[pos].number, text: trimmed(lines[pos].text) })
    }
}

/// Rules that were read, and the position of the line behind them.
pub struct RowsRead {
    pub rules: Seq<RuleText>,
    pub next: int,
}

/// The rows from `pos` on: every line that is indented by four bytes at
/// least is a row.
pub open spec fn rows_from(lines: Seq<LineText>, pos: int, fields: Seq<Seq<char>>) -> Result<
    RowsRead,
    ErrorText,
>
    decreases lines.len() - pos,
{
    if pos < 0 || pos >= lines.len() || indent_of(lines[pos].text) < 4 {
        Ok(RowsRead { rules: Seq::empty(), next: pos })
    } else {
        match rule_of_row(fields, lines[pos].number, trimmed(lines[pos].text)) {
            Err(e) => Err(e),
            Ok(rule) => match rows_from(lines, pos + 1, fields) {
                Err(e) => Err(e),
                Ok(read) => Ok(RowsRead { rules: seq![rule] + read.rules, next: read.next }),
            },
        }
    }
}

/// The rows that were read if they are as many as declared, else the
/// mismatch.
pub open spec fn counted(rows: Result<RowsRead, ErrorText>, declared: usize) -> Result<
    RowsRead,
    ErrorText,
> {
    match rows {
        Err(e) => Err(e),
        Ok(read) => if read.rules.len() != declared {
            Err(ErrorText::CountMismatch { declared, actual: read.rules.len() as usize })
        } else {
            Ok(read)
        },
    }
}

/// The section of the rules at `pos`: a header `rules[N]{fields}:` that
/// is indented by two bytes at least, then exactly `N` rows.
pub open spec fn rules_section(lines: Seq<LineText>, pos: int) -> Result<RowsRead, ErrorText> {
    if pos < 0 || pos >= lines.len() {
        Err(syntax_error(last_line_number(lines), "expected rules section"@))
    } else {
        let line = lines[pos];
        if indent_of(line.text) < 2 {
            Err(
                syntax_error(
                    line.number,
                    "expected indent of at least 2 spaces for rules header"@,
                ),
            )
        } else {
            match header_of(trimmed(line.text), line.number) {
                Err(e) => Err(e),
                Ok(header) => if header.name != "rules"@ {
                    Err(
                        syntax_error(
                            line.number,
                            "expected 'rules' header, found '"@ + header.name + "'"@,
                        ),
                    )
                } else {
                    match header.count {
                        None => Err(
                            syntax_error(line.number, "rules header must specify count [N]"@),
                        ),
                        Some(declared) => counted(
                            rows_from(lines, pos + 1, header.fields),
                            declared,
                        ),
                    }
                },
            }
        }
    }
}

/// What was read of a policy so far, and the position of the next line.
pub struct PolicyState {
    pub version: Option<u32>,
    pub name: Option<Seq<char>>,
    pub budget_per_second: Option<u64>,
    pub rules: Seq<RuleText>,
    pub next: int,
}

/// The state after the fields from position `k` on are read, each from
/// the lines at the position of the state.
pub open spec fn policy_fields(
    lines: Seq<LineText>,
    fields: Seq<Seq<char>>,
    header_line: usize,
    k: int,
    st: PolicyState,
) -> Result<PolicyState, ErrorText>
    decreases fields.len() - k,
{
    if k < 0 || k >= fields.len() {
        Ok(st)
    } else {
        let field = fields[k];
        if field == "version"@ {
            match value_at(lines, st.next) {
                Err(e) => Err(e),
                Ok(value) => match unsigned_of(value.text) {
                    Some(v) if v <= u32::MAX => policy_fields(
                        lines,
                        fields,
                        header_line,
                        k + 1,
                        PolicyState { version: Some(v as u32), next: st.next + 1, ..st },
                    ),
                    _ => Err(
                        syntax_error(value.number, "invalid version number: "@ + value.text),
                    ),
                },
            }
        } else if field == "name"@ {
            match value_at(lines, st.next) {
                Err(e) => Err(e),
                Ok(value) => policy_fields(
                    lines,
                    fields,
                    header_line,
                    k + 1,
                    PolicyState { name: Some(value.text), next: st.next + 1, ..st },
                ),
            }
        } else if field == "budget_per_second"@ {
            match value_at(lines, st.next) {
                Err(e) => Err(e),
                Ok(value) => match unsigned_of(value.text) {
                    Some(v) if v <= u64::MAX => policy_fields(
                        lines,
                        fields,
                        header_line,
                        k + 1,
                        PolicyState { budget_per_second: Some(v as u64), next: st.next + 1, ..st },
                    ),
                    _ => Err(syntax_error(value.number, "invalid budget number: "@ + value.text)),
                },
            }
        } else if field == "rules"@ {
            match rules_section(lines, st.next) {
                Err(e) => Err(e),
                Ok(read) => policy_fields(
                    lines,
                    fields,
                    header_line,
                    k + 1,
                    PolicyState { rules: read.rules, next: read.next, ..st },
                ),
            }
        } else {
            Err(syntax_error(header_line, "unknown field: "@ + field))
        }
    }
}

/// A policy, by what it holds.
pub struct PolicyText {
    pub version: u32,
    pub name: Seq<char>,
    pub budget_per_second: Option<u64>,
    pub rules: Seq<RuleText>,
}

/// What a policy holds.
pub open spec fn policy_model(policy: Policy) -> PolicyText {
    PolicyText {
        version: policy.version,
        name: policy.name@,
        budget_per_second: policy.budget_per_second,
        rules: rule_texts(policy.rules@),
    }
}

/// `r` placed behind the last rule whose priority is not lower than its own.
pub open spec fn insert_text(s: Seq<RuleText>, r: RuleText) -> Seq<RuleText>
    decreases s.len(),
{
    if s.len() == 0 {
        seq![r]
    } else if s.last().priority >= r.priority {
        s.push(r)
    } else {
        insert_text(s.drop_last(), r).push(s.last())
    }
}

/// The rules in descending order of priority, rules of equal priority
/// in the order in which they stood.
pub open spec fn sort_texts(s: Seq<RuleText>) -> Seq<RuleText>
    decreases s.len(),
{
    if s.len() == 0 {
        s
    } else {
        insert_text(sort_texts(s.drop_last()), s.last())
    }
}

/// The policy that a text stands for: the header `nectar_policy{fields}:`,
/// then the fields in the order of the header; the version is 1 if none is
/// given, the name is required, and the rules are put in descending order
/// of priority.
pub open spec fn policy_of(input: Seq<char>) -> Result<PolicyText, ErrorText> {
    lines_policy(content_lines(input))
}

/// Sorting rules and sorting what they hold come to the same.
pub proof fn lemma_insert_commutes(s: Seq<Rule>, r: Rule)
    ensures
        rule_texts(insert_by_priority(s, r)) == insert_text(rule_texts(s), rule_text(r)),
    decreases s.len(),
{
    let texts = rule_texts(s);
    if s.len() == 0 {
        assert(rule_texts(seq![r]) == seq![rule_text(r)]);
    } else if s.last().priority >= r.priority {
        assert(rule_texts(s.push(r)) == texts.push(rule_text(r)));
    } else {
        lemma_insert_commutes(s.drop_last(), r);
        assert(rule_texts(s.drop_last()) == texts.drop_last());
        assert(rule_texts(insert_by_priority(s.drop_last(), r).push(s.last())) == rule_texts(
            insert_by_priority(s.drop_last(), r),
        ).push(rule_text(s.last())));
    }
}

/// Sorting rules by priority and then taking their texts gives the same as
/// taking their texts and sorting those.
pub proof fn lemma_sort_commutes(s: Seq<Rule>)
    ensures
        rule_texts(sort_by_priority(s)) == sort_texts(rule_texts(s)),
    decreases s.len(),
{
    if s.len() == 0 {
        assert(rule_texts(s) == Seq::<RuleText>::empty());
    } else {
        lemma_sort_commutes(s.drop_last());
        lemma_insert_commutes(sort_by_priority(s.drop_last()), s.last());
        assert(rule_texts(s.drop_last()) == rule_texts(s).drop_last());
    }
}

/// The state of a parser: the lines of the text and the position of the
/// line at hand.
#[derive(Debug, Clone)]
pub struct ToonParser {
    pub lines: Vec<Line>,
    pub pos: usize,
}

impl ToonParser {
    /// Creates a parser at the first line of a text.
    pub fn new(input: &str) -> (p: Self)
        ensures
            line_texts(p.lines@) == content_lines(input@),
            p.pos == 0,
    {
        let chars = chars_of(input);
        ToonParser { lines: split_lines(chars.as_slice()), pos: 0 }
    }

    /// The line at hand, if there is one.
    pub fn current_line(&self) -> (r: Option<&Line>)
        ensures
            match r {
                Some(line) => self.pos < self.lines@.len() && *line == self.lines@[self.pos as int],
                None => self.pos >= self.lines@.len(),
            },
    {
        if self.pos < self.lines.len() {
            Some(&self.lines[self.pos])
        } else {
            None
        }
    }

    /// Goes on to the next line.
    pub fn advance(&mut self)
        requires
            old(self).pos < usize::MAX,
        ensures
            final(self).pos == old(self).pos + 1,
            final(self).lines == old(self).lines,
    {
        self.pos = self.pos + 1;
    }

    /// The number of the last line, or 1.
    fn last_number(&self) -> (n: usize)
        ensures
            n == last_line_number(line_texts(self.lines@)),
    {
        let len = self.lines.len();
        if len == 0 {
            1
        } else {
            assert(line_texts(self.lines@).last() == self.lines@[len - 1]@);
            self.lines[len - 1].number
        }
    }

    /// Reads the line at hand as a value and goes on.
    pub fn expect_value(&mut self, expected_indent: usize) -> (r: Result<Line, Error>)
        requires
            expected_indent == 2,
        ensures
            final(self).lines == old(self).lines,
            match r {
                Ok(value) => value_at(line_texts(old(self).lines@), old(self).pos as int) == Ok::<
                    LineText,
                    ErrorText,
                >(value@) && final(self).pos == old(self).pos + 1,
                Err(e) => value_at(line_texts(old(self).lines@), old(self).pos as int) == Err::<
                    LineText,
                    ErrorText,
                >(e@) && final(self).pos == old(self).pos,
            },
    {
        if self.pos >= self.lines.len() {
            return Err(syntax(self.last_number(), "unexpected end of input".to_owned()));
        }
        let line = &self.lines[self.pos];
        assert(line_texts(self.lines@)[self.pos as int] == line@);
        let indent = count_indent(line.text.as_slice());
        if indent < expected_indent as u128 {
            let mut reason = "expected indent of at least ".to_owned();
            append_decimal(&mut reason, expected_indent as u128);
            reason.append(" spaces, found ");
            append_decimal(&mut reason, indent);
            proof {
                reveal_with_fuel(decimal_text, 2);
                assert(decimal_text(2) == seq![digit_char(2)]);
                reveal_strlit("expected indent of at least 2 spaces, found ");
                reveal_strlit("expected indent of at least ");
                reveal_strlit(" spaces, found ");
                assert("expected indent of at least "@ + decimal_text(2) + " spaces, found "@
                    =~= "expected indent of at least 2 spaces, found "@);
            }
            return Err(syntax(line.number, reason));
        }
        let value = Line { number: line.number, text: trim_chars(line.text.as_slice()) };
        self.pos = self.pos + 1;
        Ok(value)
    }

    /// Reads the section of the rules at the line at hand.
    pub fn parse_rules(&mut self, expected_indent: usize) -> (r: Result<Vec<Rule>, Error>)
        requires
            expected_indent == 2,
        ensures
            final(self).lines == old(self).lines,
            match r {
                Ok(rules) => rules_section(line_texts(old(self).lines@), old(self).pos as int)
                    == Ok::<RowsRead, ErrorText>(
                    RowsRead { rules: rule_texts(rules@), next: final(self).pos as int },
                ),
                Err(e) => rules_section(line_texts(old(self).lines@), old(self).pos as int) == Err::<
                    RowsRead,
                    ErrorText,
                >(e@),
            },
    {
        let ghost lines = line_texts(self.lines@);
        if self.pos >= self.lines.len() {
            return Err(syntax(self.last_number(), "expected rules section".to_owned()));
        }
        let line = &self.lines[self.pos];
        assert(lines[self.pos as int] == line@);
        let line_num = line.number;
        let indent = count_indent(line.text.as_slice());
        if indent < 2 {
            return Err(
                syntax(line_num, "expected indent of at least 2 spaces for rules header".to_owned()),
            );
        }
        let text = trim_chars(line.text.as_slice());
        let header = match parse_header(text.as_slice(), line_num) {
            Ok(h) => h,
            Err(e) => {
                return Err(e);
            },
        };
        if !crate::text::str_eq(header.name.as_str(), "rules") {
            let mut reason = "expected 'rules' header, found '".to_owned();
            reason.append(header.name.as_str());
            reason.append("'");
            return Err(syntax(line_num, reason));
        }
        let declared = match header.count {
            Some(count) => count,
            None => {
                return Err(syntax(line_num, "rules header must specify count [N]".to_owned()));
            },
        };
        let start = self.pos + 1;
        self.pos = start;
        let ghost fields = string_texts(header.fields@);
        let ghost whole = rules_section(lines, old(self).pos as int);
        assert(whole == counted(rows_from(lines, start as int, fields), declared));
        let mut rules: Vec<Rule> = Vec::new();
        let n = self.lines.len();
        assert(rule_texts(rules@) == Seq::<RuleText>::empty());
        let mut more = self.pos < n;
        if more {
            assert(lines[self.pos as int] == self.lines@[self.pos as int]@);
            more = count_indent(self.lines[self.pos].text.as_slice()) >= 4;
        }
        while more
            invariant
                n == self.lines@.len(),
                self.lines == old(self).lines,
                lines == line_texts(self.lines@),
                fields == string_texts(header.fields@),
                start <= self.pos <= n,
                more == (self.pos < n && indent_of(lines[self.pos as int].text) >= 4),
                whole == rules_section(lines, old(self).pos as int),
                whole == counted(rows_from(lines, start as int, fields), declared),
                match rows_from(lines, self.pos as int, fields) {
                    Ok(read) => rows_from(lines, start as int, fields) == Ok::<RowsRead, ErrorText>(
                        RowsRead { rules: rule_texts(rules@) + read.rules, next: read.next },
                    ),
                    Err(e) => rows_from(lines, start as int, fields) == Err::<RowsRead, ErrorText>(
                        e,
                    ),
                },
            decreases n - self.pos,
        {
            let row = &self.lines[self.pos];
            assert(lines[self.pos as int] == row@);
            let row_text = trim_chars(row.text.as_slice());
            let row_text = string_of(row_text.as_slice());
            match parse_rule_row(&header.fields, row.number, row_text.as_str()) {
                Ok(rule) => {
                    let ghost before = rule_texts(rules@);
                    let ghost this = rule_text(rule);
                    rules.push(rule);
                    proof {
                        assert(rule_texts(rules@) == before + seq![this]);
                        match rows_from(lines, self.pos + 1, fields) {
                            Ok(read) => {
                                assert(before + (seq![this] + read.rules) == (before + seq![
                                    this,
                                ]) + read.rules);
                            },
                            Err(_) => {},
                        }
                    }
                },
                Err(e) => {
                    return Err(e);
                },
            }
            self.pos = self.pos + 1;
            more = self.pos < n;
            if more {
                assert(lines[self.pos as int] == self.lines@[self.pos as int]@);
                more = count_indent(self.lines[self.pos].text.as_slice()) >= 4;
            }
        }
        proof {
            let read = rows_from(lines, self.pos as int, fields);
            assert(read == Ok::<RowsRead, ErrorText>(
                RowsRead { rules: Seq::empty(), next: self.pos as int },
            ));
            assert(rule_texts(rules@) + Seq::<RuleText>::empty() == rule_texts(rules@));
        }
        if rules.len() != declared {
            return Err(Error::CountMismatch { declared, actual: rules.len() });
        }
        Ok(rules)
    }

    /// Reads a policy from the lines.
    #[verifier::rlimit(60)]
    pub fn parse_policy(&mut self) -> (r: Result<Policy, Error>)
        requires
            old(self).pos == 0,
        ensures
            match r {
                Ok(policy) => lines_policy(line_texts(old(self).lines@)) == Ok::<
                    PolicyText,
                    ErrorText,
                >(policy_model(policy)) && policy.well_formed(),
                Err(e) => lines_policy(line_texts(old(self).lines@)) == Err::<
                    PolicyText,
                    ErrorText,
                >(e@),
            },
    {
        let ghost lines = line_texts(self.lines@);
        if self.lines.len() == 0 {
            return Err(syntax(1, "empty input".to_owned()));
        }
        let first = &self.lines[0];
        assert(lines[0] == first@);
        let line_num = first.number;
        let text = trim_chars(first.text.as_slice());
        let header = match parse_header(text.as_slice(), line_num) {
            Ok(h) => h,
            Err(e) => {
                return Err(e);
            },
        };
        if !crate::text::str_eq(header.name.as_str(), "nectar_policy") {
            let mut reason = "expected 'nectar_policy' header, found '".to_owned();
            reason.append(header.name.as_str());
            reason.append("'");
            return Err(syntax(line_num, reason));
        }
        self.pos = 1;
        let ghost fields = string_texts(header.fields@);
        let ghost start = fresh_policy();
        let ghost whole = lines_policy(lines);
        assert(whole == finished(policy_fields(lines, fields, line_num, 0, start)));
        let mut version: Option<u32> = None;
        let mut name: Option<String> = None;
        let mut budget_per_second: Option<u64> = None;
        let mut rules: Vec<Rule> = Vec::new();
        let n = header.fields.len();
        let mut k: usize = 0;
        assert(rule_texts(rules@) == Seq::<RuleText>::empty());
        while k < n
            invariant
                n == header.fields@.len(),
                k <= n,
                self.lines == old(self).lines,
                lines == line_texts(self.lines@),
                fields == string_texts(header.fields@),
                self.pos <= self.lines@.len(),
                start == fresh_policy(),
                whole == lines_policy(lines),
                whole == finished(policy_fields(lines, fields, line_num, 0, start)),
                policy_fields(
                    lines,
                    fields,
                    line_num,
                    k as int,
                    PolicyState {
                        version,
                        name: match name {
                            Some(v) => Some(v@),
                            None => None,
                        },
                        budget_per_second,
                        rules: rule_texts(rules@),
                        next: self.pos as int,
                    },
                ) == policy_fields(lines, fields, line_num, 0, start),
            decreases n - k,
        {
            let field = header.fields[k].as_str();
            assert(fields[k as int] == field@);
            if crate::text::str_eq(field, "version") {
                let value = match self.expect_value(2) {
                    Ok(v) => v,
                    Err(e) => {
                        return Err(e);
                    },
                };
                match parse_u64(value.text.as_slice()) {
                    Some(v) => {
                        if v > u32::MAX as u64 {
                            let mut reason = "invalid version number: ".to_owned();
                            append_chars(&mut reason, value.text.as_slice());
                            return Err(syntax(value.number, reason));
                        }
                        version = Some(v as u32);
                    },
                    None => {
                        let mut reason = "invalid version number: ".to_owned();
                        append_chars(&mut reason, value.text.as_slice());
                        return Err(syntax(value.number, reason));
                    },
                }
            } else if crate::text::str_eq(field, "name") {
                let value = match self.expect_value(2) {
                    Ok(v) => v,
                    Err(e) => {
                        return Err(e);
                    },
                };
                name = Some(string_of(value.text.as_slice()));
            } else if crate::text::str_eq(field, "budget_per_second") {
                let value = match self.expect_value(2) {
                    Ok(v) => v,
                    Err(e) => {
                        return Err(e);
                    },
                };
                match parse_u64(value.text.as_slice()) {
                    Some(v) => {
                        budget_per_second = Some(v);
                    },
                    None => {
                        let mut reason = "invalid budget number: ".to_owned();
                        append_chars(&mut reason, value.text.as_slice());
                        return Err(syntax(value.number, reason));
                    },
                }
            } else if crate::text::str_eq(field, "rules") {
                let ghost before_rules = self.pos;
                rules = match self.parse_rules(2) {
                    Ok(r) => r,
                    Err(e) => {
                        return Err(e);
                    },
                };
                proof {
                    lemma_section_next(lines, before_rules as int);
                }
            } else {
                let mut reason = "unknown field: ".to_owned();
                reason.append(field);
                return Err(syntax(line_num, reason));
            }
            k += 1;
        }
        let name = match name {
            Some(v) => v,
            None => {
                return Err(Error::MissingField("name".to_owned()));
            },
        };
        let mut policy = Policy::new(name.as_str());
        policy.version = match version {
            Some(v) => v,
            None => 1,
        };
        policy.budget_per_second = budget_per_second;
        let ghost rows = rules@;
        let m = rules.len();
        let mut pending = crate::order::reversed(rules);
        let mut taken: usize = 0;
        assert(rows.subrange(0, 0) == Seq::<Rule>::empty());
        while pending.len() > 0
            invariant
                taken + pending@.len() == m,
                m == rows.len(),
                forall|i: int| 0 <= i < pending@.len() ==> #[trigger] pending@[i] == rows[m - 1 - i],
                policy.rules@ == sort_by_priority(rows.subrange(0, taken as int)),
                policy.name@ == name@,
                policy.version == match version {
                    Some(v) => v,
                    None => 1,
                },
                policy.budget_per_second == budget_per_second,
            decreases pending.len(),
        {
            match pending.pop() {
                Some(rule) => {
                    proof {
                        let done = rows.subrange(0, taken as int);
                        let more = rows.subrange(0, taken as int + 1);
                        assert(rule == rows[taken as int]);
                        assert(more.drop_last() == done);
                        assert(more.last() == rule);
                        lemma_sort_orders(done);
                        lemma_sort_ordered_is_identity(sort_by_priority(done));
                        assert(sort_by_priority(done).push(rule).drop_last() == sort_by_priority(
                            done,
                        ));
                    }
                    policy.add_rule(rule);
                    taken += 1;
                },
                None => {},
            }
        }
        proof {
            assert(rows.subrange(0, m as int) == rows);
            lemma_sort_commutes(rows);
            lemma_sort_orders(rows);
        }
        Ok(policy)
    }
}

/// A section of rules ends within the lines.
pub proof fn lemma_section_next(lines: Seq<LineText>, pos: int)
    requires
        0 <= pos <= lines.len(),
    ensures
        rules_section(lines, pos) is Ok ==> pos < rules_section(lines, pos)->Ok_0.next
            <= lines.len(),
{
    if pos < lines.len() {
        match header_of(trimmed(lines[pos].text), lines[pos].number) {
            Ok(header) => {
                lemma_rows_next(lines, pos + 1, header.fields);
            },
            Err(_) => {},
        }
    }
}

/// The rows that are read end within the lines.
pub proof fn lemma_rows_next(lines: Seq<LineText>, pos: int, fields: Seq<Seq<char>>)
    requires
        0 <= pos <= lines.len(),
    ensures
        rows_from(lines, pos, fields) is Ok ==> pos <= rows_from(lines, pos, fields)->Ok_0.next
            <= lines.len(),
    decreases lines.len() - pos,
{
    if pos < lines.len() {
        lemma_rows_next(lines, pos + 1, fields);
    }
}

/// The policy that the lines of a text stand for.
pub open spec fn lines_policy(lines: Seq<LineText>) -> Result<PolicyText, ErrorText> {
    if lines.len() == 0 {
        Err(syntax_error(1, "empty input"@))
    } else {
        match header_of(trimmed(lines[0].text), lines[0].number) {
            Err(e) => Err(e),
            Ok(header) => if header.name != "nectar_policy"@ {
                Err(
                    syntax_error(
                        lines[0].number,
                        "expected 'nectar_policy' header, found '"@ + header.name + "'"@,
                    ),
                )
            } else {
                finished(
                    policy_fields(lines, header.fields, lines[0].number, 0, fresh_policy()),
                )
            },
        }
    }
}

/// The state of a policy of which nothing is read yet; its fields begin
/// at the second line.
pub open spec fn fresh_policy() -> PolicyState {
    PolicyState {
        version: None,
        name: None,
        budget_per_second: None,
        rules: Seq::empty(),
        next: 1,
    }
}

/// The policy that a state stands for once all fields are read: the name
/// is required, the version is 1 if none was given, and the rules are put
/// in descending order of priority.
pub open spec fn finished(state: Result<PolicyState, ErrorText>) -> Result<PolicyText, ErrorText> {
    match state {
        Err(e) => Err(e),
        Ok(st) => match st.name {
            None => Err(ErrorText::MissingField("name"@)),
            Some(name) => Ok(
                PolicyText {
                    version: match st.version {
                        Some(v) => v,
                        None => 1,
                    },
                    name,
                    budget_per_second: st.budget_per_second,
                    rules: sort_texts(st.rules),
                },
            ),
        },
    }
}

/// Reads a policy from its tabular text. The rules of the policy stand in
/// descending order of priority.
pub fn parse(input: &str) -> (r: Result<Policy, Error>)
    ensures
        match r {
            Ok(policy) => policy_of(input@) == Ok::<PolicyText, ErrorText>(policy_model(policy))
                && policy.well_formed(),
            Err(e) => policy_of(input@) == Err::<PolicyText, ErrorText>(e@),
        },
{
    let mut parser = ToonParser::new(input);
    parser.parse_policy()
}

} // verus!
