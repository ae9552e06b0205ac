//! Reading of values as they stand in trace data.

use std::time::Duration;
use vstd::prelude::*;
use vstd::string::StringExecFns;
use crate::corpus::Corpus;
use crate::error::{Error, ErrorText};
use crate::literal::{micros_of, parse_u64, read_comparable, unsigned_of};
use crate::text::{
    append_chars, chars_of, ends_with_chars, has_suffix, slice_chars, trim_chars, trimmed,
};
use crate::text::{decimal_text, str_eq, string_of};
use crate::time::nanos_of;
use crate::trace::{bare_trace, is_bare_trace, trace_attribute_index, Trace, TraceAttribute};

verus! {

/// The error of a duration that cannot be read.
pub open spec fn invalid_duration(text: Seq<char>) -> ErrorText {
    ErrorText::InvalidTrace("invalid duration: "@ + text)
}

/// The nanoseconds that a duration stands for: a whole number alone or
/// before `ms` counts milliseconds, a decimal number before `s` counts
/// seconds and is read to the microsecond. Negative durations and
/// durations beyond 2^64 nanoseconds are errors.
pub open spec fn duration_nanos(s: Seq<char>) -> Result<nat, ErrorText> {
    let t = trimmed(s);
    match unsigned_of(t) {
        Some(ms) if ms <= u64::MAX => Ok(ms * 1_000_000),
        _ => if has_suffix(t, "ms"@) {
            match unsigned_of(trimmed(t.subrange(0, t.len() - 2))) {
                Some(ms) if ms <= u64::MAX => Ok(ms * 1_000_000),
                _ => Err(invalid_duration(t)),
            }
        } else if has_suffix(t, "s"@) {
            match micros_of(trimmed(t.subrange(0, t.len() - 1))) {
                Some(v) if 0 <= v && v * 1000 <= u64::MAX => Ok((v * 1000) as nat),
                _ => Err(invalid_duration(t)),
            }
        } else {
            Err(ErrorText::InvalidTrace("invalid duration format: "@ + t))
        },
    }
}

/// Reads a duration such as `150ms`, `2.5s` or `100`.
pub fn parse_duration(s: &str) -> (r: Result<Duration, Error>)
    ensures
        match r {
            Ok(d) => duration_nanos(s@) == Ok::<nat, ErrorText>(nanos_of(d)),
            Err(e) => duration_nanos(s@) == Err::<nat, ErrorText>(e@),
        },
{
    let chars = chars_of(s);
    let t = trim_chars(chars.as_slice());
    let t = t.as_slice();
    let n = t.len();
    if let Some(ms) = parse_u64(t) {
        return Ok(Duration::from_millis(ms));
    }
    let ms_suffix = chars_of("ms");
    let s_suffix = chars_of("s");
    proof {
        reveal_strlit("ms");
        reveal_strlit("s");
    }
    if ends_with_chars(t, ms_suffix.as_slice()) {
        let head = slice_chars(t, 0, n - 2);
        let number = trim_chars(head.as_slice());
        return match parse_u64(number.as_slice()) {
            Some(ms) => Ok(Duration::from_millis(ms)),
            None => {
                let mut message = "invalid duration: ".to_owned();
                append_chars(&mut message, t);
                Err(Error::InvalidTrace(message))
            },
        };
    }
    if ends_with_chars(t, s_suffix.as_slice()) {
        let head = slice_chars(t, 0, n - 1);
        let number = trim_chars(head.as_slice());
        if let Some(v) = read_comparable(number.as_slice()) {
            if 0 <= v && v <= 18_446_744_073_709_551 {
                return Ok(Duration::from_nanos((v * 1000) as u64));
            }
        }
        let mut message = "invalid duration: ".to_owned();
        append_chars(&mut message, t);
        return Err(Error::InvalidTrace(message));
    }
    let mut message = "invalid duration format: ".to_owned();
    append_chars(&mut message, t);
    Err(Error::InvalidTrace(message))
}

/// A value of a field of trace data.
#[derive(Debug, Clone, PartialEq, Eq)]
pub enum RawValue {
    /// A text.
    Text(String),
    /// A whole number that is not negative.
    Unsigned(u64),
    /// Any other number, as its decimal text.
    Number(String),
    /// A truth value.
    Bool(bool),
    /// Anything else: nothing, a list or an object.
    Other,
}

/// A field of trace data beyond those that a trace has of its own.
#[derive(Debug, Clone, PartialEq, Eq)]
pub struct RawField {
    pub key: String,
    pub value: RawValue,
}

/// A trace as it stands in trace data.
#[derive(Debug, Clone, PartialEq, Eq)]
pub struct RawTrace {
    pub trace_id: String,
    pub duration_ms: Option<u64>,
    pub duration: Option<String>,
    pub status: Option<u16>,
    pub service: Option<String>,
    pub endpoint: Option<String>,
    pub is_error: Option<bool>,
    pub error: Option<bool>,
    pub extra: Vec<RawField>,
}

/// The first position at or after `i` of a field with the given key.
pub open spec fn field_from(extra: Seq<RawField>, key: Seq<char>, i: int) -> Option<int>
    decreases extra.len() - i,
{
    if i < 0 || i >= extra.len() {
        None
    } else if extra[i].key@ == key {
        Some(i)
    } else {
        field_from(extra, key, i + 1)
    }
}

/// The value of the first field with the given key.
pub open spec fn field_value(extra: Seq<RawField>, key: Seq<char>) -> Option<RawValue> {
    match field_from(extra, key, 0) {
        Some(i) => Some(extra[i].value),
        None => None,
    }
}

/// The status of a raw trace: its own, else that of the field
/// `http.status_code` if it is a whole number that fits 16 bits.
pub open spec fn raw_status(raw: RawTrace) -> Option<u16> {
    match raw.status {
        Some(s) => Some(s),
        None => match field_value(raw.extra@, "http.status_code"@) {
            Some(RawValue::Unsigned(n)) if n <= u16::MAX => Some(n as u16),
            _ => None,
        },
    }
}

/// The text of a raw trace under one of its own names, else under the
/// name of a field.
pub open spec fn raw_text(own: Option<String>, extra: Seq<RawField>, key: Seq<char>) -> Option<
    Seq<char>,
> {
    match own {
        Some(s) => Some(s@),
        None => match field_value(extra, key) {
            Some(RawValue::Text(s)) => Some(s@),
            _ => None,
        },
    }
}

/// The text that a field becomes as an attribute, if it becomes one:
/// texts, numbers and truth values do, except under the names that are
/// read into the trace itself.
pub open spec fn attribute_text(field: RawField) -> Option<Seq<char>> {
    if field.key@ == "http.status_code"@ || field.key@ == "service.name"@ || field.key@
        == "http.route"@ {
        None
    } else {
        match field.value {
            RawValue::Text(s) => Some(s@),
            RawValue::Unsigned(n) => Some(decimal_text(n as nat)),
            RawValue::Number(s) => Some(s@),
            RawValue::Bool(b) => Some(
                if b {
                    "true"@
                } else {
                    "false"@
                },
            ),
            RawValue::Other => None,
        }
    }
}

/// A key and a value of an attribute.
pub struct Entry {
    pub key: Seq<char>,
    pub value: Seq<char>,
}

/// The attributes, each by key and value.
pub open spec fn entries(attrs: Seq<TraceAttribute>) -> Seq<Entry> {
    Seq::new(attrs.len(), |i: int| Entry { key: attrs[i].key@, value: attrs[i].value@ })
}

/// The first position at or after `i` of an entry with the given key.
pub open spec fn entry_from(s: Seq<Entry>, key: Seq<char>, i: int) -> Option<int>
    decreases s.len() - i,
{
    if i < 0 || i >= s.len() {
        None
    } else if s[i].key == key {
        Some(i)
    } else {
        entry_from(s, key, i + 1)
    }
}

/// The entries with a value set for a key: the value of a key that is
/// there already is replaced, a new key goes to the end.
pub open spec fn with_entry(s: Seq<Entry>, key: Seq<char>, value: Seq<char>) -> Seq<Entry> {
    match entry_from(s, key, 0) {
        Some(i) => s.update(i, Entry { key, value }),
        None => s.push(Entry { key, value }),
    }
}

/// The attributes after the first `n` fields are read.
pub open spec fn attributes_of(extra: Seq<RawField>, n: nat) -> Seq<Entry>
    decreases n,
{
    if n == 0 || n > extra.len() {
        Seq::empty()
    } else {
        let before = attributes_of(extra, (n - 1) as nat);
        match attribute_text(extra[n - 1]) {
            Some(value) => with_entry(before, extra[n - 1].key@, value),
            None => before,
        }
    }
}

/// The nanoseconds of the duration of a raw trace: its milliseconds if
/// given, else its duration text, else none.
pub open spec fn raw_duration(raw: RawTrace) -> Result<nat, ErrorText> {
    match raw.duration_ms {
        Some(ms) => Ok(ms as nat * 1_000_000),
        None => match raw.duration {
            Some(text) => duration_nanos(text@),
            None => Ok(0),
        },
    }
}

/// Whether a raw trace is an error: by its explicit flag, `is_error`
/// before `error`; else by a status of 500 or more.
pub open spec fn raw_is_error(raw: RawTrace) -> bool {
    match raw.is_error {
        Some(flag) => flag,
        None => match raw.error {
            Some(flag) => flag,
            None => match raw_status(raw) {
                Some(s) => s >= 500,
                None => false,
            },
        },
    }
}

/// Whether `trace` is the trace that a raw trace stands for.
pub open spec fn is_trace_of(trace: Trace, raw: RawTrace) -> bool {
    &&& trace.trace_id@ == raw.trace_id@
    &&& raw_duration(raw) == Ok::<nat, ErrorText>(nanos_of(trace.duration))
    &&& trace.status == raw_status(raw)
    &&& match raw_text(raw.service, raw.extra@, "service.name"@) {
        Some(s) => trace.service is Some && trace.service->0@ == s,
        None => trace.service is None,
    }
    &&& match raw_text(raw.endpoint, raw.extra@, "http.route"@) {
        Some(s) => trace.endpoint is Some && trace.endpoint->0@ == s,
        None => trace.endpoint is None,
    }
    &&& trace.is_error == raw_is_error(raw)
    &&& entries(trace.attributes@) == attributes_of(raw.extra@, raw.extra@.len())
    &&& trace.spans@.len() == 0
    &&& trace.span_count == 0
}

/// The value of the first field with the given key.
fn find_field<'a>(extra: &'a Vec<RawField>, key: &str) -> (r: Option<&'a RawValue>)
    ensures
        match field_value(extra@, key@) {
            Some(v) => r == Some(&v),
            None => r is None,
        },
{
    let mut i: usize = 0;
    while i < extra.len()
        invariant
            i <= extra@.len(),
            field_from(extra@, key@, i as int) == field_from(extra@, key@, 0),
        decreases extra.len() - i,
    {
        if str_eq(extra[i].key.as_str(), key) {
            return Some(&extra[i].value);
        }
        i += 1;
    }
    None
}

/// Setting an attribute of a trace sets the entry.
proof fn lemma_with_entry(before: Seq<TraceAttribute>, after: Seq<TraceAttribute>, key: Seq<char>, value: Seq<char>)
    requires
        match trace_attribute_index(before, key) {
            Some(i) => after.len() == before.len() && after[i].key == before[i].key
                && after[i].value@ == value && forall|k: int|
                0 <= k < after.len() && k != i ==> after[k] == before[k],
            None => after.len() == before.len() + 1 && after.drop_last() == before
                && after.last().key@ == key && after.last().value@ == value,
        },
    ensures
        entries(after) == with_entry(entries(before), key, value),
{
    lemma_entry_index(before, key, 0);
    match trace_attribute_index(before, key) {
        Some(i) => {
            assert(entries(after) =~= entries(before).update(i, Entry { key, value }));
        },
        None => {
            assert forall|k: int| 0 <= k < before.len() implies entries(after)[k] == entries(
                before,
            )[k] by {
                assert(after.drop_last()[k] == before[k]);
            }
            assert(entries(after) =~= entries(before).push(Entry { key, value }));
        },
    }
}

/// Looking up a key among attributes and among their entries comes to
/// the same.
proof fn lemma_entry_index(attrs: Seq<TraceAttribute>, key: Seq<char>, i: int)
    requires
        0 <= i <= attrs.len(),
    ensures
        entry_from(entries(attrs), key, i) == crate::trace::trace_attribute_from(attrs, key, i),
        crate::trace::trace_attribute_from(attrs, key, i) is Some ==> {
            let p = crate::trace::trace_attribute_from(attrs, key, i)->0;
            i <= p < attrs.len() && attrs[p].key@ == key
        },
    decreases attrs.len() - i,
{
    if i < attrs.len() {
        lemma_entry_index(attrs, key, i + 1);
    }
}

impl RawTrace {
    /// The trace that the raw trace stands for. A duration that cannot be
    /// read is an error.
    pub fn into_trace(self) -> (r: Result<Trace, Error>)
        ensures
            match r {
                Ok(trace) => is_trace_of(trace, self),
                Err(e) => raw_duration(self) == Err::<nat, ErrorText>(e@),
            },
    {
        let mut trace = Trace::new(self.trace_id.as_str());
        if let Some(ms) = self.duration_ms {
            trace = trace.with_duration(Duration::from_millis(ms));
        } else if let Some(text) = &self.duration {
            match parse_duration(text.as_str()) {
                Ok(d) => {
                    trace = trace.with_duration(d);
                },
                Err(e) => {
                    return Err(e);
                },
            }
        }
        let status_code: Option<u16> = match self.status {
            Some(s) => Some(s),
            None => match find_field(&self.extra, "http.status_code") {
                Some(RawValue::Unsigned(n)) => {
                    if *n <= 65_535 {
                        Some(*n as u16)
                    } else {
                        None
                    }
                },
                _ => None,
            },
        };
        if let Some(s) = status_code {
            trace = trace.with_status(s);
        }
        match &self.service {
            Some(s) => {
                trace = trace.with_service(s.as_str());
            },
            None => match find_field(&self.extra, "service.name") {
                Some(RawValue::Text(s)) => {
                    trace = trace.with_service(s.as_str());
                },
                _ => {},
            },
        }
        match &self.endpoint {
            Some(s) => {
                trace = trace.with_endpoint(s.as_str());
            },
            None => match find_field(&self.extra, "http.route") {
                Some(RawValue::Text(s)) => {
                    trace = trace.with_endpoint(s.as_str());
                },
                _ => {},
            },
        }
        match self.is_error {
            Some(flag) => {
                trace.is_error = flag;
            },
            None => match self.error {
                Some(flag) => {
                    trace.is_error = flag;
                },
                None => {},
            },
        }
        let n = self.extra.len();
        let mut i: usize = 0;
        assert(entries(trace.attributes@) == attributes_of(self.extra@, 0));
        while i < n
            invariant
                n == self.extra@.len(),
                i <= n,
                trace.trace_id@ == self.trace_id@,
                raw_duration(self) == Ok::<nat, ErrorText>(nanos_of(trace.duration)),
                trace.status == raw_status(self),
                match raw_text(self.service, self.extra@, "service.name"@) {
                    Some(s) => trace.service is Some && trace.service->0@ == s,
                    None => trace.service is None,
                },
                match raw_text(self.endpoint, self.extra@, "http.route"@) {
                    Some(s) => trace.endpoint is Some && trace.endpoint->0@ == s,
                    None => trace.endpoint is None,
                },
                trace.is_error == raw_is_error(self),
                trace.spans@.len() == 0,
                trace.span_count == 0,
                entries(trace.attributes@) == attributes_of(self.extra@, i as nat),
            decreases n - i,
        {
            let field = &self.extra[i];
            let key = field.key.as_str();
            if !(str_eq(key, "http.status_code") || str_eq(key, "service.name") || str_eq(
                key,
                "http.route",
            )) {
                let value: Option<String> = match &field.value {
                    RawValue::Text(s) => Some(s.clone()),
                    RawValue::Unsigned(n) => {
                        let digits = crate::text::decimal_chars(*n as u128);
                        Some(string_of(digits.as_slice()))
                    },
                    RawValue::Number(s) => Some(s.clone()),
                    RawValue::Bool(b) => Some(
                        if *b {
                            "true".to_owned()
                        } else {
                            "false".to_owned()
                        },
                    ),
                    RawValue::Other => None,
                };
                if let Some(text) = value {
                    let ghost before = trace.attributes@;
                    trace = trace.with_attribute(key, text.as_str());
                    proof {
                        lemma_with_entry(before, trace.attributes@, key@, text@);
                    }
                }
            }
            i += 1;
        }
        Ok(trace)
    }
}

/// The traces that the first `n` raw traces stand for, without those
/// whose duration cannot be read.
pub open spec fn readable(raw: Seq<RawTrace>, n: nat) -> Seq<RawTrace>
    decreases n,
{
    if n == 0 || n > raw.len() {
        Seq::empty()
    } else if raw_duration(raw[n - 1]) is Ok {
        readable(raw, (n - 1) as nat).push(raw[n - 1])
    } else {
        readable(raw, (n - 1) as nat)
    }
}

/// Whether a trace is the bare example with the given identifier, duration
/// in milliseconds, status, service and endpoint.
pub open spec fn is_example(
    t: Trace,
    id: Seq<char>,
    millis: u64,
    status: u16,
    service: Seq<char>,
    endpoint: Seq<char>,
) -> bool {
    is_bare_trace(t, id, millis as nat * 1_000_000, status, service, Some(endpoint))
}

/// A bare example trace.
fn example_trace(id: &str, millis: u64, status: u16, service: &str, endpoint: &str) -> (t: Trace)
    ensures
        is_example(t, id@, millis, status, service@, endpoint@),
{
    bare_trace(id, millis, status, service, Some(endpoint))
}

impl Corpus {
    /// The corpus of the raw traces that can be read, in their order.
    pub fn from_raw_traces(raw_traces: Vec<RawTrace>) -> (corpus: Self)
        ensures
            corpus@.len() == readable(raw_traces@, raw_traces@.len()).len(),
            forall|k: int|
                0 <= k < corpus@.len() ==> is_trace_of(
                    #[trigger] corpus@[k],
                    readable(raw_traces@, raw_traces@.len())[k],
                ),
    {
        let ghost all = raw_traces@;
        let mut corpus = Corpus::new();
        let n = raw_traces.len();
        let mut pending = crate::order::reversed(raw_traces);
        let mut taken: usize = 0;
        while pending.len() > 0
            invariant
                taken + pending@.len() == n,
                n == all.len(),
                forall|i: int| 0 <= i < pending@.len() ==> #[trigger] pending@[i] == all[n - 1 - i],
                corpus@.len() == readable(all, taken as nat).len(),
                forall|k: int|
                    0 <= k < corpus@.len() ==> is_trace_of(
                        #[trigger] corpus@[k],
                        readable(all, taken as nat)[k],
                    ),
            decreases pending.len(),
        {
            let ghost len = pending@.len();
            match pending.pop() {
                Some(raw) => {
                    assert(raw == all[taken as int]);
                    match raw.into_trace() {
                        Ok(trace) => {
                            corpus.add(trace);
                        },
                        Err(_) => {},
                    }
                    taken += 1;
                },
                None => {},
            }
        }
        corpus
    }

    /// A corpus of six traces for trying things out: four that succeed, two of
    /// them slow, and two server errors.
    pub fn example() -> (corpus: Self)
        ensures
            corpus@.len() == 6,
            is_example(corpus@[0], "trace-001"@, 45, 200, "api-gateway"@, "GET /users"@),
            is_example(corpus@[1], "trace-002"@, 1250, 200, "checkout"@, "POST /orders"@),
            is_example(corpus@[2], "trace-003"@, 89, 500, "inventory"@, "GET /stock"@),
            is_example(corpus@[3], "trace-004"@, 5200, 200, "search"@, "GET /search"@),
            is_example(corpus@[4], "trace-005"@, 32, 204, "auth"@, "POST /login"@),
            is_example(corpus@[5], "trace-006"@, 78, 503, "payments"@, "POST /charge"@),
    {
        let mut corpus = Corpus::new();
        corpus.add(example_trace("trace-001", 45, 200, "api-gateway", "GET /users"));
        corpus.add(example_trace("trace-002", 1250, 200, "checkout", "POST /orders"));
        corpus.add(example_trace("trace-003", 89, 500, "inventory", "GET /stock"));
        corpus.add(example_trace("trace-004", 5200, 200, "search", "GET /search"));
        corpus.add(example_trace("trace-005", 32, 204, "auth", "POST /login"));
        corpus.add(example_trace("trace-006", 78, 503, "payments", "POST /charge"));
        corpus
    }
}

} // verus!
