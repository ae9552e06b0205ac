//! Spans: the units of work that make up a trace.

use core::time::Duration;
use vstd::prelude::*;
use vstd::string::StringExecFns;
use crate::text::{append_decimal, decimal_text, str_eq};
use crate::time::nanos_of;

verus! {

/// The kind of a span.
#[derive(Debug, Clone, Copy, PartialEq, Eq, Hash, Structural)]
pub enum SpanKind {
    /// Unspecified span kind.
    Unspecified,
    /// An internal operation within an application.
    Internal,
    /// Handling a synchronous request from a client.
    Server,
    /// Making a synchronous request to a server.
    Client,
    /// Initiating an asynchronous request.
    Producer,
    /// Handling an asynchronous request.
    Consumer,
}

impl SpanKind {
    /// The span kind that a wire-format integer stands for.
    pub fn from_otlp(value: i32) -> (k: Self)
        ensures
            k == match value {
                1 => SpanKind::Internal,
                2 => SpanKind::Server,
                3 => SpanKind::Client,
                4 => SpanKind::Producer,
                5 => SpanKind::Consumer,
                _ => SpanKind::Unspecified,
            },
    {
        match value {
            1 => SpanKind::Internal,
            2 => SpanKind::Server,
            3 => SpanKind::Client,
            4 => SpanKind::Producer,
            5 => SpanKind::Consumer,
            _ => SpanKind::Unspecified,
        }
    }
}

impl Default for SpanKind {
    fn default() -> (k: Self)
        ensures
            k == SpanKind::Unspecified,
    {
        SpanKind::Unspecified
    }
}

/// Whether a span succeeded or failed.
#[derive(Debug, Clone, Copy, PartialEq, Eq, Hash, Structural)]
pub enum StatusCode {
    /// Status not set.
    Unset,
    /// The operation completed successfully.
    Okay,
    /// The operation resulted in an error.
    Error,
}

impl StatusCode {
    /// The status code that a wire-format integer stands for.
    pub fn from_otlp(value: i32) -> (c: Self)
        ensures
            c == match value {
                1 => StatusCode::Okay,
                2 => StatusCode::Error,
                _ => StatusCode::Unset,
            },
    {
        match value {
            1 => StatusCode::Okay,
            2 => StatusCode::Error,
            _ => StatusCode::Unset,
        }
    }

    /// Whether this status is an error.
    pub fn is_error(self) -> (r: bool)
        ensures
            r == (self == StatusCode::Error),
    {
        match self {
            StatusCode::Error => true,
            _ => false,
        }
    }
}

impl Default for StatusCode {
    fn default() -> (c: Self)
        ensures
            c == StatusCode::Unset,
    {
        StatusCode::Unset
    }
}

/// Status of a span operation.
#[derive(Debug, Clone, PartialEq, Eq)]
pub struct SpanStatus {
    /// The status code.
    pub code: StatusCode,
    /// Optional status message, typically for errors.
    pub message: Option<String>,
}

impl SpanStatus {
    /// Creates a status with the given code and no message.
    pub fn new(code: StatusCode) -> (s: Self)
        ensures
            s.code == code,
            s.message is None,
    {
        SpanStatus { code, message: None }
    }

    /// Creates an error status with a message.
    pub fn error(message: &str) -> (s: Self)
        ensures
            s.code == StatusCode::Error,
            s.message is Some,
            s.message->0@ == message@,
    {
        SpanStatus { code: StatusCode::Error, message: Some(message.to_owned()) }
    }

    /// Creates an OK status.
    pub fn ok() -> (s: Self)
        ensures
            s.code == StatusCode::Okay,
            s.message is None,
    {
        SpanStatus::new(StatusCode::Okay)
    }

    /// Whether this status is an error.
    pub fn is_error(&self) -> (r: bool)
        ensures
            r == (self.code == StatusCode::Error),
    {
        self.code.is_error()
    }
}

impl Default for SpanStatus {
    fn default() -> (s: Self)
        ensures
            s.code == StatusCode::Unset,
            s.message is None,
    {
        SpanStatus { code: StatusCode::Unset, message: None }
    }
}

/// A value stored as a span attribute.
#[derive(Debug, Clone, PartialEq)]
pub enum AttributeValue {
    /// A string value.
    String(String),
    /// A 64-bit integer value.
    Int(i64),
    /// A number with a fraction, kept as its decimal text.
    Float(String),
    /// A boolean value.
    Bool(bool),
    /// An array of string values.
    StringArray(Vec<String>),
}

/// The decimal numeral of an integer, with `-` before a negative one.
pub open spec fn int_text(i: int) -> Seq<char> {
    if i < 0 {
        seq!['-'] + decimal_text((-i) as nat)
    } else {
        decimal_text(i as nat)
    }
}

/// The first `n` strings joined with commas between them.
pub open spec fn joined(parts: Seq<String>, n: nat) -> Seq<char>
    decreases n,
{
    if n == 0 || n > parts.len() {
        Seq::empty()
    } else if n == 1 {
        parts[0]@
    } else {
        joined(parts, (n - 1) as nat) + seq![','] + parts[n - 1]@
    }
}

impl AttributeValue {
    /// The text that stands for the value.
    pub open spec fn text(&self) -> Seq<char> {
        match self {
            AttributeValue::String(s) => s@,
            AttributeValue::Int(i) => int_text(*i as int),
            AttributeValue::Float(f) => f@,
            AttributeValue::Bool(b) => if *b {
                "true"@
            } else {
                "false"@
            },
            AttributeValue::StringArray(arr) => joined(arr@, arr@.len()),
        }
    }

    /// The value as text: arrays with commas between the elements.
    pub fn as_string(&self) -> (s: String)
        ensures
            s@ == self.text(),
    {
        match self {
            AttributeValue::String(s) => s.clone(),
            AttributeValue::Int(i) => {
                let mut out = String::new();
                if *i < 0 {
                    out.append("-");
                    proof {
                        reveal_strlit("-");
                        assert("-"@ == seq!['-']);
                    }
                    let magnitude: u128 = (-(*i as i128)) as u128;
                    append_decimal(&mut out, magnitude);
                } else {
                    append_decimal(&mut out, *i as u128);
                    assert(out@ == decimal_text(*i as nat));
                }
                out
            },
            AttributeValue::Float(f) => f.clone(),
            AttributeValue::Bool(b) => if *b {
                "true".to_owned()
            } else {
                "false".to_owned()
            },
            AttributeValue::StringArray(arr) => {
                let mut out = String::new();
                let mut k: usize = 0;
                while k < arr.len()
                    invariant
                        k <= arr@.len(),
                        out@ == joined(arr@, k as nat),
                    decreases arr.len() - k,
                {
                    if k > 0 {
                        out.append(",");
                        proof {
                            reveal_strlit(",");
                            assert(","@ == seq![',']);
                        }
                    }
                    out.append(arr[k].as_str());
                    k += 1;
                }
                out
            },
        }
    }

    /// The value if it is an integer.
    pub fn as_i64(&self) -> (r: Option<i64>)
        ensures
            r == match self {
                AttributeValue::Int(i) => Some(*i),
                _ => None,
            },
    {
        match self {
            AttributeValue::Int(i) => Some(*i),
            _ => None,
        }
    }

    /// The value if it is a string.
    pub fn as_str(&self) -> (r: Option<&str>)
        ensures
            match self {
                AttributeValue::String(s) => r is Some && r->0@ == s@,
                _ => r is None,
            },
    {
        match self {
            AttributeValue::String(s) => Some(s.as_str()),
            _ => None,
        }
    }
}

/// A named span attribute.
#[derive(Debug, Clone, PartialEq)]
pub struct SpanAttribute {
    /// The attribute's key.
    pub key: String,
    /// The attribute's value.
    pub value: AttributeValue,
}

/// The first position at or after `i` whose key is `key`.
pub open spec fn attribute_index_from(attrs: Seq<SpanAttribute>, key: Seq<char>, i: int) -> Option<
    int,
>
    decreases attrs.len() - i,
{
    if i < 0 || i >= attrs.len() {
        None
    } else if attrs[i].key@ == key {
        Some(i)
    } else {
        attribute_index_from(attrs, key, i + 1)
    }
}

/// The first position whose key is `key`.
pub open spec fn attribute_index(attrs: Seq<SpanAttribute>, key: Seq<char>) -> Option<int> {
    attribute_index_from(attrs, key, 0)
}

/// A unit of work within a trace.
#[derive(Debug, Clone, PartialEq)]
pub struct Span {
    /// Unique identifier of this span.
    pub span_id: String,
    /// Identifier of the parent span, if there is one.
    pub parent_span_id: Option<String>,
    /// The operation name.
    pub name: String,
    /// The service that produced this span.
    pub service: String,
    /// How long the span lasted.
    pub duration: Duration,
    /// Start time in nanoseconds since the Unix epoch.
    pub start_time_ns: u64,
    /// The kind of span.
    pub kind: SpanKind,
    /// The span status.
    pub status: SpanStatus,
    /// Span attributes, each key at most once, in the order of insertion.
    pub attributes: Vec<SpanAttribute>,
}

impl Span {
    /// The HTTP status code that the attributes give, if it is an integer
    /// that fits 16 bits.
    pub open spec fn status_code(&self) -> Option<u16> {
        match attribute_index(self.attributes@, "http.status_code"@) {
            Some(i) => match self.attributes@[i].value {
                AttributeValue::Int(code) if 0 <= code <= u16::MAX => Some(code as u16),
                _ => None,
            },
            None => None,
        }
    }

    /// The HTTP route that the attributes give, if it is a string.
    pub open spec fn route(&self) -> Option<Seq<char>> {
        match attribute_index(self.attributes@, "http.route"@) {
            Some(i) => match self.attributes@[i].value {
                AttributeValue::String(s) => Some(s@),
                _ => None,
            },
            None => None,
        }
    }

    /// Creates a span with the given identifier and name, without parent,
    /// service, attributes, duration or status.
    pub fn new(span_id: &str, name: &str) -> (s: Self)
        ensures
            s.span_id@ == span_id@,
            s.parent_span_id is None,
            s.name@ == name@,
            s.service@.len() == 0,
            nanos_of(s.duration) == 0,
            s.start_time_ns == 0,
            s.kind == SpanKind::Unspecified,
            s.status.code == StatusCode::Unset,
            s.status.message is None,
            s.attributes@.len() == 0,
    {
        Span {
            span_id: span_id.to_owned(),
            parent_span_id: None,
            name: name.to_owned(),
            service: String::new(),
            duration: Duration::from_nanos(0),
            start_time_ns: 0,
            kind: SpanKind::Unspecified,
            status: SpanStatus { code: StatusCode::Unset, message: None },
            attributes: Vec::new(),
        }
    }

    /// Sets the parent span.
    pub fn with_parent(self, parent_id: &str) -> (s: Self)
        ensures
            s.parent_span_id is Some,
            s.parent_span_id->0@ == parent_id@,
            s == (Span { parent_span_id: s.parent_span_id, ..self }),
    {
        let mut span = self;
        span.parent_span_id = Some(parent_id.to_owned());
        span
    }

    /// Sets the service name.
    pub fn with_service(self, service: &str) -> (s: Self)
        ensures
            s.service@ == service@,
            s == (Span { service: s.service, ..self }),
    {
        let mut span = self;
        span.service = service.to_owned();
        span
    }

    /// Sets the duration.
    pub fn with_duration(self, duration: Duration) -> (s: Self)
        ensures
            s == (Span { duration, ..self }),
    {
        let mut span = self;
        span.duration = duration;
        span
    }

    /// Sets the start time in nanoseconds since the Unix epoch.
    pub fn with_start_time_ns(self, start_time_ns: u64) -> (s: Self)
        ensures
            s == (Span { start_time_ns, ..self }),
    {
        let mut span = self;
        span.start_time_ns = start_time_ns;
        span
    }

    /// Sets the span kind.
    pub fn with_kind(self, kind: SpanKind) -> (s: Self)
        ensures
            s == (Span { kind, ..self }),
    {
        let mut span = self;
        span.kind = kind;
        span
    }

    /// Sets the span status.
    pub fn with_status(self, status: SpanStatus) -> (s: Self)
        ensures
            s == (Span { status, ..self }),
    {
        let mut span = self;
        span.status = status;
        span
    }

    /// Sets an attribute: the value of a key that is there already is
    /// replaced, a new key goes to the end.
    pub fn with_attribute(self, key: &str, value: AttributeValue) -> (s: Self)
        ensures
            s == (Span { attributes: s.attributes, ..self }),
            match attribute_index(self.attributes@, key@) {
                Some(i) => s.attributes@ == self.attributes@.update(
                    i,
                    SpanAttribute { key: self.attributes@[i].key, value },
                ),
                None => s.attributes@.len() == self.attributes@.len() + 1
                    && s.attributes@.drop_last() == self.attributes@
                    && s.attributes@.last().key@ == key@
                    && s.attributes@.last().value == value,
            },
    {
        let mut span = self;
        match find_attribute(&span.attributes, key) {
            Some(i) => {
                span.attributes[i].value = value;
                assert(span.attributes@ == self.attributes@.update(
                    i as int,
                    SpanAttribute { key: self.attributes@[i as int].key, value },
                ));
            },
            None => {
                span.attributes.push(SpanAttribute { key: key.to_owned(), value });
                assert(span.attributes@.drop_last() == self.attributes@);
            },
        }
        span
    }

    /// Whether this span has no parent.
    pub fn is_root(&self) -> (r: bool)
        ensures
            r == (self.parent_span_id is None),
    {
        self.parent_span_id.is_none()
    }

    /// Whether this span is an error.
    pub fn is_error(&self) -> (r: bool)
        ensures
            r == (self.status.code == StatusCode::Error),
    {
        self.status.is_error()
    }

    /// The value of an attribute.
    pub fn get_attribute(&self, key: &str) -> (r: Option<&AttributeValue>)
        ensures
            match attribute_index(self.attributes@, key@) {
                Some(i) => r == Some(&self.attributes@[i].value),
                None => r is None,
            },
    {
        match find_attribute(&self.attributes, key) {
            Some(i) => Some(&self.attributes[i].value),
            None => None,
        }
    }

    /// The HTTP status code from the attributes, if present.
    pub fn http_status_code(&self) -> (r: Option<u16>)
        ensures
            r == self.status_code(),
    {
        match self.get_attribute("http.status_code") {
            Some(AttributeValue::Int(code)) => {
                if 0 <= *code && *code <= 65_535 {
                    Some(*code as u16)
                } else {
                    None
                }
            },
            _ => None,
        }
    }

    /// The HTTP route from the attributes, if present.
    pub fn http_route(&self) -> (r: Option<&str>)
        ensures
            match self.route() {
                Some(route) => r is Some && r->0@ == route,
                None => r is None,
            },
    {
        match self.get_attribute("http.route") {
            Some(AttributeValue::String(s)) => Some(s.as_str()),
            _ => None,
        }
    }
}

/// The first position whose key is `key`.
pub fn find_attribute(attrs: &Vec<SpanAttribute>, key: &str) -> (r: Option<usize>)
    ensures
        match r {
            Some(i) => attribute_index(attrs@, key@) == Some(i as int) && i < attrs@.len(),
            None => attribute_index(attrs@, key@) is None,
        },
{
    let mut i: usize = 0;
    while i < attrs.len()
        invariant
            i <= attrs@.len(),
            attribute_index_from(attrs@, key@, i as int) == attribute_index(attrs@, key@),
        decreases attrs.len() - i,
    {
        if str_eq(attrs[i].key.as_str(), key) {
            return Some(i);
        }
        i += 1;
    }
    None
}

} // verus!
