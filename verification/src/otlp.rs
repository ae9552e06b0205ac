//! Spans as the telemetry protocol exports them, by resource and scope:
//! what each span becomes, and which spans make a trace.

use core::time::Duration;
use vstd::prelude::*;
use crate::grouping::{are_traces_of, group_traced, TracedSpan};
use crate::honeycomb::{
    attribute_models, kind_of, set_attribute, status_code_of, texts_among, value_model, with_model,
    AttributeModel, ValueModel,
};
use crate::lockfile::hex_char;
use crate::span::{AttributeValue, Span, SpanAttribute, SpanKind, SpanStatus, StatusCode};
use crate::text::{str_eq, string_of};
use crate::time::nanos_of;
use crate::trace::Trace;

verus! {

/// A value of an attribute on the wire.
#[derive(Debug, Clone, PartialEq, Eq)]
pub enum OtlpValue {
    /// A text.
    Text(String),
    /// A truth value.
    Bool(bool),
    /// An integer.
    Int(i64),
    /// A number with a fraction, as it is written.
    Double(String),
    /// A list; of each item its text, if it is one.
    Array(Vec<Option<String>>),
    /// Bytes.
    Bytes(Vec<u8>),
    /// A list of keys and values.
    KeyValues,
}

/// An attribute on the wire; its value may be missing.
#[derive(Debug, Clone, PartialEq, Eq)]
pub struct OtlpKeyValue {
    /// The name.
    pub key: String,
    /// The value.
    pub value: Option<OtlpValue>,
}

/// The status of a span on the wire.
#[derive(Debug, Clone, PartialEq, Eq)]
pub struct OtlpStatus {
    /// The status code.
    pub code: i32,
    /// The status message; empty if there is none.
    pub message: String,
}

/// A span on the wire.
#[derive(Debug, Clone, PartialEq, Eq)]
pub struct OtlpSpan {
    /// The bytes of the identifier of the trace.
    pub trace_id: Vec<u8>,
    /// The bytes of the identifier of the span.
    pub span_id: Vec<u8>,
    /// The bytes of the identifier of the parent; none for a root.
    pub parent_span_id: Vec<u8>,
    /// The name of the operation.
    pub name: String,
    /// The kind of span.
    pub kind: i32,
    /// The start in nanoseconds since the Unix epoch.
    pub start_time_unix_nano: u64,
    /// The end in nanoseconds since the Unix epoch.
    pub end_time_unix_nano: u64,
    /// The attributes.
    pub attributes: Vec<OtlpKeyValue>,
    /// The status.
    pub status: Option<OtlpStatus>,
}

/// The spans of one scope.
#[derive(Debug, Clone, PartialEq, Eq)]
pub struct OtlpScope {
    /// The spans.
    pub spans: Vec<OtlpSpan>,
}

/// The spans of one resource.
#[derive(Debug, Clone, PartialEq, Eq)]
pub struct OtlpResource {
    /// The attributes of the resource, if it is described.
    pub attributes: Option<Vec<OtlpKeyValue>>,
    /// The scopes.
    pub scopes: Vec<OtlpScope>,
}

/// The first `n` bytes in hexadecimal digits, two for each byte, in lower
/// case.
pub open spec fn hex_of(bytes: Seq<u8>, n: nat) -> Seq<char>
    decreases n,
{
    if n == 0 || n > bytes.len() {
        Seq::empty()
    } else {
        hex_of(bytes, (n - 1) as nat).push(hex_char((bytes[n - 1] / 16) as int)).push(
            hex_char((bytes[n - 1] % 16) as int),
        )
    }
}

/// All the bytes in hexadecimal digits.
pub open spec fn hex_all(bytes: Seq<u8>) -> Seq<char> {
    hex_of(bytes, bytes.len())
}

/// The character of a hexadecimal digit.
fn hex_digit(d: u8) -> (c: char)
    requires
        d < 16,
    ensures
        c == hex_char(d as int),
{
    if d < 10 {
        (48 + d) as char
    } else {
        (87 + d) as char
    }
}

/// Bytes in hexadecimal digits, two for each byte, in lower case.
pub fn hex_encode(bytes: &Vec<u8>) -> (s: String)
    ensures
        s@ == hex_all(bytes@),
{
    let mut out: Vec<char> = Vec::new();
    let mut i: usize = 0;
    while i < bytes.len()
        invariant
            i <= bytes@.len(),
            out@ == hex_of(bytes@, i as nat),
        decreases bytes.len() - i,
    {
        let b = bytes[i];
        out.push(hex_digit(b / 16));
        out.push(hex_digit(b % 16));
        i += 1;
    }
    string_of(out.as_slice())
}

/// The attribute that a value on the wire becomes, if it becomes one: a
/// text, a truth value or a number as it is; of a list its texts, if it
/// has any; bytes in hexadecimal digits; nothing of a list of keys and
/// values.
pub open spec fn otlp_attribute_model(value: OtlpValue) -> Option<ValueModel> {
    match value {
        OtlpValue::Text(s) => Some(ValueModel::Text(s@)),
        OtlpValue::Bool(b) => Some(ValueModel::Bool(b)),
        OtlpValue::Int(i) => Some(ValueModel::Int(i)),
        OtlpValue::Double(d) => Some(ValueModel::Float(d@)),
        OtlpValue::Array(items) => if texts_among(items@, items@.len()).len() == 0 {
            None
        } else {
            Some(ValueModel::Texts(texts_among(items@, items@.len())))
        },
        OtlpValue::Bytes(bytes) => Some(ValueModel::Text(hex_all(bytes@))),
        OtlpValue::KeyValues => None,
    }
}

/// The attribute that a value that may be missing becomes.
pub open spec fn any_attribute_model(value: Option<OtlpValue>) -> Option<ValueModel> {
    match value {
        Some(v) => otlp_attribute_model(v),
        None => None,
    }
}

/// The text of a value, if it is one.
pub fn extract_string_value(value: &Option<OtlpValue>) -> (r: Option<String>)
    ensures
        r == match *value {
            Some(OtlpValue::Text(s)) => Some(s),
            _ => None,
        },
{
    match value {
        Some(OtlpValue::Text(s)) => Some(s.clone()),
        _ => None,
    }
}

/// The attribute that a value on the wire becomes, if it becomes one.
pub fn convert_any_value(value: &Option<OtlpValue>) -> (r: Option<AttributeValue>)
    ensures
        match any_attribute_model(*value) {
            Some(m) => r is Some && value_model(r->0) == m,
            None => r is None,
        },
{
    match value {
        None => None,
        Some(OtlpValue::Text(s)) => Some(AttributeValue::String(s.clone())),
        Some(OtlpValue::Bool(b)) => Some(AttributeValue::Bool(*b)),
        Some(OtlpValue::Int(i)) => Some(AttributeValue::Int(*i)),
        Some(OtlpValue::Double(d)) => Some(AttributeValue::Float(d.clone())),
        Some(OtlpValue::Array(items)) => {
            let mut strings: Vec<String> = Vec::new();
            let mut i: usize = 0;
            while i < items.len()
                invariant
                    i <= items@.len(),
                    Seq::new(strings@.len(), |k: int| strings@[k]@) == texts_among(items@, i as nat),
                decreases items.len() - i,
            {
                let ghost before = strings@;
                match &items[i] {
                    Some(s) => {
                        strings.push(s.clone());
                        assert(Seq::new(strings@.len(), |k: int| strings@[k]@) =~= Seq::new(
                            before.len(),
                            |k: int| before[k]@,
                        ).push(s@));
                    },
                    None => {},
                }
                i += 1;
            }
            if strings.len() == 0 {
                None
            } else {
                Some(AttributeValue::StringArray(strings))
            }
        },
        Some(OtlpValue::Bytes(bytes)) => Some(AttributeValue::String(hex_encode(bytes))),
        Some(OtlpValue::KeyValues) => None,
    }
}

/// The name of the service among the attributes from `i` on: the text of
/// the first attribute `service.name` that holds one.
pub open spec fn service_from(attrs: Seq<OtlpKeyValue>, i: int) -> Option<String>
    decreases attrs.len() - i,
{
    if i < 0 || i >= attrs.len() {
        None
    } else if attrs[i].key@ == "service.name"@ {
        match attrs[i].value {
            Some(OtlpValue::Text(s)) => Some(s),
            _ => service_from(attrs, i + 1),
        }
    } else {
        service_from(attrs, i + 1)
    }
}

/// The name of the service of a resource; empty if it names none.
pub open spec fn service_of(resource: OtlpResource) -> Seq<char> {
    match resource.attributes {
        Some(attrs) => match service_from(attrs@, 0) {
            Some(s) => s@,
            None => Seq::empty(),
        },
        None => Seq::empty(),
    }
}

/// The name of the service of a resource.
pub fn service_name(resource: &OtlpResource) -> (s: String)
    ensures
        s@ == service_of(*resource),
{
    match &resource.attributes {
        Some(attrs) => {
            let mut i: usize = 0;
            while i < attrs.len()
                invariant
                    i <= attrs@.len(),
                    resource.attributes == Some(*attrs),
                    service_from(attrs@, 0) == service_from(attrs@, i as int),
                decreases attrs.len() - i,
            {
                if str_eq(attrs[i].key.as_str(), "service.name") {
                    match extract_string_value(&attrs[i].value) {
                        Some(s) => {
                            assert(service_from(attrs@, i as int) == Some(s));
                            return s;
                        },
                        None => {},
                    }
                }
                i += 1;
            }
            String::new()
        },
        None => String::new(),
    }
}

/// The attributes that the first `n` attributes on the wire give: each
/// whose value becomes an attribute sets one, in their order.
pub open spec fn converted(attrs: Seq<OtlpKeyValue>, n: nat) -> Seq<AttributeModel>
    decreases n,
{
    if n == 0 || n > attrs.len() {
        Seq::empty()
    } else {
        let before = converted(attrs, (n - 1) as nat);
        match any_attribute_model(attrs[n - 1].value) {
            Some(m) => with_model(before, AttributeModel { key: attrs[n - 1].key@, value: m }),
            None => before,
        }
    }
}

/// How long a span lasted: from its start to its end, or no time if it
/// ends before it starts.
pub open spec fn lasted(o: OtlpSpan) -> nat {
    if o.end_time_unix_nano >= o.start_time_unix_nano {
        (o.end_time_unix_nano - o.start_time_unix_nano) as nat
    } else {
        0
    }
}

/// Whether `t` is the span that a span on the wire becomes in the given
/// service: its identifiers are written in hexadecimal digits, and a
/// span without bytes for a parent has none; a status without a message
/// keeps only its code.
pub open spec fn is_otlp_span(t: TracedSpan, o: OtlpSpan, service: Seq<char>) -> bool {
    &&& t.trace_id@ == hex_all(o.trace_id@)
    &&& t.span.span_id@ == hex_all(o.span_id@)
    &&& if o.parent_span_id@.len() == 0 {
        t.span.parent_span_id is None
    } else {
        t.span.parent_span_id is Some && t.span.parent_span_id->0@ == hex_all(o.parent_span_id@)
    }
    &&& t.span.name@ == o.name@
    &&& t.span.service@ == service
    &&& nanos_of(t.span.duration) == lasted(o)
    &&& t.span.start_time_ns == o.start_time_unix_nano
    &&& t.span.kind == kind_of(o.kind)
    &&& match o.status {
        None => t.span.status.code == StatusCode::Unset && t.span.status.message is None,
        Some(status) => t.span.status.code == status_code_of(status.code) && if status.message@.len()
            == 0 {
            t.span.status.message is None
        } else {
            t.span.status.message == Some(status.message)
        },
    }
    &&& attribute_models(t.span.attributes@) == converted(o.attributes@, o.attributes@.len())
}

/// The span that a span on the wire becomes in the given service.
pub fn convert_span(o: &OtlpSpan, service: &str) -> (t: TracedSpan)
    ensures
        is_otlp_span(t, *o, service@),
{
    let trace_id = hex_encode(&o.trace_id);
    let span_id = hex_encode(&o.span_id);
    let duration_ns: u64 = if o.end_time_unix_nano >= o.start_time_unix_nano {
        o.end_time_unix_nano - o.start_time_unix_nano
    } else {
        0
    };
    let mut span = Span::new(span_id.as_str(), o.name.as_str()).with_service(service).with_duration(
        Duration::from_nanos(duration_ns),
    ).with_start_time_ns(o.start_time_unix_nano).with_kind(SpanKind::from_otlp(o.kind));
    if o.parent_span_id.len() > 0 {
        span = span.with_parent(hex_encode(&o.parent_span_id).as_str());
    }
    match &o.status {
        Some(status) => {
            let code = StatusCode::from_otlp(status.code);
            let span_status = if status.message.as_str().unicode_len() == 0 {
                SpanStatus::new(code)
            } else {
                SpanStatus { code, message: Some(status.message.clone()) }
            };
            span = span.with_status(span_status);
        },
        None => {},
    }
    let mut attributes: Vec<SpanAttribute> = Vec::new();
    let mut i: usize = 0;
    assert(attribute_models(attributes@) =~= converted(o.attributes@, 0));
    while i < o.attributes.len()
        invariant
            i <= o.attributes@.len(),
            attribute_models(attributes@) == converted(o.attributes@, i as nat),
        decreases o.attributes.len() - i,
    {
        match convert_any_value(&o.attributes[i].value) {
            Some(value) => {
                set_attribute(&mut attributes, o.attributes[i].key.as_str(), value);
            },
            None => {},
        }
        i += 1;
    }
    span.attributes = attributes;
    TracedSpan { trace_id, span }
}

/// Whether the spans are those that the resources give up to a place:
/// all spans of the resources before resource `r`, of the scopes of that
/// resource before scope `s`, and the first `k` spans of that scope, in
/// this order, each in the service of its resource.
pub open spec fn are_spans_up_to(
    spans: Seq<TracedSpan>,
    resources: Seq<OtlpResource>,
    r: nat,
    s: nat,
    k: nat,
) -> bool
    decreases r, s, k,
{
    if k > 0 {
        &&& spans.len() > 0
        &&& is_otlp_span(
            spans.last(),
            resources[r as int].scopes@[s as int].spans@[k - 1],
            service_of(resources[r as int]),
        )
        &&& are_spans_up_to(spans.drop_last(), resources, r, s, (k - 1) as nat)
    } else if s > 0 {
        are_spans_up_to(
            spans,
            resources,
            r,
            (s - 1) as nat,
            resources[r as int].scopes@[s - 1].spans@.len(),
        )
    } else if r > 0 {
        are_spans_up_to(spans, resources, (r - 1) as nat, resources[r - 1].scopes@.len(), 0)
    } else {
        spans.len() == 0
    }
}

/// Whether the traces are those of the resources: each span on the wire
/// gives its span, and the spans are brought together trace by trace.
pub open spec fn are_ingested(traces: Seq<Trace>, resources: Seq<OtlpResource>) -> bool {
    exists|spans: Seq<TracedSpan>| #[trigger]
        are_traces_of(traces, spans) && are_spans_up_to(spans, resources, resources.len(), 0, 0)
}

/// Makes traces of the spans of resources.
pub fn ingest_resources(resources: &Vec<OtlpResource>) -> (traces: Vec<Trace>)
    ensures
        are_ingested(traces@, resources@),
{
    let mut spans: Vec<TracedSpan> = Vec::new();
    let mut r: usize = 0;
    while r < resources.len()
        invariant
            r <= resources@.len(),
            are_spans_up_to(spans@, resources@, r as nat, 0, 0),
        decreases resources.len() - r,
    {
        let resource = &resources[r];
        let service = service_name(resource);
        let mut s: usize = 0;
        while s < resource.scopes.len()
            invariant
                r < resources@.len(),
                *resource == resources@[r as int],
                service@ == service_of(*resource),
                s <= resource.scopes@.len(),
                are_spans_up_to(spans@, resources@, r as nat, s as nat, 0),
            decreases resource.scopes.len() - s,
        {
            let scope = &resource.scopes[s];
            let mut k: usize = 0;
            while k < scope.spans.len()
                invariant
                    r < resources@.len(),
                    *resource == resources@[r as int],
                    service@ == service_of(*resource),
                    s < resource.scopes@.len(),
                    *scope == resource.scopes@[s as int],
                    k <= scope.spans@.len(),
                    are_spans_up_to(spans@, resources@, r as nat, s as nat, k as nat),
                decreases scope.spans.len() - k,
            {
                let ghost before = spans@;
                spans.push(convert_span(&scope.spans[k], service.as_str()));
                assert(spans@.drop_last() == before);
                k += 1;
            }
            s += 1;
        }
        r += 1;
    }
    let ghost made = spans@;
    let traces = group_traced(spans);
    assert(are_traces_of(traces@, made) && are_spans_up_to(
        made,
        resources@,
        resources@.len(),
        0,
        0,
    ));
    traces
}

} // verus!
