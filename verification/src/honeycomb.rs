//! Spans as event stores export them, one object of fields for each span:
//! which fields make a span, and which spans make a trace.

use core::time::Duration;
use vstd::prelude::*;
use crate::error::{Error, ErrorText};
use crate::grouping::{are_traces_of, group_traced, TracedSpan};
use crate::ingestor::{is_known_field, known_field};
use crate::order::reversed;
use crate::span::{AttributeValue, Span, SpanAttribute, SpanKind, SpanStatus, StatusCode};
use crate::text::str_eq;
use crate::time::nanos_of;
use crate::trace::Trace;

verus! {

/// A number of an object, by what is read of it.
#[derive(Debug, Clone, PartialEq, Eq)]
pub struct JsonNumber {
    /// The number, if it is an integer of 64 bits.
    pub integer: Option<i64>,
    /// The number in millionths, rounded.
    pub micros: i128,
    /// The number as it is written.
    pub text: String,
}

/// A value of an object.
#[derive(Debug, Clone, PartialEq, Eq)]
pub enum JsonValue {
    /// A text.
    Text(String),
    /// A number.
    Number(JsonNumber),
    /// A truth value.
    Bool(bool),
    /// A list; of each item its text, if it is one.
    Array(Vec<Option<String>>),
    /// Anything else.
    Other,
}

/// A field of an object.
#[derive(Debug, Clone, PartialEq, Eq)]
pub struct JsonField {
    /// The name of the field.
    pub key: String,
    /// Its value.
    pub value: JsonValue,
}

/// The first field at or after `i` of the given name.
pub open spec fn field_from(fields: Seq<JsonField>, key: Seq<char>, i: int) -> Option<int>
    decreases fields.len() - i,
{
    if i < 0 || i >= fields.len() {
        None
    } else if fields[i].key@ == key {
        Some(i)
    } else {
        field_from(fields, key, i + 1)
    }
}

/// The value of the first field of the given name.
pub open spec fn value_named(fields: Seq<JsonField>, key: Seq<char>) -> Option<JsonValue> {
    match field_from(fields, key, 0) {
        Some(i) => Some(fields[i].value),
        None => None,
    }
}

/// The first field at or after `i` of the given name lies within the
/// fields and has the name.
pub proof fn lemma_field_from(fields: Seq<JsonField>, key: Seq<char>, i: int)
    requires
        0 <= i,
    ensures
        match field_from(fields, key, i) {
            Some(k) => i <= k < fields.len() && fields[k].key@ == key,
            None => true,
        },
    decreases fields.len() - i,
{
    if i < fields.len() && fields[i].key@ != key {
        lemma_field_from(fields, key, i + 1);
    }
}

/// The value of the first field of the given name.
fn get_value<'a>(fields: &'a Vec<JsonField>, key: &str) -> (r: Option<&'a JsonValue>)
    ensures
        match value_named(fields@, key@) {
            Some(v) => r is Some && *r->0 == v,
            None => r is None,
        },
{
    let mut i: usize = 0;
    while i < fields.len()
        invariant
            i <= fields@.len(),
            field_from(fields@, key@, 0) == field_from(fields@, key@, i as int),
        decreases fields.len() - i,
    {
        if str_eq(fields[i].key.as_str(), key) {
            return Some(&fields[i].value);
        }
        i += 1;
    }
    None
}

/// The text of the first of the names, from name `k` on, whose field
/// holds a text.
pub open spec fn text_from(fields: Seq<JsonField>, keys: Seq<&'static str>, k: int) -> Option<String>
    decreases keys.len() - k,
{
    if k < 0 || k >= keys.len() {
        None
    } else {
        match value_named(fields, keys[k]@) {
            Some(JsonValue::Text(s)) => Some(s),
            _ => text_from(fields, keys, k + 1),
        }
    }
}

/// The number of the first of the names, from name `k` on, whose field
/// holds a number.
pub open spec fn number_from(fields: Seq<JsonField>, keys: Seq<&'static str>, k: int) -> Option<JsonNumber>
    decreases keys.len() - k,
{
    if k < 0 || k >= keys.len() {
        None
    } else {
        match value_named(fields, keys[k]@) {
            Some(JsonValue::Number(n)) => Some(n),
            _ => number_from(fields, keys, k + 1),
        }
    }
}

/// The truth value of the first of the names, from name `k` on, whose
/// field holds one; false if none does.
pub open spec fn flag_from(fields: Seq<JsonField>, keys: Seq<&'static str>, k: int) -> bool
    decreases keys.len() - k,
{
    if k < 0 || k >= keys.len() {
        false
    } else {
        match value_named(fields, keys[k]@) {
            Some(JsonValue::Bool(b)) => b,
            _ => flag_from(fields, keys, k + 1),
        }
    }
}

/// The text of the first of the names whose field holds a text.
pub fn get_string_field(fields: &Vec<JsonField>, keys: &Vec<&'static str>) -> (r: Option<String>)
    ensures
        r == text_from(fields@, keys@, 0),
{
    let mut k: usize = 0;
    while k < keys.len()
        invariant
            k <= keys@.len(),
            text_from(fields@, keys@, 0) == text_from(fields@, keys@, k as int),
        decreases keys.len() - k,
    {
        match get_value(fields, keys[k]) {
            Some(JsonValue::Text(s)) => {
                return Some(s.clone());
            },
            _ => {},
        }
        k += 1;
    }
    None
}

/// The number of the first of the names whose field holds a number.
pub fn get_number_field<'a>(fields: &'a Vec<JsonField>, keys: &Vec<&'static str>) -> (r: Option<
    &'a JsonNumber,
>)
    ensures
        match number_from(fields@, keys@, 0) {
            Some(n) => r is Some && *r->0 == n,
            None => r is None,
        },
{
    let mut k: usize = 0;
    while k < keys.len()
        invariant
            k <= keys@.len(),
            number_from(fields@, keys@, 0) == number_from(fields@, keys@, k as int),
        decreases keys.len() - k,
    {
        match get_value(fields, keys[k]) {
            Some(JsonValue::Number(n)) => {
                return Some(n);
            },
            _ => {},
        }
        k += 1;
    }
    None
}

/// The truth value of the first of the names whose field holds one.
pub fn get_bool_field(fields: &Vec<JsonField>, keys: &Vec<&'static str>) -> (r: bool)
    ensures
        r == flag_from(fields@, keys@, 0),
{
    let mut k: usize = 0;
    while k < keys.len()
        invariant
            k <= keys@.len(),
            flag_from(fields@, keys@, 0) == flag_from(fields@, keys@, k as int),
        decreases keys.len() - k,
    {
        match get_value(fields, keys[k]) {
            Some(JsonValue::Bool(b)) => {
                return *b;
            },
            _ => {},
        }
        k += 1;
    }
    false
}

/// An attribute value, by what it holds.
pub enum ValueModel {
    Text(Seq<char>),
    Int(i64),
    Float(Seq<char>),
    Bool(bool),
    Texts(Seq<Seq<char>>),
}

/// What an attribute value holds.
pub open spec fn value_model(v: AttributeValue) -> ValueModel {
    match v {
        AttributeValue::String(s) => ValueModel::Text(s@),
        AttributeValue::Int(i) => ValueModel::Int(i),
        AttributeValue::Float(f) => ValueModel::Float(f@),
        AttributeValue::Bool(b) => ValueModel::Bool(b),
        AttributeValue::StringArray(a) => ValueModel::Texts(Seq::new(a@.len(), |i: int| a@[i]@)),
    }
}

/// The texts among the first `n` items of a list.
pub open spec fn texts_among(items: Seq<Option<String>>, n: nat) -> Seq<Seq<char>>
    decreases n,
{
    if n == 0 || n > items.len() {
        Seq::empty()
    } else {
        match items[n - 1] {
            Some(s) => texts_among(items, (n - 1) as nat).push(s@),
            None => texts_among(items, (n - 1) as nat),
        }
    }
}

/// The attribute that a value becomes, if it becomes one: a text, a
/// number or a truth value as it is, an integer before any other number;
/// of a list its texts, if it has any; nothing else.
pub open spec fn attribute_model(value: JsonValue) -> Option<ValueModel> {
    match value {
        JsonValue::Text(s) => Some(ValueModel::Text(s@)),
        JsonValue::Number(n) => match n.integer {
            Some(i) => Some(ValueModel::Int(i)),
            None => Some(ValueModel::Float(n.text@)),
        },
        JsonValue::Bool(b) => Some(ValueModel::Bool(b)),
        JsonValue::Array(items) => if texts_among(items@, items@.len()).len() == 0 {
            None
        } else {
            Some(ValueModel::Texts(texts_among(items@, items@.len())))
        },
        JsonValue::Other => None,
    }
}

/// The attribute that a value becomes, if it becomes one.
pub fn json_to_attribute(value: &JsonValue) -> (r: Option<AttributeValue>)
    ensures
        match attribute_model(*value) {
            Some(m) => r is Some && value_model(r->0) == m,
            None => r is None,
        },
{
    match value {
        JsonValue::Text(s) => Some(AttributeValue::String(s.clone())),
        JsonValue::Number(n) => match n.integer {
            Some(i) => Some(AttributeValue::Int(i)),
            None => Some(AttributeValue::Float(n.text.clone())),
        },
        JsonValue::Bool(b) => Some(AttributeValue::Bool(*b)),
        JsonValue::Array(items) => {
            let mut strings: Vec<String> = Vec::new();
            let mut i: usize = 0;
            while i < items.len()
                invariant
                    i <= items@.len(),
                    Seq::new(strings@.len(), |k: int| strings@[k]@) == texts_among(items@, i as nat),
                decreases items.len() - i,
            {
                let ghost before = strings@;
                match &items[i] {
                    Some(s) => {
                        strings.push(s.clone());
                        assert(Seq::new(strings@.len(), |k: int| strings@[k]@) =~= Seq::new(
                            before.len(),
                            |k: int| before[k]@,
                        ).push(s@));
                    },
                    None => {},
                }
                i += 1;
            }
            if strings.len() == 0 {
                None
            } else {
                Some(AttributeValue::StringArray(strings))
            }
        },
        JsonValue::Other => None,
    }
}

/// An attribute, by its name and what it holds.
pub struct AttributeModel {
    pub key: Seq<char>,
    pub value: ValueModel,
}

/// The attributes, each by its name and what it holds.
pub open spec fn attribute_models(attrs: Seq<SpanAttribute>) -> Seq<AttributeModel> {
    Seq::new(attrs.len(), |i: int| AttributeModel { key: attrs[i].key@, value: value_model(attrs[i].value) })
}

/// The first attribute at or after `i` of the given name.
pub open spec fn model_from(attrs: Seq<AttributeModel>, key: Seq<char>, i: int) -> Option<int>
    decreases attrs.len() - i,
{
    if i < 0 || i >= attrs.len() {
        None
    } else if attrs[i].key == key {
        Some(i)
    } else {
        model_from(attrs, key, i + 1)
    }
}

/// The attributes with the given one set: in the place of the first of
/// its name, or at the end.
pub open spec fn with_model(attrs: Seq<AttributeModel>, a: AttributeModel) -> Seq<AttributeModel> {
    match model_from(attrs, a.key, 0) {
        Some(i) => attrs.update(i, a),
        None => attrs.push(a),
    }
}

/// The attributes that the first `n` fields give: each field that is no
/// field of the span itself and whose value becomes an attribute sets
/// one, in the order of the fields.
pub open spec fn ingested(fields: Seq<JsonField>, n: nat) -> Seq<AttributeModel>
    decreases n,
{
    if n == 0 || n > fields.len() {
        Seq::empty()
    } else {
        let before = ingested(fields, (n - 1) as nat);
        let field = fields[n - 1];
        if known_field(field.key@) {
            before
        } else {
            match attribute_model(field.value) {
                Some(m) => with_model(before, AttributeModel { key: field.key@, value: m }),
                None => before,
            }
        }
    }
}

/// Sets an attribute: in the place of the first of its name, or at the
/// end.
pub(crate) fn set_attribute(attrs: &mut Vec<SpanAttribute>, key: &str, value: AttributeValue)
    ensures
        attribute_models(final(attrs)@) == with_model(
            attribute_models(old(attrs)@),
            AttributeModel { key: key@, value: value_model(value) },
        ),
{
    let ghost models = attribute_models(attrs@);
    let mut i: usize = 0;
    while i < attrs.len()
        invariant
            i <= attrs@.len(),
            attrs@ == old(attrs)@,
            models == attribute_models(attrs@),
            model_from(models, key@, 0) == model_from(models, key@, i as int),
        decreases attrs.len() - i,
    {
        if str_eq(attrs[i].key.as_str(), key) {
            attrs.set(i, SpanAttribute { key: key.to_owned(), value });
            assert(attribute_models(attrs@) =~= models.update(
                i as int,
                AttributeModel { key: key@, value: value_model(value) },
            ));
            return ;
        }
        i += 1;
    }
    attrs.push(SpanAttribute { key: key.to_owned(), value });
    assert(attribute_models(attrs@) =~= models.push(
        AttributeModel { key: key@, value: value_model(value) },
    ));
}

/// A span as its fields give it.
#[derive(Debug, Clone, PartialEq)]
pub struct RawSpan {
    /// The trace that the span belongs to.
    pub trace_id: String,
    /// The identifier of the span.
    pub span_id: String,
    /// The identifier of its parent.
    pub parent_id: Option<String>,
    /// The name of the operation.
    pub name: String,
    /// The service.
    pub service: String,
    /// How long the span lasted.
    pub duration: Duration,
    /// When it started, in nanoseconds since the Unix epoch.
    pub start_time_ns: Option<u64>,
    /// The status code on the wire.
    pub status_code: Option<i32>,
    /// The status message.
    pub status_message: Option<String>,
    /// Whether the span is an error.
    pub is_error: bool,
    /// The kind of span on the wire.
    pub span_kind: Option<i32>,
    /// The attributes.
    pub attributes: Vec<SpanAttribute>,
}

/// The names under which the trace of a span is given.
pub open spec fn trace_id_keys() -> Seq<&'static str> {
    seq!["trace.trace_id", "trace_id"]
}

/// The names under which the identifier of a span is given.
pub open spec fn span_id_keys() -> Seq<&'static str> {
    seq!["trace.span_id", "span_id"]
}

/// The names under which the parent of a span is given.
pub open spec fn parent_id_keys() -> Seq<&'static str> {
    seq!["trace.parent_id", "parent_id"]
}

/// The names under which the service is given.
pub open spec fn service_keys() -> Seq<&'static str> {
    seq!["service.name", "service_name", "service"]
}

/// The names under which the operation is given.
pub open spec fn name_keys() -> Seq<&'static str> {
    seq!["name", "operation", "span.name"]
}

/// The names under which the duration in milliseconds is given.
pub open spec fn duration_keys() -> Seq<&'static str> {
    seq!["duration_ms", "duration"]
}

/// The names under which the start in milliseconds is given.
pub open spec fn start_keys() -> Seq<&'static str> {
    seq!["timestamp_ms", "start_time_ms", "time"]
}

/// The names under which the error flag is given.
pub open spec fn error_keys() -> Seq<&'static str> {
    seq!["error", "is_error"]
}

/// The names under which the HTTP status is given.
pub open spec fn http_status_keys() -> Seq<&'static str> {
    seq!["http.status_code", "status_code"]
}

/// The names under which the status code is given.
pub open spec fn status_code_keys() -> Seq<&'static str> {
    seq!["status.code", "status_code"]
}

/// The names under which the status message is given.
pub open spec fn status_message_keys() -> Seq<&'static str> {
    seq!["status.message", "status_message"]
}

/// The names under which the kind of span is given.
pub open spec fn kind_keys() -> Seq<&'static str> {
    seq!["span.kind", "kind"]
}

/// The whole part of a number in millionths, cut off towards zero and
/// held within 32 bits.
pub open spec fn whole_i32(micros: i128) -> i32 {
    let whole = if micros >= 0 {
        micros as int / 1_000_000
    } else {
        -((-(micros as int)) / 1_000_000)
    };
    if whole > i32::MAX {
        i32::MAX
    } else if whole < i32::MIN {
        i32::MIN
    } else {
        whole as i32
    }
}

/// The whole part of a number in millionths, held within 32 bits.
fn to_i32(micros: i128) -> (r: i32)
    ensures
        r == whole_i32(micros),
{
    let whole: i128 = if micros >= 0 {
        micros / 1_000_000
    } else if micros == i128::MIN {
        i128::MIN / 1_000_000
    } else {
        -((-micros) / 1_000_000)
    };
    if whole > i32::MAX as i128 {
        i32::MAX
    } else if whole < i32::MIN as i128 {
        i32::MIN
    } else {
        whole as i32
    }
}

/// A number of milliseconds, given in millionths, in nanoseconds held
/// within 64 bits: nothing below zero and nothing above the highest.
pub open spec fn nanos_u64(micros: i128) -> u64 {
    if micros < 0 {
        0
    } else if micros > u64::MAX {
        u64::MAX
    } else {
        micros as u64
    }
}

/// The duration in nanoseconds that the fields give, or none.
pub open spec fn duration_micros(fields: Seq<JsonField>) -> i128 {
    match number_from(fields, duration_keys(), 0) {
        Some(n) => n.micros,
        None => 0,
    }
}

/// Whether the duration that the fields give can be held: it is not
/// negative and fits 64 bits of nanoseconds.
pub open spec fn has_duration(fields: Seq<JsonField>) -> bool {
    0 <= duration_micros(fields) <= u64::MAX
}

/// The error of fields without a trace.
pub open spec fn no_trace_id() -> ErrorText {
    ErrorText::Format { format: "honeycomb"@, message: "missing trace_id"@ }
}

/// The error of fields without an identifier.
pub open spec fn no_span_id() -> ErrorText {
    ErrorText::Format { format: "honeycomb"@, message: "missing span_id"@ }
}

/// Whether `raw` is the span that the fields give.
pub open spec fn is_raw_span_of(raw: RawSpan, fields: Seq<JsonField>) -> bool {
    &&& Some(raw.trace_id) == text_from(fields, trace_id_keys(), 0)
    &&& Some(raw.span_id) == text_from(fields, span_id_keys(), 0)
    &&& raw.parent_id == text_from(fields, parent_id_keys(), 0)
    &&& raw.service@ == match text_from(fields, service_keys(), 0) {
        Some(s) => s@,
        None => Seq::empty(),
    }
    &&& raw.name@ == match text_from(fields, name_keys(), 0) {
        Some(s) => s@,
        None => "unknown"@,
    }
    &&& nanos_of(raw.duration) == duration_micros(fields)
    &&& raw.start_time_ns == match number_from(fields, start_keys(), 0) {
        Some(n) => Some(nanos_u64(n.micros)),
        None => None,
    }
    &&& raw.is_error == (flag_from(fields, error_keys(), 0) || match number_from(
        fields,
        http_status_keys(),
        0,
    ) {
        Some(n) => n.micros >= 500_000_000,
        None => false,
    })
    &&& raw.status_code == match number_from(fields, status_code_keys(), 0) {
        Some(n) => Some(whole_i32(n.micros)),
        None => None,
    }
    &&& raw.status_message == text_from(fields, status_message_keys(), 0)
    &&& raw.span_kind == match number_from(fields, kind_keys(), 0) {
        Some(n) => Some(whole_i32(n.micros)),
        None => None,
    }
    &&& attribute_models(raw.attributes@) == ingested(fields, fields.len())
}

/// Reads a span from the fields of an object. The fields must name a
/// trace and an identifier; the names of the other fields of a span are
/// looked for one after the other, and all fields that are none of a span
/// itself become its attributes.
pub fn parse_honeycomb_span(fields: &Vec<JsonField>) -> (r: Result<RawSpan, Error>)
    requires
        has_duration(fields@),
    ensures
        match r {
            Ok(raw) => is_raw_span_of(raw, fields@),
            Err(e) => if text_from(fields@, trace_id_keys(), 0) is None {
                e@ == no_trace_id()
            } else {
                text_from(fields@, span_id_keys(), 0) is None && e@ == no_span_id()
            },
        },
{
    let trace_id = match get_string_field(fields, &vec!["trace.trace_id", "trace_id"]) {
        Some(id) => id,
        None => {
            return Err(Error::parse("honeycomb", "missing trace_id"));
        },
    };
    let span_id = match get_string_field(fields, &vec!["trace.span_id", "span_id"]) {
        Some(id) => id,
        None => {
            return Err(Error::parse("honeycomb", "missing span_id"));
        },
    };
    let parent_id = get_string_field(fields, &vec!["trace.parent_id", "parent_id"]);
    let service = match get_string_field(fields, &vec!["service.name", "service_name", "service"]) {
        Some(s) => s,
        None => String::new(),
    };
    let name = match get_string_field(fields, &vec!["name", "operation", "span.name"]) {
        Some(s) => s,
        None => "unknown".to_owned(),
    };
    let duration = match get_number_field(fields, &vec!["duration_ms", "duration"]) {
        Some(n) => Duration::from_nanos(n.micros as u64),
        None => Duration::from_nanos(0),
    };
    let start_time_ns = match get_number_field(
        fields,
        &vec!["timestamp_ms", "start_time_ms", "time"],
    ) {
        Some(n) => Some(
            if n.micros < 0 {
                0
            } else if n.micros > u64::MAX as i128 {
                u64::MAX
            } else {
                n.micros as u64
            },
        ),
        None => None,
    };
    let flagged = get_bool_field(fields, &vec!["error", "is_error"]);
    let failed = match get_number_field(fields, &vec!["http.status_code", "status_code"]) {
        Some(n) => n.micros >= 500_000_000,
        None => false,
    };
    let status_code = match get_number_field(fields, &vec!["status.code", "status_code"]) {
        Some(n) => Some(to_i32(n.micros)),
        None => None,
    };
    let status_message = get_string_field(fields, &vec!["status.message", "status_message"]);
    let span_kind = match get_number_field(fields, &vec!["span.kind", "kind"]) {
        Some(n) => Some(to_i32(n.micros)),
        None => None,
    };
    let mut attributes: Vec<SpanAttribute> = Vec::new();
    let mut i: usize = 0;
    assert(attribute_models(attributes@) =~= ingested(fields@, 0));
    while i < fields.len()
        invariant
            i <= fields@.len(),
            attribute_models(attributes@) == ingested(fields@, i as nat),
        decreases fields.len() - i,
    {
        let field = &fields[i];
        if !is_known_field(field.key.as_str()) {
            match json_to_attribute(&field.value) {
                Some(value) => {
                    set_attribute(&mut attributes, field.key.as_str(), value);
                },
                None => {},
            }
        }
        i += 1;
    }
    Ok(
        RawSpan {
            trace_id,
            span_id,
            parent_id,
            name,
            service,
            duration,
            start_time_ns,
            status_code,
            status_message,
            is_error: flagged || failed,
            span_kind,
            attributes,
        },
    )
}

/// The status code that a number on the wire stands for.
pub open spec fn status_code_of(value: i32) -> StatusCode {
    match value {
        1 => StatusCode::Okay,
        2 => StatusCode::Error,
        _ => StatusCode::Unset,
    }
}

/// The kind of span that a number on the wire stands for.
pub open spec fn kind_of(value: i32) -> SpanKind {
    match value {
        1 => SpanKind::Internal,
        2 => SpanKind::Server,
        3 => SpanKind::Client,
        4 => SpanKind::Producer,
        5 => SpanKind::Consumer,
        _ => SpanKind::Unspecified,
    }
}

/// Whether `s` is the span of `raw`: an error has the status of an error
/// with the status message, any other span the status of its code; a
/// span without a start starts at 0, and one without a kind has none.
pub open spec fn is_span_of(s: Span, raw: RawSpan) -> bool {
    &&& s.span_id == raw.span_id
    &&& s.parent_span_id == raw.parent_id
    &&& s.name == raw.name
    &&& s.service == raw.service
    &&& s.duration == raw.duration
    &&& s.start_time_ns == match raw.start_time_ns {
        Some(ns) => ns,
        None => 0,
    }
    &&& s.kind == match raw.span_kind {
        Some(k) => kind_of(k),
        None => SpanKind::Unspecified,
    }
    &&& if raw.is_error {
        s.status.code == StatusCode::Error && s.status.message is Some && s.status.message->0@
            == match raw.status_message {
            Some(m) => m@,
            None => Seq::empty(),
        }
    } else {
        s.status.message is None && s.status.code == match raw.status_code {
            Some(code) => status_code_of(code),
            None => StatusCode::Unset,
        }
    }
    &&& s.attributes == raw.attributes
}

impl RawSpan {
    /// The span that the raw span stands for.
    pub fn into_span(self) -> (s: Span)
        ensures
            is_span_of(s, self),
    {
        let status = if self.is_error {
            match &self.status_message {
                Some(m) => SpanStatus::error(m.as_str()),
                None => {
                    proof {
                        reveal_strlit("");
                    }
                    SpanStatus::error("")
                },
            }
        } else {
            match self.status_code {
                Some(code) => SpanStatus::new(StatusCode::from_otlp(code)),
                None => SpanStatus::new(StatusCode::Unset),
            }
        };
        let kind = match self.span_kind {
            Some(k) => SpanKind::from_otlp(k),
            None => SpanKind::Unspecified,
        };
        let start_time_ns = match self.start_time_ns {
            Some(ns) => ns,
            None => 0,
        };
        proof {
            reveal_strlit("");
            assert(""@ =~= Seq::<char>::empty());
        }
        Span {
            span_id: self.span_id,
            parent_span_id: self.parent_id,
            name: self.name,
            service: self.service,
            duration: self.duration,
            start_time_ns,
            kind,
            status,
            attributes: self.attributes,
        }
    }
}

/// Whether the spans are those of the raw spans, one by one, each in the
/// trace of its raw span.
pub open spec fn are_spans_of(spans: Seq<TracedSpan>, raw: Seq<RawSpan>) -> bool {
    &&& spans.len() == raw.len()
    &&& forall|j: int|
        0 <= j < spans.len() ==> (#[trigger] spans[j]).trace_id == raw[j].trace_id && is_span_of(
            spans[j].span,
            raw[j],
        )
}

/// Whether the traces are made of the raw spans: each raw span gives its
/// span, and the spans are brought together trace by trace.
pub open spec fn are_made_of(traces: Seq<Trace>, raw: Seq<RawSpan>) -> bool {
    exists|spans: Seq<TracedSpan>| #[trigger]
        are_traces_of(traces, spans) && are_spans_of(spans, raw)
}

/// Makes traces of raw spans: the spans of a trace are brought together
/// in their order, and the traces stand in the order in which they first
/// appear.
pub fn group_spans(spans: Vec<RawSpan>) -> (traces: Vec<Trace>)
    ensures
        are_made_of(traces@, spans@),
{
    let ghost all = spans@;
    let n = spans.len();
    let mut pending = reversed(spans);
    let mut traced: Vec<TracedSpan> = Vec::new();
    while pending.len() > 0
        invariant
            traced@.len() + pending@.len() == n,
            n == all.len(),
            forall|i: int| 0 <= i < pending@.len() ==> #[trigger] pending@[i] == all[n - 1 - i],
            forall|j: int|
                0 <= j < traced@.len() ==> (#[trigger] traced@[j]).trace_id == all[j].trace_id
                    && is_span_of(traced@[j].span, all[j]),
        decreases pending.len(),
    {
        match pending.pop() {
            Some(raw) => {
                assert(raw == all[traced@.len() as int]);
                let trace_id = raw.trace_id.clone();
                let span = raw.into_span();
                traced.push(TracedSpan { trace_id, span });
            },
            None => {},
        }
    }
    let ghost made = traced@;
    let traces = group_traced(traced);
    assert(are_traces_of(traces@, made) && are_spans_of(made, all));
    traces
}

/// Reads the spans of objects and makes traces of them. An object that
/// gives no span is left out.
pub fn ingest_objects(objects: &Vec<Vec<JsonField>>) -> (traces: Vec<Trace>)
    requires
        forall|i: int| 0 <= i < objects@.len() ==> has_duration((#[trigger] objects@[i])@),
    ensures
        exists|spans: Seq<RawSpan>| #[trigger]
            are_made_of(traces@, spans) && are_readable(spans, objects@, objects@.len()),
{
    let mut spans: Vec<RawSpan> = Vec::new();
    let mut i: usize = 0;
    while i < objects.len()
        invariant
            i <= objects@.len(),
            forall|k: int| 0 <= k < objects@.len() ==> has_duration((#[trigger] objects@[k])@),
            are_readable(spans@, objects@, i as nat),
        decreases objects.len() - i,
    {
        let ghost before = spans@;
        match parse_honeycomb_span(&objects[i]) {
            Ok(raw) => {
                spans.push(raw);
                assert(spans@.drop_last() == before);
            },
            Err(_) => {},
        }
        i += 1;
    }
    let ghost read = spans@;
    let traces = group_spans(spans);
    assert(are_made_of(traces@, read) && are_readable(read, objects@, objects@.len()));
    traces
}

/// Whether an object gives a span: it names a trace and an identifier.
pub open spec fn gives_span(fields: Seq<JsonField>) -> bool {
    text_from(fields, trace_id_keys(), 0) is Some && text_from(fields, span_id_keys(), 0) is Some
}

/// Whether the spans are those that the first `n` objects give, in their
/// order.
pub open spec fn are_readable(spans: Seq<RawSpan>, objects: Seq<Vec<JsonField>>, n: nat) -> bool
    decreases n,
{
    if n == 0 || n > objects.len() {
        spans.len() == 0
    } else if gives_span(objects[n - 1]@) {
        spans.len() > 0 && is_raw_span_of(spans.last(), objects[n - 1]@) && are_readable(
            spans.drop_last(),
            objects,
            (n - 1) as nat,
        )
    } else {
        are_readable(spans, objects, (n - 1) as nat)
    }
}

} // verus!
