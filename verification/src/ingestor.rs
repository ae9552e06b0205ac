//! Recognition of the wire formats that traces arrive in.

use vstd::prelude::*;
use crate::text::{has_substring, str_contains, str_eq};

verus! {

/// Whether a byte is ASCII white space: space, tab, line feed, form feed
/// or carriage return.
pub open spec fn is_ascii_space(b: u8) -> bool {
    b == 0x20 || b == 0x09 || b == 0x0A || b == 0x0C || b == 0x0D
}

/// The first position at or after `i` that holds no white space, if
/// there is one.
pub open spec fn first_content_from(data: Seq<u8>, i: int) -> Option<int>
    decreases data.len() - i,
{
    if i < 0 || i >= data.len() {
        None
    } else if !is_ascii_space(data[i]) {
        Some(i)
    } else {
        first_content_from(data, i + 1)
    }
}

/// The first byte that is no white space, if there is one.
pub open spec fn first_content_byte(data: Seq<u8>) -> Option<u8> {
    match first_content_from(data, 0) {
        Some(i) => Some(data[i]),
        None => None,
    }
}

/// Whether a byte is ASCII white space.
pub fn byte_is_space(b: u8) -> (r: bool)
    ensures
        r == is_ascii_space(b),
{
    b == 0x20 || b == 0x09 || b == 0x0A || b == 0x0C || b == 0x0D
}

/// The position of the first byte that is no white space.
pub fn first_content(data: &[u8]) -> (r: Option<usize>)
    ensures
        match r {
            Some(i) => first_content_from(data@, 0) == Some(i as int) && i < data@.len(),
            None => first_content_from(data@, 0) is None,
        },
{
    let mut i: usize = 0;
    while i < data.len()
        invariant
            i <= data@.len(),
            first_content_from(data@, i as int) == first_content_from(data@, 0),
        decreases data.len() - i,
    {
        if !byte_is_space(data[i]) {
            return Some(i);
        }
        i += 1;
    }
    None
}

/// The data behind its leading white space; empty if the data is white
/// space only.
pub open spec fn without_leading_space(data: Seq<u8>) -> Seq<u8> {
    match first_content_from(data, 0) {
        Some(start) => data.subrange(start, data.len() as int),
        None => Seq::empty(),
    }
}

/// The data behind its leading white space.
pub fn trim_leading_whitespace(data: &[u8]) -> (rest: &[u8])
    ensures
        rest@ == without_leading_space(data@),
{
    match first_content(data) {
        Some(start) => vstd::slice::slice_subrange(data, start, data.len()),
        None => vstd::slice::slice_subrange(data, 0, 0),
    }
}

/// Whether a content type names the given media type.
pub open spec fn names(content_type: Option<&str>, media_type: Seq<char>) -> bool {
    content_type is Some && has_substring(content_type->0@, media_type)
}

/// Recognises plain JSON: an array of traces, or an object that holds one.
#[derive(Debug, Clone, Copy)]
pub struct JsonIngestor;

impl JsonIngestor {
    /// What is taken for JSON: data whose content type names
    /// `application/json`, or whose first byte that is no white space is
    /// `[` or `{`.
    pub open spec fn handles(header: Seq<u8>, content_type: Option<&str>) -> bool {
        names(content_type, "application/json"@) || first_content_byte(header) == Some(0x5Bu8)
            || first_content_byte(header) == Some(0x7Bu8)
    }

    /// The name of the format.
    pub fn format_name(&self) -> (s: &'static str)
        ensures
            s@ == "json"@,
    {
        "json"
    }

    /// Whether the data looks like JSON.
    pub fn can_handle(&self, header: &[u8], content_type: Option<&str>) -> (r: bool)
        ensures
            r == Self::handles(header@, content_type),
    {
        if let Some(ct) = content_type {
            if str_contains(ct, "application/json") {
                return true;
            }
        }
        match first_content(header) {
            Some(i) => header[i] == 0x5B || header[i] == 0x7B,
            None => false,
        }
    }
}

/// Recognises trace exports in the protobuf wire format.
#[derive(Debug, Clone, Copy)]
pub struct OtlpIngestor;

impl OtlpIngestor {
    /// What is taken for a protobuf export: data whose content type names
    /// protobuf or gRPC, or whose first byte is the tag of field 1 with a
    /// length.
    pub open spec fn handles(header: Seq<u8>, content_type: Option<&str>) -> bool {
        names(content_type, "application/x-protobuf"@) || names(
            content_type,
            "application/protobuf"@,
        ) || names(content_type, "application/grpc"@) || (header.len() > 0 && header[0] == 0x0A)
    }

    /// The name of the format.
    pub fn format_name(&self) -> (s: &'static str)
        ensures
            s@ == "otlp"@,
    {
        "otlp"
    }

    /// Whether the data looks like a protobuf export.
    pub fn can_handle(&self, header: &[u8], content_type: Option<&str>) -> (r: bool)
        ensures
            r == Self::handles(header@, content_type),
    {
        if let Some(ct) = content_type {
            if str_contains(ct, "application/x-protobuf") || str_contains(ct, "application/protobuf")
                || str_contains(ct, "application/grpc") {
                return true;
            }
        }
        if header.len() == 0 {
            return false;
        }
        header[0] == 0x0A
    }
}

/// `core::str::from_utf8`: whether the bytes are well-formed UTF-8.
#[verifier::external_body]
pub(crate) fn is_utf8(bytes: &[u8]) -> (r: bool)
    ensures
        r == vstd::utf8::valid_utf8(bytes@),
{
    match core::str::from_utf8(bytes) {
        Ok(_) => true,
        Err(_) => false,
    }
}

/// Whether `needle` stands in `hay` at position `i`.
pub open spec fn bytes_at(hay: Seq<u8>, needle: Seq<u8>, i: int) -> bool {
    &&& 0 <= i
    &&& i + needle.len() <= hay.len()
    &&& hay.subrange(i, i + needle.len()) == needle
}

/// Whether `needle` stands somewhere in `hay`.
pub open spec fn has_bytes(hay: Seq<u8>, needle: Seq<u8>) -> bool {
    exists|i: int| bytes_at(hay, needle, i)
}

/// Whether `needle` stands in `hay` at position `i`.
fn matches_bytes_at(hay: &[u8], needle: &[u8], i: usize) -> (r: bool)
    ensures
        r == bytes_at(hay@, needle@, i as int),
{
    let n = needle.len();
    if n > hay.len() || i > hay.len() - n {
        return false;
    }
    let mut k: usize = 0;
    while k < n
        invariant
            n == needle.len(),
            i + n <= hay.len(),
            k <= n,
            hay@.subrange(i as int, i + k) == needle@.subrange(0, k as int),
        decreases n - k,
    {
        if hay[i + k] != needle[k] {
            assert(hay@.subrange(i as int, i + n)[k as int] != needle@[k as int]);
            return false;
        }
        assert(hay@.subrange(i as int, i + k + 1) == hay@.subrange(i as int, i + k).push(
            hay@[i + k],
        ));
        assert(needle@.subrange(0, k as int + 1) == needle@.subrange(0, k as int).push(
            needle@[k as int],
        ));
        k += 1;
    }
    assert(needle@.subrange(0, n as int) == needle@);
    true
}

/// Whether `needle` stands somewhere in `hay`.
pub fn contains_bytes(hay: &[u8], needle: &[u8]) -> (r: bool)
    ensures
        r == has_bytes(hay@, needle@),
{
    let n = needle.len();
    if n > hay.len() {
        assert forall|i: int| !bytes_at(hay@, needle@, i) by {}
        return false;
    }
    let last = hay.len() - n;
    let mut i: usize = 0;
    while i <= last
        invariant
            n == needle.len(),
            n <= hay.len(),
            last == hay.len() - n,
            i <= last + 1,
            forall|k: int| 0 <= k < i ==> !bytes_at(hay@, needle@, k),
        decreases last + 1 - i,
    {
        if matches_bytes_at(hay, needle, i) {
            return true;
        }
        if i == last {
            assert forall|k: int| !bytes_at(hay@, needle@, k) by {}
            return false;
        }
        i += 1;
    }
    assert forall|k: int| !bytes_at(hay@, needle@, k) by {}
    false
}

/// The position of the first line feed at or after `i`, or the length.
pub open spec fn line_feed_from(data: Seq<u8>, i: int) -> int
    decreases data.len() - i,
{
    if i < 0 || i >= data.len() || data[i] == 0x0A {
        i
    } else {
        line_feed_from(data, i + 1)
    }
}

/// The first line of the data behind its leading white space, without its
/// line feed; empty if the data is white space only.
pub open spec fn first_line(data: Seq<u8>) -> Seq<u8> {
    match first_content_from(data, 0) {
        Some(start) => data.subrange(start, line_feed_from(data, start)),
        None => Seq::empty(),
    }
}

/// The first line of the data behind its leading white space.
pub fn get_first_line(data: &[u8]) -> (line: Vec<u8>)
    ensures
        line@ == first_line(data@),
{
    let mut line: Vec<u8> = Vec::new();
    match first_content(data) {
        Some(start) => {
            let n = data.len();
            let mut i: usize = start;
            while i < n && data[i] != 0x0A
                invariant
                    n == data@.len(),
                    start <= i <= n,
                    line_feed_from(data@, i as int) == line_feed_from(data@, start as int),
                    line@ == data@.subrange(start as int, i as int),
                decreases n - i,
            {
                line.push(data[i]);
                assert(line@ == data@.subrange(start as int, i as int + 1));
                i += 1;
            }
            line
        },
        None => line,
    }
}

/// The bytes of a text in UTF-8.
pub open spec fn bytes_of(text: Seq<char>) -> Seq<u8> {
    vstd::utf8::encode_utf8(text)
}

/// Recognises spans as lines of JSON objects with the field names of
/// Honeycomb.
#[derive(Debug, Clone, Copy)]
pub struct HoneycombIngestor;

impl HoneycombIngestor {
    /// What is taken for lines of spans: data whose content type names
    /// such lines, or whose first line is a JSON object in well-formed
    /// UTF-8 that names the identifiers of a trace and a span.
    pub open spec fn handles(header: Seq<u8>, content_type: Option<&str>) -> bool {
        let line = first_line(header);
        names(content_type, "application/x-ndjson"@) || names(
            content_type,
            "application/x-honeycomb"@,
        ) || (line.len() > 0 && line[0] == 0x7B && vstd::utf8::valid_utf8(line) && (has_bytes(
            line,
            bytes_of("\"trace.trace_id\""@),
        ) || has_bytes(line, bytes_of("\"trace.span_id\""@)) || (has_bytes(
            line,
            bytes_of("\"trace_id\""@),
        ) && has_bytes(line, bytes_of("\"span_id\""@)))))
    }

    /// The name of the format.
    pub fn format_name(&self) -> (s: &'static str)
        ensures
            s@ == "honeycomb"@,
    {
        "honeycomb"
    }

    /// Whether the data looks like lines of spans.
    pub fn can_handle(&self, header: &[u8], content_type: Option<&str>) -> (r: bool)
        ensures
            r == Self::handles(header@, content_type),
    {
        if let Some(ct) = content_type {
            if str_contains(ct, "application/x-ndjson") || str_contains(ct, "application/x-honeycomb") {
                return true;
            }
        }
        let line = get_first_line(header);
        let line = line.as_slice();
        if line.len() == 0 {
            return false;
        }
        if line[0] != 0x7B {
            return false;
        }
        if !is_utf8(line) {
            return false;
        }
        contains_bytes(line, "\"trace.trace_id\"".as_bytes()) || contains_bytes(
            line,
            "\"trace.span_id\"".as_bytes(),
        ) || (contains_bytes(line, "\"trace_id\"".as_bytes()) && contains_bytes(
            line,
            "\"span_id\"".as_bytes(),
        ))
    }
}

/// Whether a name is one of the field names of a span that are read into
/// the span itself and not into its attributes.
pub open spec fn known_field(key: Seq<char>) -> bool {
    ||| key == "trace.trace_id"@
    ||| key == "trace_id"@
    ||| key == "trace.span_id"@
    ||| key == "span_id"@
    ||| key == "trace.parent_id"@
    ||| key == "parent_id"@
    ||| key == "service.name"@
    ||| key == "service_name"@
    ||| key == "service"@
    ||| key == "name"@
    ||| key == "operation"@
    ||| key == "span.name"@
    ||| key == "duration_ms"@
    ||| key == "duration"@
    ||| key == "timestamp_ms"@
    ||| key == "start_time_ms"@
    ||| key == "time"@
    ||| key == "error"@
    ||| key == "is_error"@
    ||| key == "status.code"@
    ||| key == "status_code"@
    ||| key == "status.message"@
    ||| key == "status_message"@
    ||| key == "span.kind"@
    ||| key == "kind"@
}

/// Whether a name is a field name of a span itself.
pub fn is_known_field(key: &str) -> (r: bool)
    ensures
        r == known_field(key@),
{
    str_eq(key, "trace.trace_id") || str_eq(key, "trace_id") || str_eq(key, "trace.span_id")
        || str_eq(key, "span_id") || str_eq(key, "trace.parent_id") || str_eq(key, "parent_id")
        || str_eq(key, "service.name") || str_eq(key, "service_name") || str_eq(key, "service")
        || str_eq(key, "name") || str_eq(key, "operation") || str_eq(key, "span.name") || str_eq(
        key,
        "duration_ms",
    ) || str_eq(key, "duration") || str_eq(key, "timestamp_ms") || str_eq(key, "start_time_ms")
        || str_eq(key, "time") || str_eq(key, "error") || str_eq(key, "is_error") || str_eq(
        key,
        "status.code",
    ) || str_eq(key, "status_code") || str_eq(key, "status.message") || str_eq(
        key,
        "status_message",
    ) || str_eq(key, "span.kind") || str_eq(key, "kind")
}

/// A wire format of traces.
#[derive(Debug, Clone, Copy, PartialEq, Eq, Structural)]
pub enum TraceFormat {
    /// Trace exports in the protobuf wire format.
    Otlp,
    /// Spans as lines of JSON objects.
    Honeycomb,
    /// Plain JSON.
    Json,
}

/// Whether data looks like a format.
pub open spec fn looks_like(format: TraceFormat, header: Seq<u8>, content_type: Option<&str>) -> bool {
    match format {
        TraceFormat::Otlp => OtlpIngestor::handles(header, content_type),
        TraceFormat::Honeycomb => HoneycombIngestor::handles(header, content_type),
        TraceFormat::Json => JsonIngestor::handles(header, content_type),
    }
}

impl TraceFormat {
    /// The name of the format.
    pub fn format_name(&self) -> (s: &'static str)
        ensures
            s@ == match self {
                TraceFormat::Otlp => "otlp"@,
                TraceFormat::Honeycomb => "honeycomb"@,
                TraceFormat::Json => "json"@,
            },
    {
        match self {
            TraceFormat::Otlp => OtlpIngestor.format_name(),
            TraceFormat::Honeycomb => HoneycombIngestor.format_name(),
            TraceFormat::Json => JsonIngestor.format_name(),
        }
    }

    /// Whether the data looks like the format.
    pub fn can_handle(&self, header: &[u8], content_type: Option<&str>) -> (r: bool)
        ensures
            r == looks_like(*self, header@, content_type),
    {
        match self {
            TraceFormat::Otlp => OtlpIngestor.can_handle(header, content_type),
            TraceFormat::Honeycomb => HoneycombIngestor.can_handle(header, content_type),
            TraceFormat::Json => JsonIngestor.can_handle(header, content_type),
        }
    }
}

/// The formats among the first `n` that the data looks like, in order.
pub open spec fn claimed(
    formats: Seq<TraceFormat>,
    header: Seq<u8>,
    content_type: Option<&str>,
    n: nat,
) -> Seq<TraceFormat>
    decreases n,
{
    if n == 0 || n > formats.len() {
        Seq::empty()
    } else if looks_like(formats[n - 1], header, content_type) {
        claimed(formats, header, content_type, (n - 1) as nat).push(formats[n - 1])
    } else {
        claimed(formats, header, content_type, (n - 1) as nat)
    }
}

/// The formats that trace data can arrive in, the most specific first.
#[derive(Debug, Clone)]
pub struct IngestorRegistry {
    /// The formats in the order in which they are tried.
    pub formats: Vec<TraceFormat>,
}

/// At most this many bytes of the data are looked at to recognise its
/// format.
pub const HEADER_BYTES: usize = 256;

/// The bytes of the data by which its format is recognised.
pub open spec fn header_of(data: Seq<u8>) -> Seq<u8> {
    if data.len() > 256 {
        data.subrange(0, 256)
    } else {
        data
    }
}

impl IngestorRegistry {
    /// The registry of all formats: protobuf exports, then lines of
    /// spans, then plain JSON.
    pub fn new() -> (r: Self)
        ensures
            r.formats@ == seq![TraceFormat::Otlp, TraceFormat::Honeycomb, TraceFormat::Json],
    {
        let mut formats: Vec<TraceFormat> = Vec::new();
        formats.push(TraceFormat::Otlp);
        formats.push(TraceFormat::Honeycomb);
        formats.push(TraceFormat::Json);
        IngestorRegistry { formats }
    }

    /// Adds a format to the end of the order.
    pub fn register(&mut self, format: TraceFormat)
        ensures
            final(self).formats@ == old(self).formats@.push(format),
    {
        self.formats.push(format);
    }

    /// The names of the formats, in order.
    pub fn formats(&self) -> (r: Vec<&'static str>)
        ensures
            r@.len() == self.formats@.len(),
            forall|i: int|
                0 <= i < r@.len() ==> (#[trigger] r@[i])@ == match self.formats@[i] {
                    TraceFormat::Otlp => "otlp"@,
                    TraceFormat::Honeycomb => "honeycomb"@,
                    TraceFormat::Json => "json"@,
                },
    {
        let mut names: Vec<&'static str> = Vec::new();
        let mut i: usize = 0;
        while i < self.formats.len()
            invariant
                i <= self.formats@.len(),
                names@.len() == i,
                forall|k: int|
                    0 <= k < i ==> (#[trigger] names@[k])@ == match self.formats@[k] {
                        TraceFormat::Otlp => "otlp"@,
                        TraceFormat::Honeycomb => "honeycomb"@,
                        TraceFormat::Json => "json"@,
                    },
            decreases self.formats.len() - i,
        {
            names.push(self.formats[i].format_name());
            i += 1;
        }
        names
    }

    /// The format with the given name, if it is registered.
    pub fn format_named(&self, name: &str) -> (r: Option<TraceFormat>)
        ensures
            match r {
                Some(format) => exists|i: int|
                    0 <= i < self.formats@.len() && self.formats@[i] == format && name@ == (
                    match format {
                        TraceFormat::Otlp => "otlp"@,
                        TraceFormat::Honeycomb => "honeycomb"@,
                        TraceFormat::Json => "json"@,
                    }),
                None => forall|i: int|
                    0 <= i < self.formats@.len() ==> name@ != (match #[trigger] self.formats@[i] {
                        TraceFormat::Otlp => "otlp"@,
                        TraceFormat::Honeycomb => "honeycomb"@,
                        TraceFormat::Json => "json"@,
                    }),
            },
    {
        let mut i: usize = 0;
        while i < self.formats.len()
            invariant
                i <= self.formats@.len(),
                forall|k: int|
                    0 <= k < i ==> name@ != (match #[trigger] self.formats@[k] {
                        TraceFormat::Otlp => "otlp"@,
                        TraceFormat::Honeycomb => "honeycomb"@,
                        TraceFormat::Json => "json"@,
                    }),
            decreases self.formats.len() - i,
        {
            if str_eq(self.formats[i].format_name(), name) {
                return Some(self.formats[i]);
            }
            i += 1;
        }
        None
    }

    /// The order in which the formats are tried on data: first those that
    /// the first bytes and the content type look like, then all of them
    /// once more; each list in the order of the registry. For data without
    /// bytes there is nothing to try.
    pub fn attempts(&self, data: &[u8], content_type: Option<&str>) -> (r: Vec<TraceFormat>)
        ensures
            r@ == if data@.len() == 0 {
                Seq::<TraceFormat>::empty()
            } else {
                claimed(self.formats@, header_of(data@), content_type, self.formats@.len())
                    + self.formats@
            },
    {
        let mut order: Vec<TraceFormat> = Vec::new();
        if data.len() == 0 {
            return order;
        }
        let header = if data.len() > HEADER_BYTES {
            vstd::slice::slice_subrange(data, 0, HEADER_BYTES)
        } else {
            data
        };
        let n = self.formats.len();
        let mut i: usize = 0;
        while i < n
            invariant
                n == self.formats@.len(),
                i <= n,
                header@ == header_of(data@),
                order@ == claimed(self.formats@, header@, content_type, i as nat),
            decreases n - i,
        {
            if self.formats[i].can_handle(header, content_type) {
                order.push(self.formats[i]);
            }
            i += 1;
        }
        let ghost first = order@;
        let mut k: usize = 0;
        while k < n
            invariant
                n == self.formats@.len(),
                k <= n,
                order@ == first + self.formats@.subrange(0, k as int),
            decreases n - k,
        {
            order.push(self.formats[k]);
            assert(first + self.formats@.subrange(0, k as int + 1) == (first
                + self.formats@.subrange(0, k as int)).push(self.formats@[k as int]));
            k += 1;
        }
        assert(self.formats@.subrange(0, n as int) == self.formats@);
        order
    }
}

impl Default for IngestorRegistry {
    fn default() -> (r: Self)
        ensures
            r.formats@ == seq![TraceFormat::Otlp, TraceFormat::Honeycomb, TraceFormat::Json],
    {
        IngestorRegistry::new()
    }
}

} // verus!
