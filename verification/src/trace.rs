//! Traces: the exemplars that policies are checked against.

use core::time::Duration;
use vstd::prelude::*;
use crate::span::{Span, StatusCode};
use crate::text::str_eq;
use crate::time::{capped_nanos, duration_ns, nanos_of};

verus! {

/// A named trace attribute.
#[derive(Debug, Clone, PartialEq)]
pub struct TraceAttribute {
    /// The attribute's key.
    pub key: String,
    /// The attribute's value.
    pub value: String,
}

/// A trace exemplar.
#[derive(Debug, Clone, PartialEq)]
pub struct Trace {
    /// Unique trace identifier.
    pub trace_id: String,
    /// How long the trace lasted.
    pub duration: Duration,
    /// HTTP status code, if applicable.
    pub status: Option<u16>,
    /// Service name.
    pub service: Option<String>,
    /// Endpoint or operation name.
    pub endpoint: Option<String>,
    /// Whether this trace is an error.
    pub is_error: bool,
    /// Additional attributes, each key at most once, in the order of
    /// insertion.
    pub attributes: Vec<TraceAttribute>,
    /// The spans of this trace.
    pub spans: Vec<Span>,
    /// Number of spans in this trace.
    pub span_count: usize,
}

/// The first position at or after `i` whose key is `key`.
pub open spec fn trace_attribute_from(attrs: Seq<TraceAttribute>, key: Seq<char>, i: int) -> Option<
    int,
>
    decreases attrs.len() - i,
{
    if i < 0 || i >= attrs.len() {
        None
    } else if attrs[i].key@ == key {
        Some(i)
    } else {
        trace_attribute_from(attrs, key, i + 1)
    }
}

/// The first position whose key is `key`.
pub open spec fn trace_attribute_index(attrs: Seq<TraceAttribute>, key: Seq<char>) -> Option<int> {
    trace_attribute_from(attrs, key, 0)
}

/// The earliest start among the first `n` spans; `u64::MAX` if none.
pub open spec fn earliest_start(spans: Seq<Span>, n: nat) -> u64
    decreases n,
{
    if n == 0 || n > spans.len() {
        u64::MAX
    } else {
        let rest = earliest_start(spans, (n - 1) as nat);
        if spans[n - 1].start_time_ns < rest {
            spans[n - 1].start_time_ns
        } else {
            rest
        }
    }
}

/// When a span ends, in nanoseconds since the Unix epoch, at most `u64::MAX`.
pub open spec fn span_end(s: Span) -> u64 {
    if s.start_time_ns + capped_nanos(s.duration) > u64::MAX {
        u64::MAX
    } else {
        (s.start_time_ns + capped_nanos(s.duration)) as u64
    }
}

/// The latest end among the first `n` spans; 0 if none.
pub open spec fn latest_end(spans: Seq<Span>, n: nat) -> u64
    decreases n,
{
    if n == 0 || n > spans.len() {
        0
    } else {
        let rest = latest_end(spans, (n - 1) as nat);
        if span_end(spans[n - 1]) > rest {
            span_end(spans[n - 1])
        } else {
            rest
        }
    }
}

/// The first position at or after `i` of a span without parent.
pub open spec fn first_root_from(spans: Seq<Span>, i: int) -> Option<int>
    decreases spans.len() - i,
{
    if i < 0 || i >= spans.len() {
        None
    } else if spans[i].parent_span_id is None {
        Some(i)
    } else {
        first_root_from(spans, i + 1)
    }
}

/// The position of the span that stands for the whole trace: the first
/// span without parent, or the first span if all have one.
pub open spec fn root_index(spans: Seq<Span>) -> int {
    match first_root_from(spans, 0) {
        Some(i) => i,
        None => 0,
    }
}

/// Whether some span is an error.
pub open spec fn any_error_span(spans: Seq<Span>) -> bool {
    exists|i: int| 0 <= i < spans.len() && (#[trigger] spans[i]).status.code == StatusCode::Error
}

/// The endpoint that a root span gives: its HTTP route, else its name.
pub open spec fn endpoint_of(root: Span) -> Seq<char> {
    match root.route() {
        Some(route) => route,
        None => root.name@,
    }
}

impl Trace {
    /// The start time that the spans give, if there are spans.
    pub open spec fn start_time(&self) -> Option<u64> {
        if self.spans@.len() == 0 {
            None
        } else {
            Some(earliest_start(self.spans@, self.spans@.len()))
        }
    }

    /// A status of 500 or more marks an error.
    pub open spec fn well_formed(&self) -> bool {
        self.status is Some && self.status->0 >= 500 ==> self.is_error
    }

    /// Whether the summary fields are what [`Trace::compute_summary_from_spans`]
    /// derives from `before` and its spans.
    pub open spec fn summarizes(&self, before: Trace) -> bool {
        let spans = before.spans@;
        let root = spans[root_index(spans)];
        let start = earliest_start(spans, spans.len());
        let end = latest_end(spans, spans.len());
        &&& self.trace_id == before.trace_id
        &&& self.attributes == before.attributes
        &&& self.spans == before.spans
        &&& self.span_count == spans.len()
        &&& if start < u64::MAX && end > start {
            nanos_of(self.duration) == end - start
        } else {
            self.duration == before.duration
        }
        &&& if before.service is None && root.service@.len() > 0 {
            self.service is Some && self.service->0@ == root.service@
        } else {
            self.service == before.service
        }
        &&& if before.endpoint is None {
            self.endpoint is Some && self.endpoint->0@ == endpoint_of(root)
        } else {
            self.endpoint == before.endpoint
        }
        &&& if before.status is None {
            self.status == root.status_code()
        } else {
            self.status == before.status
        }
        &&& self.is_error == (any_error_span(spans) || (self.status is Some && self.status->0
            >= 500))
    }

    /// Creates a trace with the given identifier and nothing else.
    pub fn new(trace_id: &str) -> (t: Self)
        ensures
            t.trace_id@ == trace_id@,
            nanos_of(t.duration) == 0,
            t.status is None,
            t.service is None,
            t.endpoint is None,
            !t.is_error,
            t.attributes@.len() == 0,
            t.spans@.len() == 0,
            t.span_count == 0,
    {
        Trace {
            trace_id: trace_id.to_owned(),
            duration: Duration::from_nanos(0),
            status: None,
            service: None,
            endpoint: None,
            is_error: false,
            attributes: Vec::new(),
            spans: Vec::new(),
            span_count: 0,
        }
    }

    /// Creates a trace from spans and derives its summary fields from them.
    pub fn from_spans(trace_id: &str, spans: Vec<Span>) -> (t: Self)
        ensures
            t.trace_id@ == trace_id@,
            t.spans == spans,
            t.span_count == spans@.len(),
            t.attributes@.len() == 0,
            spans@.len() == 0 ==> nanos_of(t.duration) == 0 && t.status is None && t.service is None
                && t.endpoint is None && !t.is_error,
            spans@.len() > 0 ==> exists|bare: Trace|
                bare.spans == spans && bare.status is None && bare.service is None && bare.endpoint
                    is None && nanos_of(bare.duration) == 0 && #[trigger] t.summarizes(bare),
    {
        let mut trace = Trace {
            trace_id: trace_id.to_owned(),
            duration: Duration::from_nanos(0),
            status: None,
            service: None,
            endpoint: None,
            is_error: false,
            attributes: Vec::new(),
            span_count: spans.len(),
            spans,
        };
        let ghost bare = trace;
        trace.compute_summary_from_spans();
        proof {
            if spans@.len() > 0 {
                assert(trace.summarizes(bare));
            }
        }
        trace
    }

    /// Derives the summary fields from the spans: the duration from the
    /// earliest start to the latest end; service, endpoint and status from
    /// the root span where they are not set; the error flag from the spans'
    /// statuses and the status code. Without spans nothing changes.
    pub fn compute_summary_from_spans(&mut self)
        ensures
            old(self).spans@.len() == 0 ==> *final(self) == *old(self),
            old(self).spans@.len() > 0 ==> final(self).summarizes(*old(self)),
    {
        let n = self.spans.len();
        if n == 0 {
            return ;
        }
        self.span_count = n;
        let mut root: usize = 0;
        let mut found = false;
        let mut min_start: u64 = u64::MAX;
        let mut max_end: u64 = 0;
        let mut any_error = false;
        let mut i: usize = 0;
        while i < n
            invariant
                n == self.spans@.len(),
                i <= n,
                root < n,
                self.spans == old(self).spans,
                found ==> first_root_from(self.spans@, 0) == Some(root as int),
                !found ==> root == 0 && first_root_from(self.spans@, i as int) == first_root_from(
                    self.spans@,
                    0,
                ),
                min_start == earliest_start(self.spans@, i as nat),
                max_end == latest_end(self.spans@, i as nat),
                any_error == (exists|k: int|
                    0 <= k < i && (#[trigger] self.spans@[k]).status.code == StatusCode::Error),
            decreases n - i,
        {
            let span = &self.spans[i];
            if !found && span.is_root() {
                root = i;
                found = true;
            }
            if span.start_time_ns < min_start {
                min_start = span.start_time_ns;
            }
            let end = span.start_time_ns.saturating_add(duration_ns(span.duration));
            if end > max_end {
                max_end = end;
            }
            if span.is_error() {
                any_error = true;
            }
            i += 1;
        }
        assert(root == root_index(self.spans@));
        assert(any_error == any_error_span(self.spans@));
        if min_start < u64::MAX && max_end > min_start {
            self.duration = Duration::from_nanos(max_end - min_start);
        }
        if self.service.is_none() && self.spans[root].service.as_str().unicode_len() > 0 {
            self.service = Some(self.spans[root].service.clone());
        }
        if self.endpoint.is_none() {
            let endpoint = match self.spans[root].http_route() {
                Some(route) => route.to_owned(),
                None => self.spans[root].name.clone(),
            };
            self.endpoint = Some(endpoint);
        }
        if self.status.is_none() {
            self.status = self.spans[root].http_status_code();
        }
        self.is_error = any_error;
        if !self.is_error {
            if let Some(status) = self.status {
                self.is_error = status >= 500;
            }
        }
    }

    /// Appends a span and counts it.
    pub fn add_span(&mut self, span: Span)
        ensures
            final(self).spans@ == old(self).spans@.push(span),
            final(self).span_count == old(self).spans@.len() + 1,
            *final(self) == (Trace {
                spans: final(self).spans,
                span_count: final(self).span_count,
                ..*old(self)
            }),
    {
        self.spans.push(span);
        self.span_count = self.spans.len();
    }

    /// The spans of this trace.
    pub fn spans(&self) -> (r: &[Span])
        ensures
            r@ == self.spans@,
    {
        self.spans.as_slice()
    }

    /// The earliest start of any span, in nanoseconds since the Unix epoch;
    /// `None` without spans.
    pub fn start_time_ns(&self) -> (r: Option<u64>)
        ensures
            r == self.start_time(),
    {
        let n = self.spans.len();
        if n == 0 {
            return None;
        }
        let mut min_start: u64 = u64::MAX;
        let mut i: usize = 0;
        while i < n
            invariant
                n == self.spans@.len(),
                i <= n,
                min_start == earliest_start(self.spans@, i as nat),
            decreases n - i,
        {
            if self.spans[i].start_time_ns < min_start {
                min_start = self.spans[i].start_time_ns;
            }
            i += 1;
        }
        Some(min_start)
    }

    /// Sets the duration.
    pub fn with_duration(self, duration: Duration) -> (t: Self)
        ensures
            t == (Trace { duration, ..self }),
    {
        let mut trace = self;
        trace.duration = duration;
        trace
    }

    /// Sets the HTTP status; a status of 500 or more marks an error, any
    /// other clears the error flag.
    pub fn with_status(self, status: u16) -> (t: Self)
        ensures
            t == (Trace { status: Some(status), is_error: status >= 500, ..self }),
            t.well_formed(),
    {
        let mut trace = self;
        trace.status = Some(status);
        trace.is_error = status >= 500;
        trace
    }

    /// Sets the service name.
    pub fn with_service(self, service: &str) -> (t: Self)
        ensures
            t.service is Some,
            t.service->0@ == service@,
            t == (Trace { service: t.service, ..self }),
    {
        let mut trace = self;
        trace.service = Some(service.to_owned());
        trace
    }

    /// Sets the endpoint.
    pub fn with_endpoint(self, endpoint: &str) -> (t: Self)
        ensures
            t.endpoint is Some,
            t.endpoint->0@ == endpoint@,
            t == (Trace { endpoint: t.endpoint, ..self }),
    {
        let mut trace = self;
        trace.endpoint = Some(endpoint.to_owned());
        trace
    }

    /// Sets an attribute: the value of a key that is there already is
    /// replaced, a new key goes to the end.
    pub fn with_attribute(self, key: &str, value: &str) -> (t: Self)
        ensures
            t == (Trace { attributes: t.attributes, ..self }),
            match trace_attribute_index(self.attributes@, key@) {
                Some(i) => t.attributes@.len() == self.attributes@.len()
                    && t.attributes@[i].key == self.attributes@[i].key
                    && t.attributes@[i].value@ == value@
                    && forall|k: int|
                        0 <= k < t.attributes@.len() && k != i ==> t.attributes@[k]
                            == self.attributes@[k],
                None => t.attributes@.len() == self.attributes@.len() + 1
                    && t.attributes@.drop_last() == self.attributes@
                    && t.attributes@.last().key@ == key@
                    && t.attributes@.last().value@ == value@,
            },
    {
        let mut trace = self;
        match find_trace_attribute(&trace.attributes, key) {
            Some(i) => {
                trace.attributes[i].value = value.to_owned();
            },
            None => {
                trace.attributes.push(
                    TraceAttribute { key: key.to_owned(), value: value.to_owned() },
                );
                assert(trace.attributes@.drop_last() == self.attributes@);
            },
        }
        trace
    }

    /// The value of an attribute.
    pub fn attribute(&self, key: &str) -> (r: Option<&str>)
        ensures
            match trace_attribute_index(self.attributes@, key@) {
                Some(i) => r is Some && r->0@ == self.attributes@[i].value@,
                None => r is None,
            },
    {
        match find_trace_attribute(&self.attributes, key) {
            Some(i) => Some(self.attributes[i].value.as_str()),
            None => None,
        }
    }
}

/// The first position whose key is `key`.
pub fn find_trace_attribute(attrs: &Vec<TraceAttribute>, key: &str) -> (r: Option<usize>)
    ensures
        match r {
            Some(i) => trace_attribute_index(attrs@, key@) == Some(i as int) && i < attrs@.len(),
            None => trace_attribute_index(attrs@, key@) is None,
        },
{
    let mut i: usize = 0;
    while i < attrs.len()
        invariant
            i <= attrs@.len(),
            trace_attribute_from(attrs@, key@, i as int) == trace_attribute_index(attrs@, key@),
        decreases attrs.len() - i,
    {
        if str_eq(attrs[i].key.as_str(), key) {
            return Some(i);
        }
        i += 1;
    }
    None
}

/// Whether a trace is the bare trace of the given identifier, duration in
/// nanoseconds, status, service and endpoint: it has no spans and no
/// attributes, and is an error from status 500 on.
pub open spec fn is_bare_trace(
    t: Trace,
    id: Seq<char>,
    nanos: nat,
    status: u16,
    service: Seq<char>,
    endpoint: Option<Seq<char>>,
) -> bool {
    &&& t.trace_id@ == id
    &&& nanos_of(t.duration) == nanos
    &&& t.status == Some(status)
    &&& t.is_error == (status >= 500)
    &&& t.service is Some
    &&& t.service->0@ == service
    &&& match endpoint {
        Some(e) => t.endpoint is Some && t.endpoint->0@ == e,
        None => t.endpoint is None,
    }
    &&& t.attributes@.len() == 0
    &&& t.spans@.len() == 0
    &&& t.span_count == 0
}

/// The view of an endpoint that may be missing.
pub open spec fn endpoint_text(endpoint: Option<&str>) -> Option<Seq<char>> {
    match endpoint {
        Some(e) => Some(e@),
        None => None,
    }
}

/// A bare trace of the given identifier, duration, status, service and
/// endpoint.
pub fn bare_trace_lasting(
    id: &str,
    duration: Duration,
    status: u16,
    service: &str,
    endpoint: Option<&str>,
) -> (t: Trace)
    ensures
        is_bare_trace(t, id@, nanos_of(duration), status, service@, endpoint_text(endpoint)),
{
    let trace = Trace::new(id).with_service(service).with_status(status).with_duration(duration);
    match endpoint {
        Some(e) => trace.with_endpoint(e),
        None => trace,
    }
}

/// A bare trace of the given identifier, duration in milliseconds, status,
/// service and endpoint.
pub fn bare_trace(id: &str, millis: u64, status: u16, service: &str, endpoint: Option<&str>) -> (t:
    Trace)
    ensures
        is_bare_trace(t, id@, millis as nat * 1_000_000, status, service@, endpoint_text(endpoint)),
{
    bare_trace_lasting(id, Duration::from_millis(millis), status, service, endpoint)
}

} // verus!
