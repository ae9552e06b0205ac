//! Copies of values with a contract: what a copy holds is what the
//! original holds.

use vstd::prelude::*;
use crate::corpus::Corpus;
use crate::policy::{Policy, Rule};
use crate::span::{AttributeValue, Span, SpanAttribute, SpanStatus};
use crate::trace::{Trace, TraceAttribute};

verus! {

/// A copy of a text that may be missing.
pub fn copy_text(text: &Option<String>) -> (r: Option<String>)
    ensures
        r == *text,
{
    match text {
        Some(s) => Some(s.clone()),
        None => None,
    }
}

/// A copy of a list of texts.
pub fn copy_texts(texts: &Vec<String>) -> (r: Vec<String>)
    ensures
        r@ == texts@,
{
    let mut out: Vec<String> = Vec::new();
    let mut i: usize = 0;
    while i < texts.len()
        invariant
            i <= texts@.len(),
            out@ =~= texts@.subrange(0, i as int),
        decreases texts.len() - i,
    {
        out.push(texts[i].clone());
        i += 1;
    }
    assert(texts@.subrange(0, texts@.len() as int) =~= texts@);
    out
}

/// Whether two attribute values hold the same.
pub open spec fn same_value(a: AttributeValue, b: AttributeValue) -> bool {
    match (a, b) {
        (AttributeValue::String(x), AttributeValue::String(y)) => x == y,
        (AttributeValue::Int(x), AttributeValue::Int(y)) => x == y,
        (AttributeValue::Float(x), AttributeValue::Float(y)) => x == y,
        (AttributeValue::Bool(x), AttributeValue::Bool(y)) => x == y,
        (AttributeValue::StringArray(x), AttributeValue::StringArray(y)) => x@ == y@,
        _ => false,
    }
}

/// Whether two lists of span attributes hold the same, one by one.
pub open spec fn same_attributes(a: Seq<SpanAttribute>, b: Seq<SpanAttribute>) -> bool {
    &&& a.len() == b.len()
    &&& forall|i: int|
        0 <= i < a.len() ==> (#[trigger] a[i]).key == b[i].key && same_value(a[i].value, b[i].value)
}

/// Whether two spans hold the same.
pub open spec fn same_span(a: Span, b: Span) -> bool {
    &&& a.span_id == b.span_id
    &&& a.parent_span_id == b.parent_span_id
    &&& a.name == b.name
    &&& a.service == b.service
    &&& a.duration == b.duration
    &&& a.start_time_ns == b.start_time_ns
    &&& a.kind == b.kind
    &&& a.status == b.status
    &&& same_attributes(a.attributes@, b.attributes@)
}

/// Whether two lists of spans hold the same, one by one.
pub open spec fn same_spans(a: Seq<Span>, b: Seq<Span>) -> bool {
    &&& a.len() == b.len()
    &&& forall|i: int| 0 <= i < a.len() ==> same_span(#[trigger] a[i], b[i])
}

/// Whether two traces hold the same.
pub open spec fn same_trace(a: Trace, b: Trace) -> bool {
    &&& a.trace_id == b.trace_id
    &&& a.duration == b.duration
    &&& a.status == b.status
    &&& a.service == b.service
    &&& a.endpoint == b.endpoint
    &&& a.is_error == b.is_error
    &&& a.attributes@ == b.attributes@
    &&& same_spans(a.spans@, b.spans@)
    &&& a.span_count == b.span_count
}

/// Whether two lists of traces hold the same, one by one.
pub open spec fn same_traces(a: Seq<Trace>, b: Seq<Trace>) -> bool {
    &&& a.len() == b.len()
    &&& forall|i: int| 0 <= i < a.len() ==> same_trace(#[trigger] a[i], b[i])
}

/// Whether two policies hold the same.
pub open spec fn same_policy(a: Policy, b: Policy) -> bool {
    &&& a.version == b.version
    &&& a.name == b.name
    &&& a.budget_per_second == b.budget_per_second
    &&& a.rules@ == b.rules@
}

impl AttributeValue {
    /// A copy of the value.
    pub fn copy(&self) -> (r: Self)
        ensures
            same_value(r, *self),
    {
        match self {
            AttributeValue::String(s) => AttributeValue::String(s.clone()),
            AttributeValue::Int(i) => AttributeValue::Int(*i),
            AttributeValue::Float(f) => AttributeValue::Float(f.clone()),
            AttributeValue::Bool(b) => AttributeValue::Bool(*b),
            AttributeValue::StringArray(v) => AttributeValue::StringArray(copy_texts(v)),
        }
    }
}

impl SpanStatus {
    /// A copy of the status.
    pub fn copy(&self) -> (r: Self)
        ensures
            r == *self,
    {
        SpanStatus { code: self.code, message: copy_text(&self.message) }
    }
}

impl Span {
    /// A copy of the span.
    pub fn copy(&self) -> (r: Self)
        ensures
            same_span(r, *self),
    {
        let mut attributes: Vec<SpanAttribute> = Vec::new();
        let mut i: usize = 0;
        while i < self.attributes.len()
            invariant
                i <= self.attributes@.len(),
                attributes@.len() == i,
                forall|k: int|
                    0 <= k < i ==> (#[trigger] attributes@[k]).key == self.attributes@[k].key
                        && same_value(attributes@[k].value, self.attributes@[k].value),
            decreases self.attributes.len() - i,
        {
            let attribute = &self.attributes[i];
            attributes.push(
                SpanAttribute { key: attribute.key.clone(), value: attribute.value.copy() },
            );
            i += 1;
        }
        Span {
            span_id: self.span_id.clone(),
            parent_span_id: copy_text(&self.parent_span_id),
            name: self.name.clone(),
            service: self.service.clone(),
            duration: self.duration.clone(),
            start_time_ns: self.start_time_ns,
            kind: self.kind,
            status: self.status.copy(),
            attributes,
        }
    }
}

impl Trace {
    /// A copy of the trace.
    pub fn copy(&self) -> (r: Self)
        ensures
            same_trace(r, *self),
    {
        let mut attributes: Vec<TraceAttribute> = Vec::new();
        let mut i: usize = 0;
        while i < self.attributes.len()
            invariant
                i <= self.attributes@.len(),
                attributes@ =~= self.attributes@.subrange(0, i as int),
            decreases self.attributes.len() - i,
        {
            let attribute = &self.attributes[i];
            attributes.push(
                TraceAttribute { key: attribute.key.clone(), value: attribute.value.clone() },
            );
            i += 1;
        }
        assert(self.attributes@.subrange(0, self.attributes@.len() as int) =~= self.attributes@);
        let mut spans: Vec<Span> = Vec::new();
        let mut j: usize = 0;
        while j < self.spans.len()
            invariant
                j <= self.spans@.len(),
                spans@.len() == j,
                forall|k: int| 0 <= k < j ==> same_span(#[trigger] spans@[k], self.spans@[k]),
            decreases self.spans.len() - j,
        {
            spans.push(self.spans[j].copy());
            j += 1;
        }
        Trace {
            trace_id: self.trace_id.clone(),
            duration: self.duration.clone(),
            status: self.status,
            service: copy_text(&self.service),
            endpoint: copy_text(&self.endpoint),
            is_error: self.is_error,
            attributes,
            spans,
            span_count: self.span_count,
        }
    }
}

impl Corpus {
    /// A copy of the corpus.
    pub fn copy(&self) -> (r: Self)
        ensures
            same_traces(r@, self@),
    {
        let mut traces: Vec<Trace> = Vec::new();
        let mut i: usize = 0;
        while i < self.traces.len()
            invariant
                i <= self.traces@.len(),
                traces@.len() == i,
                forall|k: int| 0 <= k < i ==> same_trace(#[trigger] traces@[k], self.traces@[k]),
            decreases self.traces.len() - i,
        {
            traces.push(self.traces[i].copy());
            i += 1;
        }
        Corpus { traces }
    }
}

impl Rule {
    /// A copy of the rule.
    pub fn copy(&self) -> (r: Self)
        ensures
            r == *self,
    {
        Rule {
            name: self.name.clone(),
            description: copy_text(&self.description),
            match_expr: self.match_expr.clone(),
            action: self.action,
            priority: self.priority,
        }
    }
}

impl Policy {
    /// A copy of the policy.
    pub fn copy(&self) -> (r: Self)
        ensures
            same_policy(r, *self),
    {
        let mut rules: Vec<Rule> = Vec::new();
        let mut i: usize = 0;
        while i < self.rules.len()
            invariant
                i <= self.rules@.len(),
                rules@ =~= self.rules@.subrange(0, i as int),
            decreases self.rules.len() - i,
        {
            rules.push(self.rules[i].copy());
            i += 1;
        }
        assert(self.rules@.subrange(0, self.rules@.len() as int) =~= self.rules@);
        Policy {
            version: self.version,
            name: self.name.clone(),
            budget_per_second: self.budget_per_second,
            rules,
        }
    }
}

} // verus!
