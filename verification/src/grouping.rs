//! Bringing spans together into traces.

use vstd::prelude::*;
use crate::order::reversed;
use crate::span::Span;
use crate::text::str_eq;
use crate::trace::Trace;

verus! {

/// A span and the trace it belongs to.
#[derive(Debug, Clone, PartialEq)]
pub struct TracedSpan {
    /// The trace.
    pub trace_id: String,
    /// The span.
    pub span: Span,
}

/// The first of the first `n` identifiers that is `id`.
pub open spec fn first_of(ids: Seq<Seq<char>>, id: Seq<char>, n: nat) -> Option<int>
    decreases n,
{
    if n == 0 || n > ids.len() {
        None
    } else {
        match first_of(ids, id, (n - 1) as nat) {
            Some(k) => Some(k),
            None => if ids[n - 1] == id {
                Some(n - 1)
            } else {
                None
            },
        }
    }
}

/// The traces that the first `n` spans belong to, each once, in the order
/// in which they first appear.
pub open spec fn trace_ids(spans: Seq<TracedSpan>, n: nat) -> Seq<Seq<char>>
    decreases n,
{
    if n == 0 || n > spans.len() {
        Seq::empty()
    } else {
        let before = trace_ids(spans, (n - 1) as nat);
        if first_of(before, spans[n - 1].trace_id@, before.len()) is Some {
            before
        } else {
            before.push(spans[n - 1].trace_id@)
        }
    }
}

/// Those of the first `n` spans that belong to the given trace, in their
/// order.
pub open spec fn members(spans: Seq<TracedSpan>, id: Seq<char>, n: nat) -> Seq<Span>
    decreases n,
{
    if n == 0 || n > spans.len() {
        Seq::empty()
    } else if spans[n - 1].trace_id@ == id {
        members(spans, id, (n - 1) as nat).push(spans[n - 1].span)
    } else {
        members(spans, id, (n - 1) as nat)
    }
}

/// The spans of one trace on their way into it.
pub struct SpanGroup {
    /// The trace.
    pub trace_id: String,
    /// Its spans so far.
    pub spans: Vec<Span>,
}

/// Whether the groups hold the first `n` spans, trace by trace.
pub open spec fn are_groups_of(groups: Seq<SpanGroup>, spans: Seq<TracedSpan>, n: nat) -> bool {
    &&& groups.len() == trace_ids(spans, n).len()
    &&& forall|k: int|
        0 <= k < groups.len() ==> (#[trigger] groups[k]).trace_id@ == trace_ids(spans, n)[k]
            && groups[k].spans@ == members(spans, trace_ids(spans, n)[k], n)
}

/// Whether the traces are those of the spans: a trace for each trace that
/// the spans name, in the order in which the traces first appear, each
/// holding its spans in their order.
pub open spec fn are_traces_of(traces: Seq<Trace>, spans: Seq<TracedSpan>) -> bool {
    &&& traces.len() == trace_ids(spans, spans.len()).len()
    &&& forall|k: int|
        0 <= k < traces.len() ==> (#[trigger] traces[k]).trace_id@ == trace_ids(
            spans,
            spans.len(),
        )[k] && traces[k].span_count == traces[k].spans@.len() && traces[k].spans@ == members(
            spans,
            trace_ids(spans, spans.len())[k],
            spans.len(),
        )
}

/// The index of the group of the given trace.
fn find_group(groups: &Vec<SpanGroup>, id: &str) -> (r: Option<usize>)
    ensures
        match r {
            Some(k) => k < groups@.len() && groups@[k as int].trace_id@ == id@,
            None => forall|j: int| 0 <= j < groups@.len() ==> (#[trigger] groups@[j]).trace_id@ != id@,
        },
{
    let mut k: usize = 0;
    while k < groups.len()
        invariant
            k <= groups@.len(),
            forall|j: int| 0 <= j < k ==> (#[trigger] groups@[j]).trace_id@ != id@,
        decreases groups.len() - k,
    {
        if str_eq(groups[k].trace_id.as_str(), id) {
            return Some(k);
        }
        k += 1;
    }
    None
}

/// Where an identifier first stands among the first `n`: there and not
/// before.
pub proof fn lemma_first_of(ids: Seq<Seq<char>>, id: Seq<char>, n: nat)
    requires
        n <= ids.len(),
    ensures
        match first_of(ids, id, n) {
            Some(k) => 0 <= k < n && ids[k] == id && forall|j: int| 0 <= j < k ==> ids[j] != id,
            None => forall|j: int| 0 <= j < n ==> ids[j] != id,
        },
    decreases n,
{
    if n > 0 {
        lemma_first_of(ids, id, (n - 1) as nat);
    }
}

/// No trace stands twice among the traces of the first `n` spans.
pub proof fn lemma_trace_ids_distinct(spans: Seq<TracedSpan>, n: nat)
    requires
        n <= spans.len(),
    ensures
        forall|a: int, b: int|
            0 <= a < b < trace_ids(spans, n).len() ==> trace_ids(spans, n)[a] != trace_ids(
                spans,
                n,
            )[b],
    decreases n,
{
    if n > 0 {
        let before = trace_ids(spans, (n - 1) as nat);
        lemma_trace_ids_distinct(spans, (n - 1) as nat);
        lemma_first_of(before, spans[n - 1].trace_id@, before.len());
    }
}

/// A trace that is not among the traces of the first `n` spans has no
/// span among the first `m` of them.
pub proof fn lemma_no_members(spans: Seq<TracedSpan>, id: Seq<char>, n: nat, m: nat)
    requires
        m <= n <= spans.len(),
        first_of(trace_ids(spans, n), id, trace_ids(spans, n).len()) is None,
    ensures
        members(spans, id, m).len() == 0,
    decreases n,
{
    if n > 0 {
        let before = trace_ids(spans, (n - 1) as nat);
        let last = spans[n - 1].trace_id@;
        lemma_first_of(trace_ids(spans, n), id, trace_ids(spans, n).len());
        lemma_first_of(before, id, before.len());
        if first_of(before, last, before.len()) is Some {
            lemma_first_of(before, last, before.len());
        } else {
            assert(trace_ids(spans, n) == before.push(last));
            assert forall|j: int| 0 <= j < before.len() implies before[j] != id by {
                assert(trace_ids(spans, n)[j] == before[j]);
            }
            assert(last != id) by {
                assert(trace_ids(spans, n)[before.len() as int] == last);
            }
        }
        assert(last != id) by {
            if first_of(before, last, before.len()) is Some {
                let k = first_of(before, last, before.len())->0;
                assert(before[k] == last);
                assert(trace_ids(spans, n)[k] == last);
            }
        }
        if m == n {
            lemma_no_members(spans, id, (n - 1) as nat, (n - 1) as nat);
        } else {
            lemma_no_members(spans, id, (n - 1) as nat, m);
        }
    }
}

/// Makes traces of spans: the spans of a trace are brought together in
/// their order, and the traces stand in the order in which they first
/// appear.
pub fn group_traced(spans: Vec<TracedSpan>) -> (traces: Vec<Trace>)
    ensures
        are_traces_of(traces@, spans@),
{
    let ghost all = spans@;
    let n = spans.len();
    let mut pending = reversed(spans);
    let mut groups: Vec<SpanGroup> = Vec::new();
    let mut taken: usize = 0;
    while pending.len() > 0
        invariant
            taken + pending@.len() == n,
            n == all.len(),
            forall|i: int| 0 <= i < pending@.len() ==> #[trigger] pending@[i] == all[n - 1 - i],
            are_groups_of(groups@, all, taken as nat),
        decreases pending.len(),
    {
        match pending.pop() {
            Some(traced) => {
                assert(traced == all[taken as int]);
                let ghost ids = trace_ids(all, taken as nat);
                let ghost old_groups = groups@;
                let ghost id = traced.trace_id@;
                proof {
                    lemma_first_of(ids, id, ids.len());
                }
                match find_group(&groups, traced.trace_id.as_str()) {
                    Some(k) => {
                        let mut group = groups.remove(k);
                        group.spans.push(traced.span);
                        groups.insert(k, group);
                        proof {
                            lemma_trace_ids_distinct(all, taken as nat);
                            assert(old_groups[k as int].trace_id@ == ids[k as int]);
                            assert(first_of(ids, id, ids.len()) is Some);
                            assert(trace_ids(all, (taken + 1) as nat) == ids);
                            assert(groups@.len() == old_groups.len());
                            assert forall|j: int| 0 <= j < groups@.len() implies (
                            #[trigger] groups@[j]).trace_id@ == ids[j] && groups@[j].spans@
                                == members(all, ids[j], (taken + 1) as nat) by {
                                assert(old_groups[j].trace_id@ == ids[j]);
                                assert(old_groups[j].spans@ == members(all, ids[j], taken as nat));
                                if j == k {
                                    assert(groups@[j].spans@ == old_groups[j].spans@.push(
                                        traced.span,
                                    ));
                                } else {
                                    assert(ids[j] != id);
                                    assert(groups@[j] == old_groups[j]);
                                }
                            }
                        }
                    },
                    None => {
                        let mut first: Vec<Span> = Vec::new();
                        first.push(traced.span);
                        groups.push(SpanGroup { trace_id: traced.trace_id, spans: first });
                        proof {
                            if first_of(ids, id, ids.len()) is Some {
                                let k0 = first_of(ids, id, ids.len())->0;
                                assert(old_groups[k0].trace_id@ == ids[k0]);
                            }
                            assert(first_of(ids, id, ids.len()) is None);
                            assert(trace_ids(all, (taken + 1) as nat) == ids.push(id));
                            lemma_no_members(all, id, taken as nat, taken as nat);
                            assert forall|j: int| 0 <= j < groups@.len() implies (
                            #[trigger] groups@[j]).trace_id@ == ids.push(id)[j] && groups@[j].spans@
                                == members(all, ids.push(id)[j], (taken + 1) as nat) by {
                                if j < old_groups.len() {
                                    assert(groups@[j] == old_groups[j]);
                                    assert(old_groups[j].trace_id@ == ids[j]);
                                    assert(ids[j] != id);
                                    assert(old_groups[j].spans@ == members(
                                        all,
                                        ids[j],
                                        taken as nat,
                                    ));
                                } else {
                                    assert(members(all, id, (taken + 1) as nat) =~= seq![
                                        traced.span,
                                    ]);
                                }
                            }
                        }
                    },
                }
                taken += 1;
            },
            None => {},
        }
    }
    let ghost ids = trace_ids(all, n as nat);
    let count = groups.len();
    let ghost grouped = groups@;
    let mut rest = reversed(groups);
    let mut traces: Vec<Trace> = Vec::new();
    let mut done: usize = 0;
    while rest.len() > 0
        invariant
            done + rest@.len() == count,
            count == grouped.len(),
            are_groups_of(grouped, all, n as nat),
            ids == trace_ids(all, n as nat),
            n == all.len(),
            forall|i: int| 0 <= i < rest@.len() ==> #[trigger] rest@[i] == grouped[count - 1 - i],
            traces@.len() == done,
            forall|k: int|
                0 <= k < done ==> (#[trigger] traces@[k]).trace_id@ == ids[k] && traces@[k].span_count
                    == traces@[k].spans@.len() && traces@[k].spans@ == members(
                    all,
                    ids[k],
                    n as nat,
                ),
        decreases rest.len(),
    {
        match rest.pop() {
            Some(group) => {
                assert(group == grouped[done as int]);
                let trace = Trace::from_spans(group.trace_id.as_str(), group.spans);
                traces.push(trace);
                done += 1;
            },
            None => {},
        }
    }
    traces
}

} // verus!
