//! The corpus: an ordered collection of trace exemplars.

use vstd::prelude::*;
use vstd::string::StringExecFns;
use crate::encoder::ToonEncode;
use crate::error::Error;
use crate::order::{is_stable_order, stable_order, stable_positions};
use crate::text::{append_decimal, decimal_text};
use crate::time::nanos_of;
use crate::trace::Trace;

verus! {

/// A collection of trace exemplars, in the order of insertion.
#[derive(Debug, Clone)]
pub struct Corpus {
    /// The traces.
    pub traces: Vec<Trace>,
}

impl View for Corpus {
    type V = Seq<Trace>;

    open spec fn view(&self) -> Seq<Trace> {
        self.traces@
    }
}

/// The time by which a trace is ordered: its start, or 0 without spans.
pub open spec fn time_key(t: Trace) -> u64 {
    match t.start_time() {
        Some(start) => start,
        None => 0,
    }
}

/// The ordering keys of the traces.
pub open spec fn time_keys(traces: Seq<Trace>) -> Seq<i128> {
    Seq::new(traces.len(), |i: int| time_key(traces[i]) as i128)
}

/// The positions of the error traces among the first `n`, in order.
pub open spec fn error_positions(traces: Seq<Trace>, n: nat) -> Seq<int>
    decreases n,
{
    if n == 0 || n > traces.len() {
        Seq::empty()
    } else if traces[n - 1].is_error {
        error_positions(traces, (n - 1) as nat).push(n - 1)
    } else {
        error_positions(traces, (n - 1) as nat)
    }
}

/// 1 if `b` holds, else 0.
pub open spec fn one_if(b: bool) -> nat {
    if b {
        1
    } else {
        0
    }
}

/// The number of error traces among the first `n`.
pub open spec fn error_total(traces: Seq<Trace>, n: nat) -> nat
    decreases n,
{
    if n == 0 || n > traces.len() {
        0
    } else {
        error_total(traces, (n - 1) as nat) + one_if(traces[n - 1].is_error)
    }
}

/// Whether `picked` lists, in ascending order, the positions below `upto`
/// of the traces that the predicate held of, and `out` points to these
/// traces; of every other trace below `upto` the predicate did not hold.
pub open spec fn selects<F: Fn(&Trace) -> bool>(
    picked: Seq<int>,
    out: Seq<&Trace>,
    traces: Seq<Trace>,
    predicate: F,
    upto: int,
) -> bool {
    &&& picked.len() == out.len()
    &&& forall|k: int| 0 <= k < picked.len() ==> 0 <= #[trigger] picked[k] < upto
    &&& forall|a: int, b: int| 0 <= a < b < picked.len() ==> picked[a] < picked[b]
    &&& forall|k: int| 0 <= k < out.len() ==> *(#[trigger] out[k]) == traces[picked[k]]
    &&& forall|k: int|
        0 <= k < picked.len() ==> predicate.ensures((&traces[#[trigger] picked[k]],), true)
    &&& forall|p: int|
        0 <= p < upto && !picked.contains(p) ==> predicate.ensures((&#[trigger] traces[p],), false)
}

/// Whether `out` points to the traces that the predicate held of, in
/// their order, and the predicate did not hold of any other trace.
pub open spec fn is_selection<F: Fn(&Trace) -> bool>(
    out: Seq<&Trace>,
    traces: Seq<Trace>,
    predicate: F,
) -> bool {
    exists|picked: Seq<int>| selects(picked, out, traces, predicate, traces.len() as int)
}

/// The earliest start among the first `n` traces that have one.
pub open spec fn first_start(traces: Seq<Trace>, n: nat) -> Option<u64>
    decreases n,
{
    if n == 0 || n > traces.len() {
        None
    } else {
        match (first_start(traces, (n - 1) as nat), traces[n - 1].start_time()) {
            (None, here) => here,
            (Some(rest), None) => Some(rest),
            (Some(rest), Some(here)) => Some(
                if here < rest {
                    here
                } else {
                    rest
                },
            ),
        }
    }
}

/// The latest start among the first `n` traces that have one.
pub open spec fn last_start(traces: Seq<Trace>, n: nat) -> Option<u64>
    decreases n,
{
    if n == 0 || n > traces.len() {
        None
    } else {
        match (last_start(traces, (n - 1) as nat), traces[n - 1].start_time()) {
            (None, here) => here,
            (Some(rest), None) => Some(rest),
            (Some(rest), Some(here)) => Some(
                if here > rest {
                    here
                } else {
                    rest
                },
            ),
        }
    }
}

/// The earliest and the latest start of the traces, if any has one.
pub open spec fn start_range(traces: Seq<Trace>) -> Option<(u64, u64)> {
    match (first_start(traces, traces.len()), last_start(traces, traces.len())) {
        (Some(a), Some(b)) => Some((a, b)),
        _ => None,
    }
}

/// The earliest and latest start exist together, and every start among the
/// first `n` traces lies between them.
pub proof fn lemma_start_range(traces: Seq<Trace>, n: nat)
    requires
        n <= traces.len(),
    ensures
        first_start(traces, n) is Some <==> last_start(traces, n) is Some,
        first_start(traces, n) is Some ==> first_start(traces, n)->0 <= last_start(traces, n)->0,
        forall|i: int|
            0 <= i < n && (#[trigger] traces[i]).start_time() is Some ==> first_start(traces, n)
                is Some && first_start(traces, n)->0 <= traces[i].start_time()->0 <= last_start(
                traces,
                n,
            )->0,
    decreases n,
{
    if n > 0 {
        lemma_start_range(traces, (n - 1) as nat);
    }
}

/// A text, or `-` where there is none.
pub open spec fn text_or_dash(s: Option<String>) -> Seq<char> {
    match s {
        Some(text) => text@,
        None => "-"@,
    }
}

/// The row of a trace in the tabular text format: identifier, duration in
/// milliseconds, status, service, endpoint and error flag, with `-` for
/// what is not set.
pub open spec fn row_text(t: Trace) -> Seq<char> {
    "  "@ + t.trace_id@ + ","@ + decimal_text(nanos_of(t.duration) / 1_000_000) + ","@ + (
    match t.status {
        Some(status) => decimal_text(status as nat),
        None => "-"@,
    }) + ","@ + text_or_dash(t.service) + ","@ + text_or_dash(t.endpoint) + ","@ + (if t.is_error {
        "true"@
    } else {
        "false"@
    })
}

/// The rows of the first `n` traces, with a line feed between rows.
pub open spec fn rows_text(traces: Seq<Trace>, n: nat) -> Seq<char>
    decreases n,
{
    if n == 0 || n > traces.len() {
        Seq::empty()
    } else if n == 1 {
        row_text(traces[0])
    } else {
        rows_text(traces, (n - 1) as nat) + "\n"@ + row_text(traces[n - 1])
    }
}

/// A corpus in the tabular text format: a header with the number of
/// traces and the names of the columns, then one row for each trace.
pub open spec fn corpus_text(traces: Seq<Trace>) -> Seq<char> {
    "corpus["@ + decimal_text(traces.len()) + "]{trace_id,duration_ms,status,service,endpoint,is_error}:\n"@
        + rows_text(traces, traces.len())
}

/// Appends a text, or `-` where there is none.
fn append_or_dash(out: &mut String, s: &Option<String>)
    ensures
        final(out)@ == old(out)@ + text_or_dash(*s),
{
    match s {
        Some(text) => out.append(text.as_str()),
        None => out.append("-"),
    }
}

/// Appends the row of a trace.
fn append_row(out: &mut String, t: &Trace)
    ensures
        final(out)@ == old(out)@ + row_text(*t),
{
    let mut row = String::new();
    row.append("  ");
    row.append(t.trace_id.as_str());
    row.append(",");
    append_decimal(&mut row, t.duration.as_nanos() / 1_000_000);
    row.append(",");
    match t.status {
        Some(status) => append_decimal(&mut row, status as u128),
        None => row.append("-"),
    }
    row.append(",");
    append_or_dash(&mut row, &t.service);
    row.append(",");
    append_or_dash(&mut row, &t.endpoint);
    row.append(",");
    if t.is_error {
        row.append("true");
    } else {
        row.append("false");
    }
    assert(row@ == row_text(*t));
    out.append(row.as_str());
}

impl ToonEncode for Corpus {
    /// The corpus in the tabular text format; encoding never fails.
    fn encode_toon(&self) -> (r: Result<String, Error>)
        ensures
            r is Ok,
            r->Ok_0@ == corpus_text(self@),
    {
        let n = self.traces.len();
        let mut out = String::new();
        out.append("corpus[");
        append_decimal(&mut out, n as u128);
        out.append("]{trace_id,duration_ms,status,service,endpoint,is_error}:\n");
        let ghost header = out@;
        let mut i: usize = 0;
        assert(out@ == header + rows_text(self@, 0));
        while i < n
            invariant
                n == self.traces@.len(),
                i <= n,
                out@ == header + rows_text(self@, i as nat),
            decreases n - i,
        {
            if i > 0 {
                out.append("\n");
            }
            append_row(&mut out, &self.traces[i]);
            proof {
                if i > 0 {
                    assert(header + rows_text(self@, i as nat) + "\n"@ + row_text(self@[i as int])
                        == header + (rows_text(self@, i as nat) + "\n"@ + row_text(self@[i as int])));
                } else {
                    assert(header + Seq::<char>::empty() + row_text(self@[0]) == header + row_text(
                        self@[0],
                    ));
                }
            }
            i += 1;
        }
        Ok(out)
    }
}

impl Corpus {
    /// Creates an empty corpus.
    pub fn new() -> (c: Self)
        ensures
            c@.len() == 0,
    {
        Corpus { traces: Vec::new() }
    }

    /// Creates a corpus that holds the given traces in their order.
    pub fn from_traces(traces: Vec<Trace>) -> (c: Self)
        ensures
            c@ == traces@,
    {
        Corpus { traces }
    }

    /// Appends a trace.
    pub fn add(&mut self, trace: Trace)
        ensures
            final(self)@ == old(self)@.push(trace),
    {
        self.traces.push(trace);
    }

    /// The number of traces.
    pub fn len(&self) -> (n: usize)
        ensures
            n == self@.len(),
    {
        self.traces.len()
    }

    /// Whether the corpus holds no trace.
    pub fn is_empty(&self) -> (r: bool)
        ensures
            r == (self@.len() == 0),
    {
        self.traces.len() == 0
    }

    /// The traces in the order of insertion.
    pub fn traces(&self) -> (r: &[Trace])
        ensures
            r@ == self@,
    {
        self.traces.as_slice()
    }

    /// An iterator over the traces in the order of insertion.
    pub fn iter(&self) -> (it: core::slice::Iter<'_, Trace>)
        ensures
            vstd::std_specs::slice::into_iter_elts(it) == self@,
    {
        let it = self.traces.as_slice().iter();
        proof {
            broadcast use vstd::std_specs::slice::axiom_spec_slice_iter;

        }
        it
    }

    /// The error traces, in the order of insertion.
    pub fn errors(&self) -> (r: Vec<&Trace>)
        ensures
            r@.len() == error_positions(self@, self@.len()).len(),
            forall|k: int|
                0 <= k < r@.len() ==> *(#[trigger] r@[k]) == self@[error_positions(
                    self@,
                    self@.len(),
                )[k]],
    {
        let mut out: Vec<&Trace> = Vec::new();
        let mut i: usize = 0;
        while i < self.traces.len()
            invariant
                i <= self.traces@.len(),
                out@.len() == error_positions(self@, i as nat).len(),
                forall|k: int|
                    0 <= k < out@.len() ==> *(#[trigger] out@[k]) == self@[error_positions(
                        self@,
                        i as nat,
                    )[k]],
            decreases self.traces.len() - i,
        {
            if self.traces[i].is_error {
                out.push(&self.traces[i]);
            }
            i += 1;
        }
        out
    }

    /// The number of error traces.
    pub fn error_count(&self) -> (n: usize)
        ensures
            n == error_total(self@, self@.len()),
    {
        let mut count: usize = 0;
        let mut i: usize = 0;
        while i < self.traces.len()
            invariant
                i <= self.traces@.len(),
                count == error_total(self@, i as nat),
                count <= i,
            decreases self.traces.len() - i,
        {
            if self.traces[i].is_error {
                count += 1;
            }
            i += 1;
        }
        count
    }

    /// The traces that the predicate holds of, in the order of insertion.
    pub fn filter<F: Fn(&Trace) -> bool>(&self, predicate: F) -> (r: Vec<&Trace>)
        requires
            forall|t: &Trace| #[trigger] predicate.requires((t,)),
        ensures
            is_selection(r@, self@, predicate),
    {
        let mut out: Vec<&Trace> = Vec::new();
        let ghost mut picked: Seq<int> = Seq::empty();
        let mut i: usize = 0;
        while i < self.traces.len()
            invariant
                i <= self.traces@.len(),
                forall|t: &Trace| #[trigger] predicate.requires((t,)),
                selects(picked, out@, self@, predicate, i as int),
            decreases self.traces.len() - i,
        {
            let trace = &self.traces[i];
            let keep = predicate(trace);
            let ghost before = picked;
            if keep {
                out.push(trace);
                proof {
                    picked = picked.push(i as int);
                }
            }
            proof {
                assert forall|p: int| 0 <= p < i + 1 && !picked.contains(p) implies predicate.ensures(
                    (&self@[p],),
                    false,
                ) by {
                    if p < i {
                        assert(!before.contains(p)) by {
                            if before.contains(p) {
                                let k = choose|k: int| 0 <= k < before.len() && before[k] == p;
                                assert(picked[k] == p);
                            }
                        }
                    } else {
                        if keep {
                            assert(picked[picked.len() - 1] == i);
                        }
                    }
                }
            }
            i += 1;
        }
        out
    }

    /// Hands out the traces in ascending order of start time; traces
    /// without spans count as starting at 0, and traces of equal start
    /// keep their order.
    pub fn into_sorted_by_time(self) -> (r: Vec<Trace>)
        ensures
            r@.len() == self@.len(),
            forall|k: int|
                0 <= k < r@.len() ==> (#[trigger] r@[k]) == self@[stable_positions(
                    time_keys(self@),
                )[k] as int],
    {
        let ghost all = self@;
        let n = self.traces.len();
        let mut keys: Vec<i128> = Vec::new();
        let mut i: usize = 0;
        while i < n
            invariant
                n == self.traces@.len(),
                i <= n,
                keys@ == time_keys(self@).subrange(0, i as int),
            decreases n - i,
        {
            let key: u64 = match self.traces[i].start_time_ns() {
                Some(start) => start,
                None => 0,
            };
            keys.push(key as i128);
            assert(keys@ == time_keys(self@).subrange(0, i as int + 1));
            i += 1;
        }
        assert(keys@ == time_keys(all));
        let order = stable_order(&keys);
        proof {
            crate::order::lemma_stable_order_injective(keys@, order@);
        }
        // The traces from the last to the first, each in a slot of its own.
        let mut traces = self.traces;
        let mut slots: Vec<Option<Trace>> = Vec::new();
        while traces.len() > 0
            invariant
                traces@.len() + slots@.len() == n,
                n == all.len(),
                traces@ == all.subrange(0, traces@.len() as int),
                forall|j: int|
                    0 <= j < slots@.len() ==> (#[trigger] slots@[j]) == Some(all[n - 1 - j]),
            decreases traces.len(),
        {
            let ghost len = traces@.len();
            let last = traces.pop();
            match last {
                Some(t) => {
                    assert(t == all[len - 1]);
                    slots.push(Some(t));
                },
                None => {},
            }
        }
        let mut out: Vec<Trace> = Vec::new();
        let mut k: usize = 0;
        while k < n
            invariant
                n == all.len(),
                slots@.len() == n,
                k <= n,
                order@ == stable_positions(time_keys(all)),
                is_stable_order(time_keys(all), order@),
                forall|a: int, b: int|
                    0 <= a < order@.len() && 0 <= b < order@.len() && a != b ==> order@[a]
                        != order@[b],
                out@.len() == k,
                forall|j: int| 0 <= j < k ==> (#[trigger] out@[j]) == all[order@[j] as int],
                forall|j: int|
                    0 <= j < n ==> (#[trigger] slots@[j]) == (if exists|a: int|
                        0 <= a < k && order@[a] == n - 1 - j {
                        None
                    } else {
                        Some(all[n - 1 - j])
                    }),
            decreases n - k,
        {
            let position = order[k];
            let slot = n - 1 - position;
            assert(!(exists|a: int| 0 <= a < k && order@[a] == n - 1 - slot)) by {
                if exists|a: int| 0 <= a < k && order@[a] == position {
                    let a = choose|a: int| 0 <= a < k && order@[a] == position;
                    assert(order@[a] != order@[k as int]);
                }
            }
            let ghost before = slots@;
            let taken = slots[slot].take();
            match taken {
                Some(t) => {
                    out.push(t);
                },
                None => {},
            }
            proof {
                assert forall|j: int| 0 <= j < n implies (#[trigger] slots@[j]) == (if exists|
                    a: int,
                |
                    0 <= a < k + 1 && order@[a] == n - 1 - j {
                    None
                } else {
                    Some(all[n - 1 - j])
                }) by {
                    if j == slot {
                        assert(order@[k as int] == n - 1 - j);
                    } else {
                        assert(slots@[j] == before[j]);
                        if exists|a: int| 0 <= a < k + 1 && order@[a] == n - 1 - j {
                            let a = choose|a: int| 0 <= a < k + 1 && order@[a] == n - 1 - j;
                            assert(a != k);
                            assert(0 <= a < k && order@[a] == n - 1 - j);
                        }
                    }
                }
            }
            k += 1;
        }
        out
    }

    /// Hands out the traces.
    pub fn into_traces(self) -> (r: Vec<Trace>)
        ensures
            r@ == self@,
    {
        self.traces
    }

    /// The traces in ascending order of start time; traces without spans
    /// count as starting at 0, and traces of equal start keep their order.
    pub fn sorted_by_time(&self) -> (r: Vec<&Trace>)
        ensures
            r@.len() == self@.len(),
            is_stable_order(time_keys(self@), stable_positions(time_keys(self@))),
            forall|k: int|
                0 <= k < r@.len() ==> *(#[trigger] r@[k]) == self@[stable_positions(
                    time_keys(self@),
                )[k] as int],
    {
        let n = self.traces.len();
        let mut keys: Vec<i128> = Vec::new();
        let mut i: usize = 0;
        while i < n
            invariant
                n == self.traces@.len(),
                i <= n,
                keys@ == time_keys(self@).subrange(0, i as int),
            decreases n - i,
        {
            let key: u64 = match self.traces[i].start_time_ns() {
                Some(start) => start,
                None => 0,
            };
            keys.push(key as i128);
            assert(keys@ == time_keys(self@).subrange(0, i as int + 1));
            i += 1;
        }
        assert(keys@ == time_keys(self@));
        let order = stable_order(&keys);
        let mut out: Vec<&Trace> = Vec::new();
        let mut k: usize = 0;
        while k < n
            invariant
                n == self.traces@.len(),
                k <= n,
                order@ == stable_positions(time_keys(self@)),
                is_stable_order(time_keys(self@), order@),
                out@.len() == k,
                forall|j: int| 0 <= j < k ==> *(#[trigger] out@[j]) == self@[order@[j] as int],
            decreases n - k,
        {
            out.push(&self.traces[order[k]]);
            k += 1;
        }
        out
    }

    /// The earliest and the latest start of the traces, in nanoseconds since
    /// the Unix epoch; `None` if no trace has spans.
    pub fn time_range_ns(&self) -> (r: Option<(u64, u64)>)
        ensures
            r == start_range(self@),
    {
        let mut min_time: u64 = u64::MAX;
        let mut max_time: u64 = 0;
        let mut found = false;
        let mut i: usize = 0;
        while i < self.traces.len()
            invariant
                i <= self.traces@.len(),
                found == (first_start(self@, i as nat) is Some),
                found ==> first_start(self@, i as nat) == Some(min_time) && last_start(
                    self@,
                    i as nat,
                ) == Some(max_time),
                !found ==> min_time == u64::MAX && max_time == 0,
            decreases self.traces.len() - i,
        {
            proof {
                lemma_start_range(self@, i as nat);
            }
            if let Some(start) = self.traces[i].start_time_ns() {
                if start < min_time {
                    min_time = start;
                }
                if start > max_time {
                    max_time = start;
                }
                found = true;
            }
            i += 1;
        }
        proof {
            lemma_start_range(self@, self@.len());
        }
        if found {
            Some((min_time, max_time))
        } else {
            None
        }
    }
}

impl Default for Corpus {
    /// The empty corpus.
    fn default() -> (c: Self)
        ensures
            c@.len() == 0,
    {
        Corpus::new()
    }
}

} // verus!
