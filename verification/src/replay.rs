//! Replay of a corpus in time order through fixed windows.
//!
//! Throughputs are counted in millionths of a trace per second, shares in
//! millionths, percentages in millionths of a percent.

use std::time::Duration;
use vstd::prelude::*;
use vstd::string::StringExecFns;
use crate::corpus::{error_total, one_if, start_range, time_keys, Corpus};
use crate::error::{Error, ErrorText};
use crate::fixed::{
    add_capped, capped128, is_sqrt_of, isqrt, mul_capped, ratio_in_micros, ratio_micros,
};
use crate::match_expr::{holds, parse_text, MatchExpr, Parsed};
use crate::order::stable_positions;
use crate::policy::{Action, Policy, Rule};
use crate::text::{append_decimal, decimal_text};
use crate::time::nanos_of;
use crate::trace::Trace;

verus! {

/// How fast a replay runs against the clock.
#[derive(Debug, Clone, Copy, PartialEq, Eq, Structural)]
pub enum ReplaySpeed {
    /// At the speed of the recording.
    RealTime,
    /// Ten times as fast.
    Fast,
    /// A hundred times as fast.
    VeryFast,
    /// As fast as possible: no delays.
    Max,
    /// A multiplier of one's own, in millionths.
    Custom(u64),
}

impl ReplaySpeed {
    /// The speed multiplier in millionths; `None` stands for no delay at all.
    pub open spec fn factor(self) -> Option<u64> {
        match self {
            ReplaySpeed::RealTime => Some(1_000_000u64),
            ReplaySpeed::Fast => Some(10_000_000u64),
            ReplaySpeed::VeryFast => Some(100_000_000u64),
            ReplaySpeed::Max => None,
            ReplaySpeed::Custom(m) => Some(m),
        }
    }

    /// The time that a span of recorded time takes in the replay, in
    /// nanoseconds, rounded down, at most `u64::MAX`.
    pub open spec fn real_nanos(self, virtual_delta_ns: u64) -> u64 {
        match self.factor() {
            Some(m) if m > 0 => {
                let scaled = (virtual_delta_ns as nat * 1_000_000) / (m as nat);
                if scaled > u64::MAX {
                    u64::MAX
                } else {
                    scaled as u64
                }
            },
            _ => 0,
        }
    }

    /// The speed multiplier in millionths; `None` stands for no delay at all.
    pub fn multiplier(&self) -> (r: Option<u64>)
        ensures
            r == self.factor(),
    {
        match self {
            ReplaySpeed::RealTime => Some(1_000_000),
            ReplaySpeed::Fast => Some(10_000_000),
            ReplaySpeed::VeryFast => Some(100_000_000),
            ReplaySpeed::Max => None,
            ReplaySpeed::Custom(m) => Some(*m),
        }
    }

    /// The time that a span of recorded time takes in the replay.
    pub fn virtual_to_real(&self, virtual_delta_ns: u64) -> (d: Duration)
        ensures
            nanos_of(d) == self.real_nanos(virtual_delta_ns),
    {
        match self.multiplier() {
            Some(m) => {
                if m == 0 {
                    Duration::from_nanos(0)
                } else {
                    let scaled: u128 = (virtual_delta_ns as u128 * 1_000_000) / (m as u128);
                    if scaled > u64::MAX as u128 {
                        Duration::from_nanos(u64::MAX)
                    } else {
                        Duration::from_nanos(scaled as u64)
                    }
                }
            },
            None => Duration::from_nanos(0),
        }
    }
}

impl Default for ReplaySpeed {
    fn default() -> (s: Self)
        ensures
            s == ReplaySpeed::Max,
    {
        ReplaySpeed::Max
    }
}

/// A window of time for aggregation.
#[derive(Debug, Clone, Copy, PartialEq, Eq, Structural)]
pub struct TimeWindow {
    /// Length of the window in nanoseconds.
    pub duration_ns: u64,
}

impl TimeWindow {
    /// A window of the given length; of its nanoseconds the lowest 64 bits
    /// count.
    pub fn from_duration(duration: Duration) -> (w: Self)
        ensures
            w.duration_ns == nanos_of(duration) % 0x1_0000_0000_0000_0000,
    {
        let nanos = duration.as_nanos();
        TimeWindow { duration_ns: (nanos % 0x1_0000_0000_0000_0000) as u64 }
    }

    /// A window of one second.
    pub fn one_second() -> (w: Self)
        ensures
            w.duration_ns == 1_000_000_000,
    {
        TimeWindow { duration_ns: 1_000_000_000 }
    }

    /// A window of one minute.
    pub fn one_minute() -> (w: Self)
        ensures
            w.duration_ns == 60_000_000_000,
    {
        TimeWindow { duration_ns: 60_000_000_000 }
    }

    /// A window of five minutes.
    pub fn five_minutes() -> (w: Self)
        ensures
            w.duration_ns == 300_000_000_000,
    {
        TimeWindow { duration_ns: 300_000_000_000 }
    }

    /// The length of the window in nanoseconds.
    pub fn duration_ns(&self) -> (n: u64)
        ensures
            n == self.duration_ns,
    {
        self.duration_ns
    }

    /// The length of the window.
    pub fn duration(&self) -> (d: Duration)
        ensures
            nanos_of(d) == self.duration_ns,
    {
        Duration::from_nanos(self.duration_ns)
    }

    /// The window that a time belongs to, counted from 0.
    pub fn window_index(&self, timestamp_ns: u64) -> (i: u64)
        requires
            self.duration_ns > 0,
        ensures
            i == timestamp_ns / self.duration_ns,
    {
        timestamp_ns / self.duration_ns
    }
}

impl Default for TimeWindow {
    fn default() -> (w: Self)
        ensures
            w.duration_ns == 1_000_000_000,
    {
        TimeWindow::one_second()
    }
}

/// Configuration of a replay.
#[derive(Debug, Clone, Copy, PartialEq, Eq, Structural)]
pub struct ReplayConfig {
    /// Replay speed.
    pub speed: ReplaySpeed,
    /// Window of aggregation.
    pub window: TimeWindow,
    /// Budget in kept traces per second.
    pub budget_per_second: Option<u64>,
}

/// The default configuration: full speed, windows of one second, no
/// budget.
pub open spec fn default_replay_config() -> ReplayConfig {
    ReplayConfig {
        speed: ReplaySpeed::Max,
        window: TimeWindow { duration_ns: 1_000_000_000 },
        budget_per_second: None,
    }
}

impl ReplayConfig {
    /// The default configuration: full speed, windows of one second, no
    /// budget.
    pub fn new() -> (c: Self)
        ensures
            c == default_replay_config(),
    {
        ReplayConfig {
            speed: ReplaySpeed::Max,
            window: TimeWindow::one_second(),
            budget_per_second: None,
        }
    }

    /// Sets the replay speed.
    pub fn with_speed(self, speed: ReplaySpeed) -> (c: Self)
        ensures
            c == (ReplayConfig { speed, ..self }),
    {
        ReplayConfig { speed, ..self }
    }

    /// Sets the window of aggregation.
    pub fn with_window(self, window: TimeWindow) -> (c: Self)
        ensures
            c == (ReplayConfig { window, ..self }),
    {
        ReplayConfig { window, ..self }
    }

    /// Sets the budget in kept traces per second.
    pub fn with_budget(self, budget_per_second: u64) -> (c: Self)
        ensures
            c == (ReplayConfig { budget_per_second: Some(budget_per_second), ..self }),
    {
        ReplayConfig { budget_per_second: Some(budget_per_second), ..self }
    }
}

impl Default for ReplayConfig {
    fn default() -> (c: Self)
        ensures
            c == default_replay_config(),
    {
        ReplayConfig::new()
    }
}

/// One window of aggregated replay data.
#[derive(Debug, Clone, Copy, PartialEq, Eq, Structural)]
pub struct ReplayWindow {
    /// Index of the window, counted from 0.
    pub index: u64,
    /// Start of the window, in nanoseconds since the start of the corpus.
    pub start_ns: u128,
    /// End of the window, in nanoseconds since the start of the corpus.
    pub end_ns: u128,
    /// Number of traces in this window.
    pub trace_count: usize,
    /// Number of error traces.
    pub error_count: usize,
    /// Traces that the policy keeps.
    pub kept_count: usize,
    /// Traces that the policy drops.
    pub dropped_count: usize,
    /// Kept traces per second, in millionths, rounded down.
    pub throughput: u128,
    /// Whether this window exceeds the budget.
    pub exceeds_budget: bool,
    /// By how much the throughput exceeds the budget, in millionths.
    pub over_budget_by: u128,
}

/// An empty window.
pub open spec fn blank_window(index: u64, window_duration_ns: u64) -> ReplayWindow {
    ReplayWindow {
        index,
        start_ns: (index as nat * window_duration_ns as nat) as u128,
        end_ns: (index as nat * window_duration_ns as nat + window_duration_ns as nat) as u128,
        trace_count: 0,
        error_count: 0,
        kept_count: 0,
        dropped_count: 0,
        throughput: 0,
        exceeds_budget: false,
        over_budget_by: 0,
    }
}

/// The kept traces per second of a window of the given length, in
/// millionths, rounded down.
pub open spec fn throughput_of(kept_count: usize, window_duration_ns: u64) -> u128 {
    ((kept_count as nat * 1_000_000_000_000_000) / (window_duration_ns as nat)) as u128
}

/// The budget in millionths of a trace per second.
pub open spec fn budget_micros(budget: u64) -> u128 {
    (budget as nat * 1_000_000) as u128
}

impl ReplayWindow {
    /// The window with its throughput for the given length.
    pub open spec fn with_throughput(self, window_duration_ns: u64) -> ReplayWindow {
        ReplayWindow { throughput: throughput_of(self.kept_count, window_duration_ns), ..self }
    }

    /// The window held against a budget: it exceeds the budget when its
    /// throughput lies above it.
    pub open spec fn checked(self, budget_per_second: Option<u64>) -> ReplayWindow {
        match budget_per_second {
            Some(budget) if self.throughput > budget_micros(budget) => ReplayWindow {
                exceeds_budget: true,
                over_budget_by: (self.throughput - budget_micros(budget)) as u128,
                ..self
            },
            _ => self,
        }
    }

    /// The window with one more trace.
    pub open spec fn tallied(self, is_error: bool, kept: bool) -> ReplayWindow {
        ReplayWindow {
            trace_count: (self.trace_count + 1) as usize,
            error_count: if is_error {
                (self.error_count + 1) as usize
            } else {
                self.error_count
            },
            kept_count: if kept {
                (self.kept_count + 1) as usize
            } else {
                self.kept_count
            },
            dropped_count: if kept {
                self.dropped_count
            } else {
                (self.dropped_count + 1) as usize
            },
            ..self
        }
    }

    /// Creates an empty window.
    pub fn new(index: u64, window_duration_ns: u64) -> (w: Self)
        ensures
            w == blank_window(index, window_duration_ns),
    {
        proof {
            assert(index * window_duration_ns + window_duration_ns <= u128::MAX)
                by (nonlinear_arith)
                requires
                    index <= u64::MAX,
                    window_duration_ns <= u64::MAX,
            ;
        }
        let start_ns: u128 = index as u128 * window_duration_ns as u128;
        let end_ns: u128 = start_ns + window_duration_ns as u128;
        ReplayWindow {
            index,
            start_ns,
            end_ns,
            trace_count: 0,
            error_count: 0,
            kept_count: 0,
            dropped_count: 0,
            throughput: 0,
            exceeds_budget: false,
            over_budget_by: 0,
        }
    }

    /// Sets the throughput from the kept traces and the window's length.
    pub fn calculate_throughput(&mut self, window_duration_ns: u64)
        requires
            window_duration_ns > 0,
        ensures
            *final(self) == old(self).with_throughput(window_duration_ns),
    {
        proof {
            assert(self.kept_count * 1_000_000_000_000_000 <= usize::MAX * 1_000_000_000_000_000)
                by (nonlinear_arith)
                requires
                    self.kept_count <= usize::MAX,
            ;
        }
        self.throughput = (self.kept_count as u128 * 1_000_000_000_000_000) / (
        window_duration_ns as u128);
    }

    /// Holds the throughput against a budget in traces per second.
    pub fn check_budget(&mut self, budget_per_second: Option<u64>)
        ensures
            *final(self) == old(self).checked(budget_per_second),
    {
        if let Some(budget) = budget_per_second {
            let limit: u128 = budget as u128 * 1_000_000;
            if self.throughput > limit {
                self.exceeds_budget = true;
                self.over_budget_by = self.throughput - limit;
            }
        }
    }
}

/// A span of whole seconds in hours, minutes and seconds; leading parts
/// that are zero are left out.
pub open spec fn duration_text(total_secs: nat) -> Seq<char> {
    let hours = total_secs / 3600;
    let minutes = (total_secs % 3600) / 60;
    let seconds = total_secs % 60;
    if hours > 0 {
        decimal_text(hours) + "h "@ + decimal_text(minutes) + "m "@ + decimal_text(seconds) + "s"@
    } else if minutes > 0 {
        decimal_text(minutes) + "m "@ + decimal_text(seconds) + "s"@
    } else {
        decimal_text(seconds) + "s"@
    }
}

/// Formats a duration for reading: `1h 2m 3s`, `2m 3s` or `3s`.
pub fn format_duration(duration: Duration) -> (s: String)
    ensures
        s@ == duration_text(nanos_of(duration) / 1_000_000_000),
{
    let total_secs = duration.as_secs();
    let hours = total_secs / 3600;
    let minutes = (total_secs % 3600) / 60;
    let seconds = total_secs % 60;
    let mut out = String::new();
    if hours > 0 {
        append_decimal(&mut out, hours as u128);
        out.append("h ");
        append_decimal(&mut out, minutes as u128);
        out.append("m ");
        append_decimal(&mut out, seconds as u128);
        out.append("s");
    } else if minutes > 0 {
        append_decimal(&mut out, minutes as u128);
        out.append("m ");
        append_decimal(&mut out, seconds as u128);
        out.append("s");
    } else {
        append_decimal(&mut out, seconds as u128);
        out.append("s");
    }
    assert(out@ == duration_text(total_secs as nat));
    out
}

/// The span of time that a replay covers.
#[derive(Debug, Clone, PartialEq, Eq)]
pub struct ReplayTimeRange {
    /// Start, in nanoseconds.
    pub start_ns: u64,
    /// End, in nanoseconds.
    pub end_ns: u64,
    /// Length, in nanoseconds.
    pub duration_ns: u64,
    /// Length, for reading.
    pub duration_str: String,
}

/// The length of the span from `start_ns` to `end_ns`, 0 if the end lies
/// before the start.
pub open spec fn span_length(start_ns: u64, end_ns: u64) -> u64 {
    if end_ns >= start_ns {
        (end_ns - start_ns) as u64
    } else {
        0
    }
}

impl ReplayTimeRange {
    /// Whether this is the span from `start_ns` to `end_ns`.
    pub open spec fn spans(&self, start_ns: u64, end_ns: u64) -> bool {
        &&& self.start_ns == start_ns
        &&& self.end_ns == end_ns
        &&& self.duration_ns == span_length(start_ns, end_ns)
        &&& self.duration_str@ == duration_text(span_length(start_ns, end_ns) as nat / 1_000_000_000)
    }

    /// Creates the span from `start_ns` to `end_ns`.
    pub fn new(start_ns: u64, end_ns: u64) -> (r: Self)
        ensures
            r.spans(start_ns, end_ns),
    {
        let duration_ns = end_ns.saturating_sub(start_ns);
        let duration = Duration::from_nanos(duration_ns);
        ReplayTimeRange { start_ns, end_ns, duration_ns, duration_str: format_duration(duration) }
    }
}

/// The hash of a byte string: each byte is added to 31 times the hash of
/// the bytes before it, in 64-bit arithmetic that wraps.
pub open spec fn hash_bytes(bytes: Seq<u8>) -> u64
    decreases bytes.len(),
{
    if bytes.len() == 0 {
        0
    } else {
        hash_bytes(bytes.drop_last()).wrapping_mul(31).wrapping_add(bytes.last() as u64)
    }
}

/// The hash of a text: that of its UTF-8 encoding.
pub open spec fn text_hash(s: Seq<char>) -> u64 {
    hash_bytes(vstd::utf8::encode_utf8(s))
}

/// The hash of a text by which sampling decides.
pub fn simple_hash(s: &str) -> (h: u64)
    ensures
        h == text_hash(s@),
{
    let bytes = s.as_bytes();
    let mut hash: u64 = 0;
    let mut i: usize = 0;
    while i < bytes.len()
        invariant
            i <= bytes@.len(),
            hash == hash_bytes(bytes@.subrange(0, i as int)),
        decreases bytes.len() - i,
    {
        assert(bytes@.subrange(0, i as int + 1).drop_last() == bytes@.subrange(0, i as int));
        hash = hash.wrapping_mul(31).wrapping_add(bytes[i] as u64);
        i += 1;
    }
    assert(bytes@.subrange(0, bytes@.len() as int) == bytes@);
    hash
}

/// Whether sampling at `rate` (in millionths) keeps the trace with this
/// identifier: its hash, as a share of the highest hash, lies below the
/// rate.
pub open spec fn sampled_in(trace_id: Seq<char>, rate: u32) -> bool {
    text_hash(trace_id) as nat * 1_000_000 < rate as nat * u64::MAX as nat
}

/// Whether a rule matches a trace: its match expression parses and holds.
/// A rule whose expression does not parse matches nothing.
pub open spec fn rule_matches(rule: Rule, trace: Trace) -> bool {
    match parse_text(rule.match_expr@) {
        Parsed::Expr(e) => holds(e, trace),
        Parsed::Failure(_) => false,
    }
}

/// What an action does to a trace.
pub open spec fn action_keeps(action: Action, trace: Trace) -> bool {
    match action {
        Action::Keep => true,
        Action::Drop => false,
        Action::Sample(rate) => sampled_in(trace.trace_id@, rate),
    }
}

/// Whether the rules from position `i` on keep a trace: the first rule
/// that matches decides; a trace that no rule matches is kept.
pub open spec fn keeps_from(rules: Seq<Rule>, trace: Trace, i: int) -> bool
    decreases rules.len() - i,
{
    if i < 0 || i >= rules.len() {
        true
    } else if rule_matches(rules[i], trace) {
        action_keeps(rules[i].action, trace)
    } else {
        keeps_from(rules, trace, i + 1)
    }
}

/// Whether a policy keeps a trace.
pub open spec fn keeps(rules: Seq<Rule>, trace: Trace) -> bool {
    keeps_from(rules, trace, 0)
}

/// Whether `parsed` holds the expressions of the rules: `None` where a
/// match expression does not parse.
pub open spec fn parsed_rules(parsed: Seq<Option<MatchExpr>>, rules: Seq<Rule>) -> bool {
    &&& parsed.len() == rules.len()
    &&& forall|i: int|
        0 <= i < rules.len() ==> match #[trigger] parsed[i] {
            Some(e) => parse_text(rules[i].match_expr@) == Parsed::Expr(e.model()),
            None => parse_text(rules[i].match_expr@) is Failure,
        }
}

/// Parses the match expression of each rule.
pub fn parse_rules(policy: &Policy) -> (parsed: Vec<Option<MatchExpr>>)
    ensures
        parsed_rules(parsed@, policy.rules@),
{
    let mut parsed: Vec<Option<MatchExpr>> = Vec::new();
    let mut i: usize = 0;
    while i < policy.rules.len()
        invariant
            i <= policy.rules@.len(),
            parsed@.len() == i,
            forall|k: int|
                0 <= k < i ==> match #[trigger] parsed@[k] {
                    Some(e) => parse_text(policy.rules@[k].match_expr@) == Parsed::Expr(e.model()),
                    None => parse_text(policy.rules@[k].match_expr@) is Failure,
                },
        decreases policy.rules.len() - i,
    {
        let expr = match MatchExpr::parse(policy.rules[i].match_expr.as_str()) {
            Ok(e) => Some(e),
            Err(_) => None,
        };
        parsed.push(expr);
        i += 1;
    }
    parsed
}

/// Whether a policy with parsed rules keeps a trace.
pub fn decide(policy: &Policy, parsed: &Vec<Option<MatchExpr>>, trace: &Trace) -> (r: bool)
    requires
        parsed_rules(parsed@, policy.rules@),
    ensures
        r == keeps(policy.rules@, *trace),
{
    let mut i: usize = 0;
    while i < policy.rules.len()
        invariant
            i <= policy.rules@.len(),
            parsed_rules(parsed@, policy.rules@),
            keeps_from(policy.rules@, *trace, i as int) == keeps(policy.rules@, *trace),
        decreases policy.rules.len() - i,
    {
        let matched = match &parsed[i] {
            Some(e) => e.evaluate(trace),
            None => false,
        };
        if matched {
            return match policy.rules[i].action {
                Action::Keep => true,
                Action::Drop => false,
                Action::Sample(rate) => {
                    let hash = simple_hash(trace.trace_id.as_str());
                    (hash as u128) * 1_000_000 < (rate as u128) * (u64::MAX as u128)
                },
            };
        }
        i += 1;
    }
    true
}

/// The window that a trace falls into: by its start relative to the start
/// of the corpus; a trace without spans falls into the first window.
pub open spec fn window_of(trace: Trace, base_time: u64, window_duration_ns: u64) -> u64 {
    let timestamp = match trace.start_time() {
        Some(t) => t,
        None => base_time,
    };
    let relative = if timestamp >= base_time {
        timestamp - base_time
    } else {
        0
    };
    (relative / window_duration_ns as int) as u64
}

/// The windows after one more trace is recorded in the window `index`:
/// the window is created in its place by index if it is not there yet.
pub open spec fn recorded(
    windows: Seq<ReplayWindow>,
    index: u64,
    window_duration_ns: u64,
    is_error: bool,
    kept: bool,
) -> Seq<ReplayWindow>
    decreases windows.len(),
{
    if windows.len() == 0 {
        seq![blank_window(index, window_duration_ns).tallied(is_error, kept)]
    } else if windows.last().index == index {
        windows.drop_last().push(windows.last().tallied(is_error, kept))
    } else if windows.last().index < index {
        windows.push(blank_window(index, window_duration_ns).tallied(is_error, kept))
    } else {
        recorded(windows.drop_last(), index, window_duration_ns, is_error, kept).push(
            windows.last(),
        )
    }
}

/// The windows after the first `n` traces are recorded.
pub open spec fn windows_after(
    traces: Seq<Trace>,
    rules: Seq<Rule>,
    base_time: u64,
    window_duration_ns: u64,
    n: nat,
) -> Seq<ReplayWindow>
    decreases n,
{
    if n == 0 || n > traces.len() {
        Seq::empty()
    } else {
        let trace = traces[n - 1];
        recorded(
            windows_after(traces, rules, base_time, window_duration_ns, (n - 1) as nat),
            window_of(trace, base_time, window_duration_ns),
            window_duration_ns,
            trace.is_error,
            keeps(rules, trace),
        )
    }
}

/// The traces of the first `m` windows together.
pub open spec fn sum_traces(windows: Seq<ReplayWindow>, m: nat) -> nat
    decreases m,
{
    if m == 0 || m > windows.len() {
        0
    } else {
        sum_traces(windows, (m - 1) as nat) + windows[m - 1].trace_count as nat
    }
}

/// The kept traces of the first `m` windows together.
pub open spec fn sum_kept(windows: Seq<ReplayWindow>, m: nat) -> nat
    decreases m,
{
    if m == 0 || m > windows.len() {
        0
    } else {
        sum_kept(windows, (m - 1) as nat) + windows[m - 1].kept_count as nat
    }
}

/// The dropped traces of the first `m` windows together.
pub open spec fn sum_dropped(windows: Seq<ReplayWindow>, m: nat) -> nat
    decreases m,
{
    if m == 0 || m > windows.len() {
        0
    } else {
        sum_dropped(windows, (m - 1) as nat) + windows[m - 1].dropped_count as nat
    }
}

/// The error traces of the first `m` windows together.
pub open spec fn sum_errors(windows: Seq<ReplayWindow>, m: nat) -> nat
    decreases m,
{
    if m == 0 || m > windows.len() {
        0
    } else {
        sum_errors(windows, (m - 1) as nat) + windows[m - 1].error_count as nat
    }
}

/// The number of traces among the first `n` that the rules keep.
pub open spec fn kept_total(traces: Seq<Trace>, rules: Seq<Rule>, n: nat) -> nat
    decreases n,
{
    if n == 0 || n > traces.len() {
        0
    } else {
        kept_total(traces, rules, (n - 1) as nat) + one_if(keeps(rules, traces[n - 1]))
    }
}

/// A window's kept and dropped traces are its traces, and its errors are
/// among them.
pub open spec fn balanced(w: ReplayWindow) -> bool {
    w.kept_count + w.dropped_count == w.trace_count && w.error_count <= w.trace_count
}

/// Whether the windows are balanced and hold `total` traces together.
pub open spec fn tallies(windows: Seq<ReplayWindow>, total: nat) -> bool {
    &&& sum_traces(windows, windows.len()) == total
    &&& forall|k: int| 0 <= k < windows.len() ==> balanced(#[trigger] windows[k])
}

/// Changing the last window changes the sums by the difference.
pub proof fn lemma_sums_push(windows: Seq<ReplayWindow>, w: ReplayWindow)
    ensures
        sum_traces(windows.push(w), windows.len() + 1) == sum_traces(windows, windows.len())
            + w.trace_count,
        sum_kept(windows.push(w), windows.len() + 1) == sum_kept(windows, windows.len())
            + w.kept_count,
        sum_dropped(windows.push(w), windows.len() + 1) == sum_dropped(windows, windows.len())
            + w.dropped_count,
        sum_errors(windows.push(w), windows.len() + 1) == sum_errors(windows, windows.len())
            + w.error_count,
{
    lemma_sums_prefix(windows.push(w), windows, windows.len());
}

/// The sums of a prefix depend on the prefix alone.
pub proof fn lemma_sums_prefix(a: Seq<ReplayWindow>, b: Seq<ReplayWindow>, m: nat)
    requires
        m <= a.len(),
        m <= b.len(),
        forall|k: int| 0 <= k < m ==> a[k] == b[k],
    ensures
        sum_traces(a, m) == sum_traces(b, m),
        sum_kept(a, m) == sum_kept(b, m),
        sum_dropped(a, m) == sum_dropped(b, m),
        sum_errors(a, m) == sum_errors(b, m),
    decreases m,
{
    if m > 0 {
        lemma_sums_prefix(a, b, (m - 1) as nat);
    }
}

/// Recording a trace adds it to the sums and keeps the windows balanced.
pub proof fn lemma_recorded(
    windows: Seq<ReplayWindow>,
    index: u64,
    window_duration_ns: u64,
    is_error: bool,
    kept: bool,
    total: nat,
)
    requires
        tallies(windows, total),
        total < usize::MAX,
    ensures
        ({
            let after = recorded(windows, index, window_duration_ns, is_error, kept);
            &&& tallies(after, total + 1)
            &&& sum_kept(after, after.len()) == sum_kept(windows, windows.len()) + one_if(kept)
            &&& sum_errors(after, after.len()) == sum_errors(windows, windows.len()) + one_if(
                is_error,
            )
        }),
    decreases windows.len(),
{
    let after = recorded(windows, index, window_duration_ns, is_error, kept);
    if windows.len() == 0 {
        let w = blank_window(index, window_duration_ns).tallied(is_error, kept);
        assert(after == Seq::<ReplayWindow>::empty().push(w));
        lemma_sums_push(Seq::<ReplayWindow>::empty(), w);
        assert(balanced(w));
    } else {
        let head = windows.drop_last();
        let last = windows.last();
        assert(windows == head.push(last));
        lemma_sums_push(head, last);
        lemma_window_share(windows, windows.len() - 1, windows.len());
        assert(balanced(last));
        assert forall|k: int| 0 <= k < head.len() implies balanced(#[trigger] head[k]) by {
            assert(head[k] == windows[k]);
        }
        if last.index == index {
            let w = last.tallied(is_error, kept);
            lemma_sums_push(head, w);
            assert(balanced(w));
            assert forall|k: int| 0 <= k < after.len() implies balanced(#[trigger] after[k]) by {
                if k < head.len() {
                    assert(after[k] == head[k]);
                }
            }
        } else if last.index < index {
            let w = blank_window(index, window_duration_ns).tallied(is_error, kept);
            lemma_sums_push(windows, w);
            assert(balanced(w));
            assert forall|k: int| 0 <= k < after.len() implies balanced(#[trigger] after[k]) by {
                if k < windows.len() {
                    assert(after[k] == windows[k]);
                }
            }
        } else {
            let sub_total = (total - last.trace_count) as nat;
            lemma_recorded(head, index, window_duration_ns, is_error, kept, sub_total);
            let inner = recorded(head, index, window_duration_ns, is_error, kept);
            lemma_sums_push(inner, last);
            assert forall|k: int| 0 <= k < after.len() implies balanced(#[trigger] after[k]) by {
                if k < inner.len() {
                    assert(after[k] == inner[k]);
                }
            }
        }
    }
}

/// In balanced windows the kept and the dropped traces together are the
/// traces, and the errors are among them.
pub proof fn lemma_balanced_sums(windows: Seq<ReplayWindow>, m: nat)
    requires
        m <= windows.len(),
        forall|k: int| 0 <= k < windows.len() ==> balanced(#[trigger] windows[k]),
    ensures
        sum_kept(windows, m) + sum_dropped(windows, m) == sum_traces(windows, m),
        sum_errors(windows, m) <= sum_traces(windows, m),
        sum_traces(windows, m) <= sum_traces(windows, windows.len()),
    decreases windows.len() - m,
{
    lemma_balanced_prefix(windows, m);
    if m < windows.len() {
        lemma_balanced_sums(windows, m + 1);
    }
}

/// Where each window is balanced, kept and dropped add up to the traces
/// seen over any prefix of the windows, and errors never exceed them.
pub proof fn lemma_balanced_prefix(windows: Seq<ReplayWindow>, m: nat)
    requires
        m <= windows.len(),
        forall|k: int| 0 <= k < windows.len() ==> balanced(#[trigger] windows[k]),
    ensures
        sum_kept(windows, m) + sum_dropped(windows, m) == sum_traces(windows, m),
        sum_errors(windows, m) <= sum_traces(windows, m),
    decreases m,
{
    if m > 0 {
        lemma_balanced_prefix(windows, (m - 1) as nat);
        assert(balanced(windows[m - 1]));
    }
}

/// No window holds more than the sum of the windows up to it.
pub proof fn lemma_window_share(windows: Seq<ReplayWindow>, k: int, m: nat)
    requires
        0 <= k < m <= windows.len(),
    ensures
        windows[k].trace_count <= sum_traces(windows, m),
        windows[k].kept_count <= sum_kept(windows, m),
        windows[k].dropped_count <= sum_dropped(windows, m),
        windows[k].error_count <= sum_errors(windows, m),
    decreases m,
{
    if k < m - 1 {
        lemma_window_share(windows, k, (m - 1) as nat);
    }
}

/// The windows after `n` traces hold them all: their kept traces are the
/// traces that the rules keep, their errors the error traces.
pub proof fn lemma_windows_after(
    traces: Seq<Trace>,
    rules: Seq<Rule>,
    base_time: u64,
    window_duration_ns: u64,
    n: nat,
)
    requires
        n <= traces.len(),
        traces.len() <= usize::MAX,
    ensures
        ({
            let windows = windows_after(traces, rules, base_time, window_duration_ns, n);
            &&& tallies(windows, n)
            &&& sum_kept(windows, windows.len()) == kept_total(traces, rules, n)
            &&& sum_errors(windows, windows.len()) == error_total(traces, n)
        }),
    decreases n,
{
    if n > 0 {
        let m = (n - 1) as nat;
        lemma_windows_after(traces, rules, base_time, window_duration_ns, m);
        let trace = traces[n - 1];
        lemma_recorded(
            windows_after(traces, rules, base_time, window_duration_ns, m),
            window_of(trace, base_time, window_duration_ns),
            window_duration_ns,
            trace.is_error,
            keeps(rules, trace),
            m,
        );
    }
}

/// Summary statistics of a replay.
#[derive(Debug, Clone, Copy, PartialEq, Eq, Structural)]
pub struct ReplaySummary {
    /// Mean throughput of the windows, in millionths, rounded down.
    pub avg_throughput: u128,
    /// Highest throughput, in millionths.
    pub peak_throughput: u128,
    /// Lowest throughput, in millionths.
    pub min_throughput: u128,
    /// Standard deviation of the throughput, in millionths, rounded down.
    pub throughput_std_dev: u64,
    /// Share of the traces that are kept, in millionths.
    pub overall_sample_rate: u128,
    /// Share of the traces that are errors, in millionths.
    pub error_rate: u128,
    /// Number of windows.
    pub window_count: usize,
    /// Number of windows over budget.
    pub windows_over_budget: usize,
    /// Share of the windows over budget, in millionths of a percent.
    pub percent_time_over_budget: u64,
}

/// The summary of a replay without windows.
pub open spec fn empty_summary() -> ReplaySummary {
    ReplaySummary {
        avg_throughput: 0,
        peak_throughput: 0,
        min_throughput: 0,
        throughput_std_dev: 0,
        overall_sample_rate: 0,
        error_rate: 0,
        window_count: 0,
        windows_over_budget: 0,
        percent_time_over_budget: 0,
    }
}

/// The throughputs of the first `m` windows together.
pub open spec fn sum_throughput(windows: Seq<ReplayWindow>, m: nat) -> nat
    decreases m,
{
    if m == 0 || m > windows.len() {
        0
    } else {
        sum_throughput(windows, (m - 1) as nat) + windows[m - 1].throughput as nat
    }
}

/// The highest throughput among the first `m` windows, 0 if none.
pub open spec fn highest_throughput(windows: Seq<ReplayWindow>, m: nat) -> u128
    decreases m,
{
    if m == 0 || m > windows.len() {
        0
    } else {
        let rest = highest_throughput(windows, (m - 1) as nat);
        if windows[m - 1].throughput > rest {
            windows[m - 1].throughput
        } else {
            rest
        }
    }
}

/// The lowest throughput among the first `m` windows; the highest number
/// if none.
pub open spec fn lowest_throughput(windows: Seq<ReplayWindow>, m: nat) -> u128
    decreases m,
{
    if m == 0 || m > windows.len() {
        u128::MAX
    } else {
        let rest = lowest_throughput(windows, (m - 1) as nat);
        if windows[m - 1].throughput < rest {
            windows[m - 1].throughput
        } else {
            rest
        }
    }
}

/// The mean throughput of the windows; sums are capped at the highest
/// 128-bit number.
pub open spec fn mean_throughput(windows: Seq<ReplayWindow>) -> u128 {
    (capped128(sum_throughput(windows, windows.len())) / (windows.len() as u128)) as u128
}

/// The distance between two numbers.
pub open spec fn distance(a: u128, b: u128) -> nat {
    if a >= b {
        (a - b) as nat
    } else {
        (b - a) as nat
    }
}

/// The squared distances of the first `m` throughputs from `mean`, together.
pub open spec fn squared_deviations(windows: Seq<ReplayWindow>, mean: u128, m: nat) -> nat
    decreases m,
{
    if m == 0 || m > windows.len() {
        0
    } else {
        squared_deviations(windows, mean, (m - 1) as nat) + distance(
            windows[m - 1].throughput,
            mean,
        ) * distance(windows[m - 1].throughput, mean)
    }
}

/// The variance of the throughputs: the mean squared distance from the
/// mean throughput, rounded down; sums are capped.
pub open spec fn throughput_variance(windows: Seq<ReplayWindow>) -> u128 {
    (capped128(squared_deviations(windows, mean_throughput(windows), windows.len())) / (
    windows.len() as u128)) as u128
}

/// The windows over budget among the first `m`, in order.
pub open spec fn over_budget(windows: Seq<ReplayWindow>, m: nat) -> Seq<ReplayWindow>
    decreases m,
{
    if m == 0 || m > windows.len() {
        Seq::empty()
    } else if windows[m - 1].exceeds_budget {
        over_budget(windows, (m - 1) as nat).push(windows[m - 1])
    } else {
        over_budget(windows, (m - 1) as nat)
    }
}

/// Whether `summary` is the summary of the windows of a replay of
/// `total_traces` traces.
pub open spec fn summarizes(
    summary: ReplaySummary,
    windows: Seq<ReplayWindow>,
    total_traces: nat,
) -> bool {
    let n = windows.len();
    if n == 0 {
        summary == empty_summary()
    } else {
        &&& summary.avg_throughput == mean_throughput(windows)
        &&& summary.peak_throughput == highest_throughput(windows, n)
        &&& summary.min_throughput == lowest_throughput(windows, n)
        &&& is_sqrt_of(summary.throughput_std_dev as nat, throughput_variance(windows) as nat)
        &&& summary.overall_sample_rate == if total_traces > 0 {
            ratio_in_micros(sum_kept(windows, n), total_traces)
        } else {
            0
        }
        &&& summary.error_rate == if total_traces > 0 {
            ratio_in_micros(sum_errors(windows, n), total_traces)
        } else {
            0
        }
        &&& summary.window_count == n
        &&& summary.windows_over_budget == over_budget(windows, n).len()
        &&& summary.percent_time_over_budget == (over_budget(windows, n).len() * 100_000_000) / n
    }
}

/// The traces that the references point to.
pub open spec fn pointed(traces: Seq<&Trace>) -> Seq<Trace> {
    Seq::new(traces.len(), |k: int| *traces[k])
}

/// The windows with their throughput, held against the budget.
pub open spec fn finished(
    windows: Seq<ReplayWindow>,
    window_duration_ns: u64,
    budget_per_second: Option<u64>,
) -> Seq<ReplayWindow> {
    Seq::new(
        windows.len(),
        |k: int| windows[k].with_throughput(window_duration_ns).checked(budget_per_second),
    )
}

/// Result of replaying a corpus.
#[derive(Debug, Clone)]
pub struct ReplayResult {
    /// Whether the replay ran to its end.
    pub success: bool,
    /// Number of traces processed.
    pub total_traces: usize,
    /// Number of traces kept.
    pub total_kept: usize,
    /// Number of traces dropped.
    pub total_dropped: usize,
    /// Number of error traces.
    pub total_errors: usize,
    /// The windows, in ascending order of index.
    pub windows: Vec<ReplayWindow>,
    /// The windows that exceeded the budget.
    pub violations: Vec<ReplayWindow>,
    /// Summary statistics.
    pub summary: ReplaySummary,
    /// The span of time of the replay.
    pub time_range: Option<ReplayTimeRange>,
}

impl ReplayResult {
    /// Whether no window exceeded the budget.
    pub fn is_compliant(&self) -> (r: bool)
        ensures
            r == (self.violations@.len() == 0),
    {
        self.violations.len() == 0
    }

    /// The number of windows that exceeded the budget.
    pub fn violation_count(&self) -> (n: usize)
        ensures
            n == self.violations@.len(),
    {
        self.violations.len()
    }

    /// The highest throughput of any window, in millionths; 0 without
    /// windows.
    pub fn peak_throughput(&self) -> (r: u128)
        ensures
            r == highest_throughput(self.windows@, self.windows@.len()),
    {
        let mut peak: u128 = 0;
        let mut i: usize = 0;
        while i < self.windows.len()
            invariant
                i <= self.windows@.len(),
                peak == highest_throughput(self.windows@, i as nat),
            decreases self.windows.len() - i,
        {
            if self.windows[i].throughput > peak {
                peak = self.windows[i].throughput;
            }
            i += 1;
        }
        peak
    }
}

/// Replays the traces of a corpus through a policy.
#[derive(Debug, Clone, Copy)]
pub struct Replayer {
    /// The configuration of the replay.
    pub config: ReplayConfig,
}

/// The traces of a corpus in the order of replay: by start time, traces
/// without spans first, traces of equal start in the order of the corpus.
pub open spec fn replay_order(traces: Seq<Trace>) -> Seq<Trace> {
    Seq::new(traces.len(), |k: int| traces[stable_positions(time_keys(traces))[k] as int])
}

/// The start of the corpus, from which windows are counted: the earliest
/// start of a trace, or 0 if no trace has spans.
pub open spec fn base_time_of(traces: Seq<Trace>) -> u64 {
    match start_range(traces) {
        Some(range) => range.0,
        None => 0,
    }
}

/// Whether `r` is the result of replaying the traces under the rules and
/// the configuration.
pub open spec fn is_replay_of(
    r: ReplayResult,
    config: ReplayConfig,
    rules: Seq<Rule>,
    traces: Seq<Trace>,
) -> bool {
    let n = traces.len();
    let ordered = replay_order(traces);
    let duration = config.window.duration_ns;
    let windows = windows_after(ordered, rules, base_time_of(traces), duration, n);
    &&& r.success
    &&& r.total_traces == n
    &&& r.windows@ == finished(windows, duration, config.budget_per_second)
    &&& r.violations@ == over_budget(r.windows@, r.windows@.len())
    &&& r.total_kept == kept_total(ordered, rules, n)
    &&& r.total_dropped == n - kept_total(ordered, rules, n)
    &&& r.total_errors == error_total(ordered, n)
    &&& summarizes(r.summary, r.windows@, n)
    &&& match start_range(traces) {
        Some(range) => r.time_range is Some && r.time_range->0.spans(range.0, range.1),
        None => r.time_range is None,
    }
}

/// The error for a corpus without traces.
pub open spec fn empty_corpus_error() -> ErrorText {
    ErrorText::InvalidCorpus("corpus is empty"@)
}

/// Records one more trace in the window `index`.
fn record_trace(
    windows: &mut Vec<ReplayWindow>,
    index: u64,
    window_duration_ns: u64,
    is_error: bool,
    kept: bool,
    Ghost(total): Ghost<nat>,
)
    requires
        tallies(old(windows)@, total),
        total < usize::MAX,
    ensures
        final(windows)@ == recorded(old(windows)@, index, window_duration_ns, is_error, kept),
{
    let ghost before = windows@;
    let mut pos: usize = windows.len();
    proof {
        let whole = recorded(before, index, window_duration_ns, is_error, kept);
        assert(before.subrange(0, before.len() as int) == before);
        assert(before.subrange(before.len() as int, before.len() as int)
            == Seq::<ReplayWindow>::empty());
        assert(whole + Seq::<ReplayWindow>::empty() == whole);
    }
    while pos > 0 && windows[pos - 1].index > index
        invariant
            pos <= windows@.len(),
            windows@ == before,
            recorded(before, index, window_duration_ns, is_error, kept) == recorded(
                before.subrange(0, pos as int),
                index,
                window_duration_ns,
                is_error,
                kept,
            ) + before.subrange(pos as int, before.len() as int),
        decreases pos,
    {
        proof {
            let here = before.subrange(0, pos as int);
            assert(here.drop_last() == before.subrange(0, pos - 1));
            assert(here.last() == before[pos - 1]);
            let inner = recorded(
                before.subrange(0, pos - 1),
                index,
                window_duration_ns,
                is_error,
                kept,
            );
            assert(inner.push(before[pos - 1]) + before.subrange(pos as int, before.len() as int)
                == inner + before.subrange(pos - 1, before.len() as int));
        }
        pos -= 1;
    }
    let ghost here = before.subrange(0, pos as int);
    let ghost tail = before.subrange(pos as int, before.len() as int);
    if pos > 0 && windows[pos - 1].index == index {
        let mut w = windows[pos - 1];
        proof {
            lemma_window_share(before, pos - 1, before.len());
            assert(balanced(before[pos - 1]));
            assert(here.last() == before[pos - 1]);
        }
        w.trace_count = w.trace_count + 1;
        if is_error {
            w.error_count = w.error_count + 1;
        }
        if kept {
            w.kept_count = w.kept_count + 1;
        } else {
            w.dropped_count = w.dropped_count + 1;
        }
        windows[pos - 1] = w;
        proof {
            assert(w == before[pos - 1].tallied(is_error, kept));
            assert(windows@ == here.drop_last().push(w) + tail);
        }
    } else {
        let mut w = ReplayWindow::new(index, window_duration_ns);
        w.trace_count = 1;
        if is_error {
            w.error_count = 1;
        }
        if kept {
            w.kept_count = 1;
        } else {
            w.dropped_count = 1;
        }
        windows.insert(pos, w);
        proof {
            assert(w == blank_window(index, window_duration_ns).tallied(is_error, kept));
            if pos > 0 {
                assert(here.last() == before[pos - 1]);
                assert(windows@ == here.push(w) + tail);
            } else {
                assert(here == Seq::<ReplayWindow>::empty());
                assert(windows@ == seq![w] + tail);
            }
        }
    }
}

impl Replayer {
    /// Creates a replayer with the given configuration.
    pub fn new(config: ReplayConfig) -> (r: Self)
        ensures
            r.config == config,
    {
        Replayer { config }
    }

    /// Whether the policy keeps a trace: the first rule that matches
    /// decides; sampling decides by the hash of the trace's identifier, so
    /// that the decision is the same in every run; a trace that no rule
    /// matches is kept.
    pub fn should_keep_trace(&self, policy: &Policy, trace: &Trace) -> (r: bool)
        ensures
            r == keeps(policy.rules@, *trace),
    {
        let parsed = parse_rules(policy);
        decide(policy, &parsed, trace)
    }

    /// Whether a match expression, as written, matches a trace.
    pub fn matches_rule(&self, expr: &str, trace: &Trace) -> (r: bool)
        ensures
            r == match parse_text(expr@) {
                Parsed::Expr(e) => holds(e, *trace),
                Parsed::Failure(_) => false,
            },
    {
        match MatchExpr::parse(expr) {
            Ok(e) => e.evaluate(trace),
            Err(_) => false,
        }
    }

    /// Puts the traces into windows, in the order given, and counts for
    /// each window its traces, its errors and what the policy keeps and
    /// drops. The windows come in ascending order of index.
    pub fn process_traces(&self, traces: &Vec<&Trace>, policy: &Policy, base_time: u64) -> (r: Vec<
        ReplayWindow,
    >)
        requires
            self.config.window.duration_ns > 0,
        ensures
            r@ == windows_after(
                pointed(traces@),
                policy.rules@,
                base_time,
                self.config.window.duration_ns,
                traces@.len(),
            ),
    {
        let window_duration = self.config.window.duration_ns();
        let parsed = parse_rules(policy);
        let ghost all = pointed(traces@);
        let mut windows: Vec<ReplayWindow> = Vec::new();
        let n = traces.len();
        let mut i: usize = 0;
        while i < n
            invariant
                n == traces@.len(),
                i <= n,
                all == pointed(traces@),
                window_duration == self.config.window.duration_ns,
                window_duration > 0,
                parsed_rules(parsed@, policy.rules@),
                windows@ == windows_after(all, policy.rules@, base_time, window_duration, i as nat),
            decreases n - i,
        {
            let trace: &Trace = traces[i];
            assert(all[i as int] == *trace);
            let timestamp = match trace.start_time_ns() {
                Some(t) => t,
                None => base_time,
            };
            let relative_time = timestamp.saturating_sub(base_time);
            let window_index = self.config.window.window_index(relative_time);
            let kept = decide(policy, &parsed, trace);
            proof {
                lemma_windows_after(all, policy.rules@, base_time, window_duration, i as nat);
            }
            record_trace(
                &mut windows,
                window_index,
                window_duration,
                trace.is_error,
                kept,
                Ghost(i as nat),
            );
            i += 1;
        }
        windows
    }

    /// The summary of the windows of a replay of the given traces: mean,
    /// highest and lowest throughput and its standard deviation; the
    /// shares of kept traces and of errors; the share of windows over
    /// budget.
    pub fn calculate_summary(&self, windows: &Vec<ReplayWindow>, traces: &Vec<&Trace>) -> (r:
        ReplaySummary)
        ensures
            summarizes(r, windows@, traces@.len() as nat),
    {
        let n = windows.len();
        if n == 0 {
            return ReplaySummary::default();
        }
        let mut sum: u128 = 0;
        let mut peak: u128 = 0;
        let mut lowest: u128 = u128::MAX;
        let mut kept_sum: u128 = 0;
        let mut error_sum: u128 = 0;
        let mut over: usize = 0;
        let mut i: usize = 0;
        while i < n
            invariant
                n == windows@.len(),
                i <= n,
                sum == capped128(sum_throughput(windows@, i as nat)),
                peak == highest_throughput(windows@, i as nat),
                lowest == lowest_throughput(windows@, i as nat),
                kept_sum == sum_kept(windows@, i as nat),
                error_sum == sum_errors(windows@, i as nat),
                kept_sum <= i * usize::MAX,
                error_sum <= i * usize::MAX,
                over == over_budget(windows@, i as nat).len(),
                over <= i,
            decreases n - i,
        {
            let w = &windows[i];
            sum = add_capped(sum, w.throughput);
            if w.throughput > peak {
                peak = w.throughput;
            }
            if w.throughput < lowest {
                lowest = w.throughput;
            }
            proof {
                assert((i + 1) * usize::MAX == i * usize::MAX + usize::MAX) by (nonlinear_arith);
                assert(i * usize::MAX + usize::MAX <= u128::MAX) by (nonlinear_arith)
                    requires
                        i < usize::MAX,
                ;
            }
            kept_sum = kept_sum + w.kept_count as u128;
            error_sum = error_sum + w.error_count as u128;
            if w.exceeds_budget {
                over = over + 1;
            }
            i += 1;
        }
        let avg: u128 = sum / (n as u128);
        let mut squares: u128 = 0;
        let mut k: usize = 0;
        while k < n
            invariant
                n == windows@.len(),
                k <= n,
                squares == capped128(squared_deviations(windows@, avg, k as nat)),
            decreases n - k,
        {
            let t = windows[k].throughput;
            let d: u128 = if t >= avg {
                t - avg
            } else {
                avg - t
            };
            squares = add_capped(squares, mul_capped(d, d));
            k += 1;
        }
        let variance: u128 = squares / (n as u128);
        let total_traces = traces.len();
        let overall_sample_rate: u128 = if total_traces > 0 {
            ratio_micros(kept_sum, total_traces as u64)
        } else {
            0
        };
        let error_rate: u128 = if total_traces > 0 {
            ratio_micros(error_sum, total_traces as u64)
        } else {
            0
        };
        proof {
            assert((over * 100_000_000) / (n as int) <= 100_000_000) by (nonlinear_arith)
                requires
                    over <= n,
                    n > 0,
            ;
        }
        let percent_time_over_budget: u64 = ((over as u128 * 100_000_000) / (n as u128)) as u64;
        ReplaySummary {
            avg_throughput: avg,
            peak_throughput: peak,
            min_throughput: lowest,
            throughput_std_dev: isqrt(variance),
            overall_sample_rate,
            error_rate,
            window_count: n,
            windows_over_budget: over,
            percent_time_over_budget,
        }
    }

    /// Replays a corpus against a policy: the traces are put into windows
    /// in the order of their start, each window gets its throughput and is
    /// held against the budget, and the totals and the summary are drawn.
    /// An empty corpus is an error.
    pub fn replay(&self, policy: &Policy, corpus: &Corpus) -> (r: Result<ReplayResult, Error>)
        requires
            self.config.window.duration_ns > 0,
        ensures
            match r {
                Ok(result) => corpus@.len() > 0 && is_replay_of(
                    result,
                    self.config,
                    policy.rules@,
                    corpus@,
                ),
                Err(e) => corpus@.len() == 0 && e@ == empty_corpus_error(),
            },
    {
        if corpus.is_empty() {
            return Err(Error::InvalidCorpus("corpus is empty".to_owned()));
        }
        let traces = corpus.sorted_by_time();
        assert(pointed(traces@) == replay_order(corpus@));
        let ghost ordered = replay_order(corpus@);
        let ghost rules = policy.rules@;
        let time_range = match corpus.time_range_ns() {
            Some((start, end)) => Some(ReplayTimeRange::new(start, end)),
            None => None,
        };
        let base_time: u64 = match &time_range {
            Some(range) => range.start_ns,
            None => 0,
        };
        let window_duration_ns = self.config.window.duration_ns();
        let mut windows = self.process_traces(&traces, policy, base_time);
        let ghost raw = windows@;
        let n = traces.len();
        proof {
            lemma_windows_after(ordered, rules, base_time, window_duration_ns, n as nat);
            lemma_balanced_sums(raw, 0);
        }
        let m = windows.len();
        let mut violations: Vec<ReplayWindow> = Vec::new();
        let mut total_kept: usize = 0;
        let mut total_dropped: usize = 0;
        let mut total_errors: usize = 0;
        let mut j: usize = 0;
        while j < m
            invariant
                m == raw.len(),
                windows@.len() == m,
                j <= m,
                window_duration_ns > 0,
                window_duration_ns == self.config.window.duration_ns,
                tallies(raw, n as nat),
                forall|k: int|
                    0 <= k < j ==> (#[trigger] windows@[k]) == raw[k].with_throughput(
                        window_duration_ns,
                    ).checked(self.config.budget_per_second),
                forall|k: int| j <= k < m ==> (#[trigger] windows@[k]) == raw[k],
                violations@ == over_budget(windows@, j as nat),
                total_kept == sum_kept(raw, j as nat),
                total_dropped == sum_dropped(raw, j as nat),
                total_errors == sum_errors(raw, j as nat),
            decreases m - j,
        {
            let mut w = windows[j];
            w.calculate_throughput(window_duration_ns);
            w.check_budget(self.config.budget_per_second);
            let ghost before = windows@;
            windows[j] = w;
            proof {
                lemma_balanced_sums(raw, (j + 1) as nat);
                lemma_over_budget_prefix(before, windows@, j as nat);
            }
            if w.exceeds_budget {
                violations.push(w);
            }
            total_kept = total_kept + w.kept_count;
            total_dropped = total_dropped + w.dropped_count;
            total_errors = total_errors + w.error_count;
            j += 1;
        }
        proof {
            lemma_balanced_sums(raw, m as nat);
            assert(windows@ == finished(raw, window_duration_ns, self.config.budget_per_second));
            lemma_finished_sums(raw, window_duration_ns, self.config.budget_per_second, m as nat);
        }
        let summary = self.calculate_summary(&windows, &traces);
        Ok(
            ReplayResult {
                success: true,
                total_traces: n,
                total_kept,
                total_dropped,
                total_errors,
                windows,
                violations,
                summary,
                time_range,
            },
        )
    }
}

/// The windows over budget among a prefix depend on the prefix alone.
pub proof fn lemma_over_budget_prefix(a: Seq<ReplayWindow>, b: Seq<ReplayWindow>, m: nat)
    requires
        m <= a.len(),
        m <= b.len(),
        forall|k: int| 0 <= k < m ==> a[k] == b[k],
    ensures
        over_budget(a, m) == over_budget(b, m),
    decreases m,
{
    if m > 0 {
        lemma_over_budget_prefix(a, b, (m - 1) as nat);
    }
}

/// Throughput and budget change no count.
pub proof fn lemma_finished_sums(
    windows: Seq<ReplayWindow>,
    window_duration_ns: u64,
    budget_per_second: Option<u64>,
    m: nat,
)
    requires
        m <= windows.len(),
    ensures
        sum_kept(finished(windows, window_duration_ns, budget_per_second), m) == sum_kept(
            windows,
            m,
        ),
        sum_errors(finished(windows, window_duration_ns, budget_per_second), m) == sum_errors(
            windows,
            m,
        ),
    decreases m,
{
    if m > 0 {
        lemma_finished_sums(windows, window_duration_ns, budget_per_second, (m - 1) as nat);
    }
}

/// Replaying the same policy, corpus and configuration again gives the
/// same windows, the same violations and the same counts of kept, dropped
/// and error traces: sampling decides by the hash of the trace identifier
/// alone.
pub proof fn replay_is_repeatable(
    first: ReplayResult,
    second: ReplayResult,
    config: ReplayConfig,
    rules: Seq<Rule>,
    traces: Seq<Trace>,
)
    requires
        is_replay_of(first, config, rules, traces),
        is_replay_of(second, config, rules, traces),
    ensures
        first.total_traces == second.total_traces,
        first.total_kept == second.total_kept,
        first.total_dropped == second.total_dropped,
        first.total_errors == second.total_errors,
        first.windows@ == second.windows@,
        first.violations@ == second.violations@,
{
}

impl Default for Replayer {
    /// A replayer with the default configuration.
    fn default() -> (r: Self)
        ensures
            r.config == default_replay_config(),
    {
        Replayer::new(ReplayConfig::new())
    }
}

impl Default for ReplaySummary {
    /// The summary of no windows: nothing but zeros.
    fn default() -> (s: Self)
        ensures
            s == (ReplaySummary {
                avg_throughput: 0,
                peak_throughput: 0,
                min_throughput: 0,
                throughput_std_dev: 0,
                overall_sample_rate: 0,
                error_rate: 0,
                window_count: 0,
                windows_over_budget: 0,
                percent_time_over_budget: 0,
            }),
    {
        ReplaySummary {
            avg_throughput: 0,
            peak_throughput: 0,
            min_throughput: 0,
            throughput_std_dev: 0,
            overall_sample_rate: 0,
            error_rate: 0,
            window_count: 0,
            windows_over_budget: 0,
            percent_time_over_budget: 0,
        }
    }
}

} // verus!
