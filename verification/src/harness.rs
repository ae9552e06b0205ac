//! Building blocks of simulation harnesses: compressed time, logs of
//! replays, and results of scenarios.

use vstd::prelude::*;
use vstd::string::StringExecFns;
use crate::compiler::{compiled_rules, is_rendering, Compiler, OutputFormat};
use crate::corpus::{error_total, Corpus};
use crate::lockfile::{xxh64, xxh64_of};
use crate::policy::{Policy, Rule};
use crate::refinery::RefineryConfig;
use crate::trace::Trace;
use crate::replay::duration_text;
use crate::text::{append_decimal, decimal_text};
use crate::toon::{policy_text, serialize};

verus! {

/// A clock that runs faster than the real one.
#[derive(Debug, Clone, Copy, PartialEq, Eq, Structural)]
pub struct TimeCompressor {
    /// How many times faster simulated time runs.
    pub ratio: u64,
    /// Simulated time in milliseconds.
    pub simulated_time_ms: u64,
    /// Real time in milliseconds.
    pub real_time_ms: u64,
}

impl TimeCompressor {
    /// Creates a clock at time 0.
    pub fn new(ratio: u64) -> (t: Self)
        ensures
            t == (TimeCompressor { ratio, simulated_time_ms: 0, real_time_ms: 0 }),
    {
        TimeCompressor { ratio, simulated_time_ms: 0, real_time_ms: 0 }
    }

    /// Lets real time pass: simulated time passes `ratio` times as fast.
    pub fn advance(&mut self, real_ms: u64)
        requires
            old(self).real_time_ms + real_ms <= u64::MAX,
            old(self).simulated_time_ms + real_ms * old(self).ratio <= u64::MAX,
        ensures
            final(self).ratio == old(self).ratio,
            final(self).real_time_ms == old(self).real_time_ms + real_ms,
            final(self).simulated_time_ms == old(self).simulated_time_ms + real_ms * old(
                self,
            ).ratio,
    {
        proof {
            assert(real_ms * self.ratio >= 0) by (nonlinear_arith);
        }
        self.real_time_ms = self.real_time_ms + real_ms;
        self.simulated_time_ms = self.simulated_time_ms + real_ms * self.ratio;
    }

    /// The simulated time for reading: `1h 2m 3s`, `2m 3s` or `3s`.
    pub fn simulated_duration(&self) -> (s: String)
        ensures
            s@ == duration_text(self.simulated_time_ms as nat / 1000),
    {
        let total_secs = self.simulated_time_ms / 1000;
        let hours = total_secs / 3600;
        let mins = (total_secs % 3600) / 60;
        let secs = total_secs % 60;
        let mut out = String::new();
        if hours > 0 {
            append_decimal(&mut out, hours as u128);
            out.append("h ");
            append_decimal(&mut out, mins as u128);
            out.append("m ");
            append_decimal(&mut out, secs as u128);
            out.append("s");
        } else if mins > 0 {
            append_decimal(&mut out, mins as u128);
            out.append("m ");
            append_decimal(&mut out, secs as u128);
            out.append("s");
        } else {
            append_decimal(&mut out, secs as u128);
            out.append("s");
        }
        out
    }
}

impl Default for TimeCompressor {
    fn default() -> (t: Self)
        ensures
            t == (TimeCompressor { ratio: 1000, simulated_time_ms: 0, real_time_ms: 0 }),
    {
        TimeCompressor { ratio: 1000, simulated_time_ms: 0, real_time_ms: 0 }
    }
}

/// An event in the log of a replay.
#[derive(Debug, Clone, PartialEq, Eq)]
pub enum ReplayEvent {
    /// The policy was changed.
    PolicyChange {
        /// Simulated time in milliseconds.
        timestamp_ms: u64,
        /// Hash of the policy.
        policy_hash: u64,
        /// Number of rules of the policy.
        rule_count: usize,
    },
    /// The corpus was changed.
    CorpusChange {
        /// Simulated time in milliseconds.
        timestamp_ms: u64,
        /// Number of traces of the corpus.
        trace_count: usize,
        /// Number of error traces.
        error_count: usize,
    },
    /// The policy was verified.
    Verification {
        /// Simulated time in milliseconds.
        timestamp_ms: u64,
        /// Whether verification passed.
        passed: bool,
        /// What verification said.
        message: String,
    },
}

/// A checkpoint: the hashes of the state at a time.
#[derive(Debug, Clone, Copy, PartialEq, Eq, Structural)]
pub struct Checkpoint {
    /// Simulated time.
    pub timestamp_ms: u64,
    /// Hash of the policy.
    pub policy_hash: u64,
    /// Hash of the corpus.
    pub corpus_hash: u64,
    /// Hash of the compiled output.
    pub compiled_hash: u64,
}

/// What a step of a simulation did.
#[derive(Debug, Clone, PartialEq, Eq)]
pub enum StepResult {
    /// The policy was changed.
    PolicyChanged,
    /// Verification was made.
    Verified {
        /// Whether verification passed.
        passed: bool,
        /// What verification said.
        message: String,
    },
    /// Compilation succeeded.
    Compiled {
        /// The compiled output.
        output: String,
    },
    /// Compilation failed.
    CompileFailed {
        /// The error.
        error: String,
    },
    /// A checkpoint was made.
    Checkpointed,
}

/// The log of a replay: events in the order of time, and checkpoints.
#[derive(Debug, Clone, PartialEq, Eq)]
pub struct ReplayLog {
    /// Events in the order of time.
    pub events: Vec<ReplayEvent>,
    /// Checkpoints.
    pub checkpoints: Vec<Checkpoint>,
}

/// The hash of a policy: the XXH64 hash of its tabular text under seed 0.
pub open spec fn policy_hash_of(policy: Policy) -> u64 {
    xxh64_of(vstd::utf8::encode_utf8(policy_text(policy)), 0)
}

/// The hash of a policy.
pub fn policy_hash(policy: &Policy) -> (h: u64)
    ensures
        h == policy_hash_of(*policy),
{
    let toon = serialize(policy);
    xxh64(toon.as_str().as_bytes(), 0)
}

/// The identifiers of the first `n` traces, one behind the other.
pub open spec fn ids_text(traces: Seq<Trace>, n: nat) -> Seq<char>
    decreases n,
{
    if n == 0 || n > traces.len() {
        Seq::empty()
    } else {
        ids_text(traces, (n - 1) as nat) + traces[n - 1].trace_id@
    }
}

/// The hash of a corpus in a checkpoint: the XXH64 hash of the identifiers
/// of its traces under seed 0.
pub open spec fn corpus_hash_of(traces: Seq<Trace>) -> u64 {
    xxh64_of(vstd::utf8::encode_utf8(ids_text(traces, traces.len())), 0)
}

/// The hash of a corpus in a checkpoint.
pub fn corpus_hash(corpus: &Corpus) -> (h: u64)
    ensures
        h == corpus_hash_of(corpus@),
{
    let mut input = String::new();
    let n = corpus.traces.len();
    let mut i: usize = 0;
    assert(input@ =~= ids_text(corpus@, 0));
    while i < n
        invariant
            n == corpus@.len(),
            i <= n,
            input@ == ids_text(corpus@, i as nat),
        decreases n - i,
    {
        input.append(corpus.traces[i].trace_id.as_str());
        i += 1;
    }
    xxh64(input.as_str().as_bytes(), 0)
}

/// Whether `h` is the hash of the compiled output of the rules in a
/// checkpoint: the XXH64 hash under seed 0 of what `render` wrote for
/// them as YAML, or of the empty text if they do not compile.
pub open spec fn is_compiled_hash<F: Fn(&RefineryConfig, OutputFormat) -> String>(
    render: &F,
    rules: Seq<Rule>,
    h: u64,
) -> bool {
    if compiled_rules(rules, rules.len()) is Err {
        h == xxh64_of(vstd::utf8::encode_utf8(Seq::empty()), 0)
    } else {
        exists|text: String| #[trigger]
            is_rendering(render, rules, OutputFormat::Yaml, text) && h == xxh64_of(
                vstd::utf8::encode_utf8(text@),
                0,
            )
    }
}

/// Whether two lists of checkpoints agree in the hashes of policy and
/// compiled output, checkpoint by checkpoint.
pub open spec fn same_checkpoints(a: Seq<Checkpoint>, b: Seq<Checkpoint>) -> bool {
    &&& a.len() == b.len()
    &&& forall|i: int|
        0 <= i < a.len() ==> (#[trigger] a[i]).policy_hash == b[i].policy_hash && a[i].compiled_hash
            == b[i].compiled_hash
}

impl ReplayLog {
    /// Creates an empty log.
    pub fn new() -> (l: Self)
        ensures
            l.events@.len() == 0,
            l.checkpoints@.len() == 0,
    {
        ReplayLog { events: Vec::new(), checkpoints: Vec::new() }
    }

    /// Records that the policy was changed.
    pub fn record_policy_change(&mut self, timestamp_ms: u64, policy: &Policy)
        ensures
            final(self).events@ == old(self).events@.push(
                ReplayEvent::PolicyChange {
                    timestamp_ms,
                    policy_hash: policy_hash_of(*policy),
                    rule_count: policy.rules@.len() as usize,
                },
            ),
            final(self).checkpoints == old(self).checkpoints,
    {
        self.events.push(
            ReplayEvent::PolicyChange {
                timestamp_ms,
                policy_hash: policy_hash(policy),
                rule_count: policy.rules.len(),
            },
        );
    }

    /// Records that the corpus was changed.
    pub fn record_corpus_change(&mut self, timestamp_ms: u64, corpus: &Corpus)
        ensures
            final(self).events@ == old(self).events@.push(
                ReplayEvent::CorpusChange {
                    timestamp_ms,
                    trace_count: corpus@.len() as usize,
                    error_count: error_total(corpus@, corpus@.len()) as usize,
                },
            ),
            final(self).checkpoints == old(self).checkpoints,
    {
        self.events.push(
            ReplayEvent::CorpusChange {
                timestamp_ms,
                trace_count: corpus.len(),
                error_count: corpus.error_count(),
            },
        );
    }

    /// Records a verification.
    pub fn record_verification(&mut self, timestamp_ms: u64, passed: bool, message: &str)
        ensures
            final(self).events@.len() == old(self).events@.len() + 1,
            final(self).events@.drop_last() == old(self).events@,
            match final(self).events@.last() {
                ReplayEvent::Verification { timestamp_ms: t, passed: p, message: m } => t
                    == timestamp_ms && p == passed && m@ == message@,
                _ => false,
            },
            final(self).checkpoints == old(self).checkpoints,
    {
        self.events.push(
            ReplayEvent::Verification { timestamp_ms, passed, message: message.to_owned() },
        );
        assert(self.events@.drop_last() == old(self).events@);
    }

    /// Makes a checkpoint of the state: the hashes of the policy, of the
    /// corpus and of the compiled output, which `render` writes.
    pub fn checkpoint<F: Fn(&RefineryConfig, OutputFormat) -> String>(
        &mut self,
        timestamp_ms: u64,
        policy: &Policy,
        corpus: &Corpus,
        render: &F,
    )
        requires
            forall|c: &RefineryConfig, f: OutputFormat| #[trigger] render.requires((c, f)),
        ensures
            final(self).events == old(self).events,
            final(self).checkpoints@.len() == old(self).checkpoints@.len() + 1,
            final(self).checkpoints@.drop_last() == old(self).checkpoints@,
            final(self).checkpoints@.last().timestamp_ms == timestamp_ms,
            final(self).checkpoints@.last().policy_hash == policy_hash_of(*policy),
            final(self).checkpoints@.last().corpus_hash == corpus_hash_of(corpus@),
            is_compiled_hash(render, policy.rules@, final(self).checkpoints@.last().compiled_hash),
    {
        let compiler = Compiler::new();
        let output = match compiler.compile(policy, render) {
            Ok(text) => text,
            Err(_) => String::new(),
        };
        let compiled_hash = xxh64(output.as_str().as_bytes(), 0);
        self.checkpoints.push(
            Checkpoint {
                timestamp_ms,
                policy_hash: policy_hash(policy),
                corpus_hash: corpus_hash(corpus),
                compiled_hash,
            },
        );
        assert(self.checkpoints@.drop_last() == old(self).checkpoints@);
    }

    /// Whether a replay made the same checkpoints: as many, with the same
    /// hashes of policy and compiled output.
    pub fn verify_replay(&self, other: &Self) -> (r: bool)
        ensures
            r == same_checkpoints(self.checkpoints@, other.checkpoints@),
    {
        if self.checkpoints.len() != other.checkpoints.len() {
            return false;
        }
        let mut i: usize = 0;
        while i < self.checkpoints.len()
            invariant
                self.checkpoints@.len() == other.checkpoints@.len(),
                i <= self.checkpoints@.len(),
                forall|k: int|
                    0 <= k < i ==> (#[trigger] self.checkpoints@[k]).policy_hash
                        == other.checkpoints@[k].policy_hash && self.checkpoints@[k].compiled_hash
                        == other.checkpoints@[k].compiled_hash,
            decreases self.checkpoints.len() - i,
        {
            let a = &self.checkpoints[i];
            let b = &other.checkpoints[i];
            if a.policy_hash != b.policy_hash || a.compiled_hash != b.compiled_hash {
                return false;
            }
            i += 1;
        }
        true
    }
}

impl Default for ReplayLog {
    fn default() -> (l: Self)
        ensures
            l.events@.len() == 0,
            l.checkpoints@.len() == 0,
    {
        ReplayLog::new()
    }
}

/// The result of a scenario.
#[derive(Debug, Clone, PartialEq, Eq)]
pub struct SimResult {
    /// Name of the scenario.
    pub name: String,
    /// Whether it passed.
    pub passed: bool,
    /// Whether it was skipped.
    pub skipped: bool,
    /// What it said.
    pub message: String,
    /// Diagnostics, if any.
    pub diagnostics: Vec<String>,
}

/// The first `n` diagnostics, each on a line of its own behind a dash.
pub open spec fn diagnostic_lines(diagnostics: Seq<String>, n: nat) -> Seq<char>
    decreases n,
{
    if n == 0 || n > diagnostics.len() {
        Seq::empty()
    } else {
        diagnostic_lines(diagnostics, (n - 1) as nat) + "\n  - "@ + diagnostics[n - 1]@
    }
}

impl SimResult {
    /// The status of the result: skipped, passed or failed.
    pub open spec fn status_text(&self) -> Seq<char> {
        if self.skipped {
            "SKIP"@
        } else if self.passed {
            "PASS"@
        } else {
            "FAIL"@
        }
    }

    /// The result for reading: status, name and message, then the
    /// diagnostics.
    pub open spec fn text(&self) -> Seq<char> {
        "["@ + self.status_text() + "] "@ + self.name@ + ": "@ + self.message@ + diagnostic_lines(
            self.diagnostics@,
            self.diagnostics@.len(),
        )
    }

    /// Creates the result of a scenario that passed.
    pub fn pass(name: &str, message: &str) -> (r: Self)
        ensures
            r.name@ == name@,
            r.passed,
            !r.skipped,
            r.message@ == message@,
            r.diagnostics@.len() == 0,
    {
        SimResult {
            name: name.to_owned(),
            passed: true,
            skipped: false,
            message: message.to_owned(),
            diagnostics: Vec::new(),
        }
    }

    /// Creates the result of a scenario that failed.
    pub fn fail(name: &str, message: &str) -> (r: Self)
        ensures
            r.name@ == name@,
            !r.passed,
            !r.skipped,
            r.message@ == message@,
            r.diagnostics@.len() == 0,
    {
        SimResult {
            name: name.to_owned(),
            passed: false,
            skipped: false,
            message: message.to_owned(),
            diagnostics: Vec::new(),
        }
    }

    /// Creates the result of a scenario that was skipped.
    pub fn skip(name: &str, reason: &str) -> (r: Self)
        ensures
            r.name@ == name@,
            r.passed,
            r.skipped,
            r.message@ == reason@,
            r.diagnostics@.len() == 0,
    {
        SimResult {
            name: name.to_owned(),
            passed: true,
            skipped: true,
            message: reason.to_owned(),
            diagnostics: Vec::new(),
        }
    }

    /// Appends a diagnostic.
    pub fn with_diagnostic(self, diagnostic: &str) -> (r: Self)
        ensures
            r.name == self.name,
            r.passed == self.passed,
            r.skipped == self.skipped,
            r.message == self.message,
            r.diagnostics@.len() == self.diagnostics@.len() + 1,
            r.diagnostics@.drop_last() == self.diagnostics@,
            r.diagnostics@.last()@ == diagnostic@,
    {
        let mut result = self;
        result.diagnostics.push(diagnostic.to_owned());
        assert(result.diagnostics@.drop_last() == self.diagnostics@);
        result
    }

    /// The result for reading.
    pub fn to_string(&self) -> (s: String)
        ensures
            s@ == self.text(),
    {
        let mut out = String::new();
        out.append("[");
        if self.skipped {
            out.append("SKIP");
        } else if self.passed {
            out.append("PASS");
        } else {
            out.append("FAIL");
        }
        out.append("] ");
        out.append(self.name.as_str());
        out.append(": ");
        out.append(self.message.as_str());
        let ghost head = out@;
        let mut i: usize = 0;
        assert(out@ == head + diagnostic_lines(self.diagnostics@, 0));
        while i < self.diagnostics.len()
            invariant
                i <= self.diagnostics@.len(),
                out@ == head + diagnostic_lines(self.diagnostics@, i as nat),
            decreases self.diagnostics.len() - i,
        {
            out.append("\n  - ");
            out.append(self.diagnostics[i].as_str());
            assert(head + diagnostic_lines(self.diagnostics@, i as nat) + "\n  - "@
                + self.diagnostics@[i as int]@ == head + (diagnostic_lines(
                self.diagnostics@,
                i as nat,
            ) + "\n  - "@ + self.diagnostics@[i as int]@));
            i += 1;
        }
        out
    }
}

/// The number of the first `n` results that passed and were not skipped.
pub open spec fn passed_count(results: Seq<SimResult>, n: nat) -> nat
    decreases n,
{
    if n == 0 || n > results.len() {
        0
    } else {
        passed_count(results, (n - 1) as nat) + if results[n - 1].passed && !results[n
            - 1].skipped {
            1nat
        } else {
            0nat
        }
    }
}

/// The number of the first `n` results that were skipped.
pub open spec fn skipped_count(results: Seq<SimResult>, n: nat) -> nat
    decreases n,
{
    if n == 0 || n > results.len() {
        0
    } else {
        skipped_count(results, (n - 1) as nat) + if results[n - 1].skipped {
            1nat
        } else {
            0nat
        }
    }
}

/// The results of several scenarios together.
#[derive(Debug, Clone, PartialEq, Eq)]
pub struct SimSummary {
    /// Number of results.
    pub total: usize,
    /// Number of results that passed.
    pub passed: usize,
    /// Number of results that failed.
    pub failed: usize,
    /// Number of results that were skipped.
    pub skipped: usize,
    /// The results.
    pub results: Vec<SimResult>,
}

/// The first `n` results, each on a line.
pub open spec fn result_lines(results: Seq<SimResult>, n: nat) -> Seq<char>
    decreases n,
{
    if n == 0 || n > results.len() {
        Seq::empty()
    } else {
        result_lines(results, (n - 1) as nat) + results[n - 1].text() + "\n"@
    }
}

impl SimSummary {
    /// The summary for reading: the counts, then the results.
    pub open spec fn text(&self) -> Seq<char> {
        "Simulation Summary\n"@ + "==================\n"@ + "Total:   "@ + decimal_text(
            self.total as nat,
        ) + "\n"@ + "Passed:  "@ + decimal_text(self.passed as nat) + "\n"@ + "Failed:  "@
            + decimal_text(self.failed as nat) + "\n"@ + "Skipped: "@ + decimal_text(
            self.skipped as nat,
        ) + "\n"@ + "\n"@ + result_lines(self.results@, self.results@.len())
    }

    /// Counts the results: those that passed, those that were skipped, and
    /// as failed all others.
    pub fn from_results(results: Vec<SimResult>) -> (s: Self)
        ensures
            s.results == results,
            s.total == results@.len(),
            s.passed == passed_count(results@, results@.len()),
            s.skipped == skipped_count(results@, results@.len()),
            s.passed + s.failed + s.skipped == s.total,
    {
        let total = results.len();
        let mut passed: usize = 0;
        let mut skipped: usize = 0;
        let mut i: usize = 0;
        while i < total
            invariant
                total == results@.len(),
                i <= total,
                passed == passed_count(results@, i as nat),
                skipped == skipped_count(results@, i as nat),
                passed + skipped <= i,
            decreases total - i,
        {
            if results[i].skipped {
                skipped += 1;
            } else if results[i].passed {
                passed += 1;
            }
            i += 1;
        }
        let failed = total - passed - skipped;
        SimSummary { total, passed, failed, skipped, results }
    }

    /// Whether no scenario failed.
    pub fn all_passed(&self) -> (r: bool)
        ensures
            r == (self.failed == 0),
    {
        self.failed == 0
    }

    /// Whether all invariants held: no scenario failed.
    pub fn all_invariants_held(&self) -> (r: bool)
        ensures
            r == (self.failed == 0),
    {
        self.failed == 0
    }

    /// The summary for reading.
    pub fn to_string(&self) -> (s: String)
        ensures
            s@ == self.text(),
    {
        let mut out = String::new();
        out.append("Simulation Summary\n");
        out.append("==================\n");
        out.append("Total:   ");
        append_decimal(&mut out, self.total as u128);
        out.append("\n");
        out.append("Passed:  ");
        append_decimal(&mut out, self.passed as u128);
        out.append("\n");
        out.append("Failed:  ");
        append_decimal(&mut out, self.failed as u128);
        out.append("\n");
        out.append("Skipped: ");
        append_decimal(&mut out, self.skipped as u128);
        out.append("\n");
        out.append("\n");
        let ghost head = out@;
        let mut i: usize = 0;
        assert(out@ == head + result_lines(self.results@, 0));
        while i < self.results.len()
            invariant
                i <= self.results@.len(),
                out@ == head + result_lines(self.results@, i as nat),
            decreases self.results.len() - i,
        {
            let line = self.results[i].to_string();
            out.append(line.as_str());
            out.append("\n");
            assert(head + result_lines(self.results@, i as nat) + self.results@[i as int].text()
                + "\n"@ == head + (result_lines(self.results@, i as nat)
                + self.results@[i as int].text() + "\n"@));
            i += 1;
        }
        out
    }
}

impl Default for SimSummary {
    /// The summary of no results.
    fn default() -> (s: Self)
        ensures
            s.total == 0,
            s.passed == 0,
            s.failed == 0,
            s.skipped == 0,
            s.results@.len() == 0,
    {
        SimSummary { total: 0, passed: 0, failed: 0, skipped: 0, results: Vec::new() }
    }
}

} // verus!
