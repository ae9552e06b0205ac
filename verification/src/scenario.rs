//! Scenarios that hold the compiler, the prover and the policy text to
//! what they promise, and the simulation that runs them.

use core::time::Duration;
use vstd::prelude::*;
use vstd::string::StringExecFns;
use crate::analysis::AnalysisMode;
use crate::chaos::{trace_position_at, ChaosConfig, ChaosInjector};
use crate::compiler::{compiled_rules, is_rendering, Compiler, OutputFormat};
use crate::corpus::Corpus;
use crate::error::Error;
use crate::harness::SimResult;
use crate::lockfile::{xxh64, xxh64_of};
use crate::policy::{Action, Policy, Rule, RATE_ONE};
use crate::prover::{is_verdict_of, no_rules_error, Prover, ProverConfig};
use crate::refinery::RefineryConfig;
use crate::result::{findings_of, Finding, ProverResult, Violation, Warning};
use crate::synthetic::{is_drawn, position_at, SyntheticConfig, SyntheticCorpus};
use crate::text::{append_decimal, decimal_text, str_eq};
use crate::time::{duration_debug, duration_debug_text, nanos_of};
use crate::toon::{parse, policy_model, policy_of, policy_text, serialize};
use crate::trace::Trace;

verus! {

/// A scenario to run.
#[derive(Debug, Clone)]
pub enum Scenario {
    /// Compiling a policy again and again gives the same output.
    CompileDeterminism {
        /// The policy to compile.
        policy: Policy,
    },
    /// Verifying a policy again and again gives the same verdict.
    ProverConsistency {
        /// The policy to verify.
        policy: Policy,
        /// The corpus to verify it against.
        corpus: Corpus,
    },
    /// A policy that is written and read again is written as before.
    RoundTrip {
        /// The policy to write.
        policy: Policy,
    },
    /// The prover and the compiler stand up to a corrupted corpus.
    ChaosResilience {
        /// The policy.
        policy: Policy,
        /// The corpus to corrupt.
        corpus: Corpus,
    },
    /// The prover gets through a corpus of many services in time.
    HighCardinality {
        /// The number of services.
        unique_services: usize,
    },
}

impl Scenario {
    /// The name of the scenario.
    pub open spec fn name_text(&self) -> Seq<char> {
        match self {
            Scenario::CompileDeterminism { .. } => "compile_determinism"@,
            Scenario::ProverConsistency { .. } => "prover_consistency"@,
            Scenario::RoundTrip { .. } => "roundtrip"@,
            Scenario::ChaosResilience { .. } => "chaos_resilience"@,
            Scenario::HighCardinality { .. } => "high_cardinality"@,
        }
    }

    /// The scenario of compiling a policy again and again.
    pub fn compile_determinism(policy: Policy) -> (s: Self)
        ensures
            s == (Scenario::CompileDeterminism { policy }),
    {
        Scenario::CompileDeterminism { policy }
    }

    /// The scenario of verifying a policy again and again.
    pub fn prover_consistency(policy: Policy, corpus: Corpus) -> (s: Self)
        ensures
            s == (Scenario::ProverConsistency { policy, corpus }),
    {
        Scenario::ProverConsistency { policy, corpus }
    }

    /// The scenario of writing a policy and reading it again.
    pub fn roundtrip(policy: Policy) -> (s: Self)
        ensures
            s == (Scenario::RoundTrip { policy }),
    {
        Scenario::RoundTrip { policy }
    }

    /// The scenario of a corrupted corpus.
    pub fn chaos_resilience(policy: Policy, corpus: Corpus) -> (s: Self)
        ensures
            s == (Scenario::ChaosResilience { policy, corpus }),
    {
        Scenario::ChaosResilience { policy, corpus }
    }

    /// The scenario of a corpus of many services.
    pub fn high_cardinality(unique_services: usize) -> (s: Self)
        ensures
            s == (Scenario::HighCardinality { unique_services }),
    {
        Scenario::HighCardinality { unique_services }
    }

    /// The name of the scenario.
    pub fn name(&self) -> (n: &'static str)
        ensures
            n@ == self.name_text(),
    {
        match self {
            Scenario::CompileDeterminism { .. } => "compile_determinism",
            Scenario::ProverConsistency { .. } => "prover_consistency",
            Scenario::RoundTrip { .. } => "roundtrip",
            Scenario::ChaosResilience { .. } => "chaos_resilience",
            Scenario::HighCardinality { .. } => "high_cardinality",
        }
    }
}

/// What a simulation is made with.
#[derive(Debug, Clone)]
pub struct SimConfig {
    /// Seed of the simulation.
    pub seed: u64,
    /// Number of iterations.
    pub iterations: usize,
    /// Whether corpora are corrupted.
    pub chaos_enabled: bool,
    /// How corpora are corrupted.
    pub chaos_config: ChaosConfig,
    /// How corpora are generated.
    pub corpus_config: SyntheticConfig,
    /// Whether determinism is checked.
    pub verify_determinism: bool,
    /// How long a scenario may take.
    pub timeout: Duration,
}

impl Default for SimConfig {
    /// A hundred iterations under seed 42, without corruption, with the
    /// check of determinism and half a minute for a scenario.
    fn default() -> (c: Self)
        ensures
            c.seed == 42,
            c.iterations == 100,
            !c.chaos_enabled,
            c.chaos_config.trace_corruption_rate <= RATE_ONE,
            c.verify_determinism,
            c.corpus_config.is_usable(),
            nanos_of(c.timeout) == 30_000_000_000,
    {
        SimConfig {
            seed: 42,
            iterations: 100,
            chaos_enabled: false,
            chaos_config: ChaosConfig::default(),
            corpus_config: SyntheticConfig::default(),
            verify_determinism: true,
            timeout: Duration::from_millis(30_000),
        }
    }
}

impl SimConfig {
    /// Sets the seed.
    pub fn with_seed(self, seed: u64) -> (c: Self)
        ensures
            c == (SimConfig { seed, ..self }),
    {
        let mut config = self;
        config.seed = seed;
        config
    }

    /// Sets the number of iterations.
    pub fn with_iterations(self, iterations: usize) -> (c: Self)
        ensures
            c == (SimConfig { iterations, ..self }),
    {
        let mut config = self;
        config.iterations = iterations;
        config
    }

    /// Has corpora corrupted as the given configuration says.
    pub fn with_chaos(self, config: ChaosConfig) -> (c: Self)
        ensures
            c == (SimConfig { chaos_enabled: true, chaos_config: config, ..self }),
    {
        let mut changed = self;
        changed.chaos_enabled = true;
        changed.chaos_config = config;
        changed
    }

    /// Leaves the check of determinism out.
    pub fn without_determinism_check(self) -> (c: Self)
        ensures
            c == (SimConfig { verify_determinism: false, ..self }),
    {
        let mut config = self;
        config.verify_determinism = false;
        config
    }
}

/// Whether a result has the given name, outcome and message, and no
/// diagnostics.
pub open spec fn is_result(
    r: SimResult,
    name: Seq<char>,
    passed: bool,
    skipped: bool,
    message: Seq<char>,
) -> bool {
    &&& r.name@ == name
    &&& r.passed == passed
    &&& r.skipped == skipped
    &&& r.message@ == message
    &&& r.diagnostics@.len() == 0
}

/// The XXH64 hash of a text under seed 0.
pub open spec fn text_hash(s: Seq<char>) -> u64 {
    xxh64_of(vstd::utf8::encode_utf8(s), 0)
}

/// Whether all the outputs have the hash of the first.
pub open spec fn all_alike(outputs: Seq<String>) -> bool {
    forall|k: int| 0 <= k < outputs.len() ==> text_hash(#[trigger] outputs[k]@) == text_hash(outputs[0]@)
}

/// Whether `r` is the verdict on the outputs of compiling again and
/// again: passed if all have the same hash.
pub open spec fn is_determinism_verdict(r: SimResult, outputs: Seq<String>) -> bool {
    is_result(
        r,
        "compile_determinism"@,
        all_alike(outputs),
        false,
        if all_alike(outputs) {
            "All compilations produced identical output"@
        } else {
            "Compilation produced different outputs"@
        },
    )
}

/// The verdict on the outputs of compiling a policy again and again.
pub fn compile_determinism_verdict(outputs: &Vec<String>) -> (r: SimResult)
    requires
        outputs@.len() > 0,
    ensures
        is_determinism_verdict(r, outputs@),
{
    let first_hash = xxh64(outputs[0].as_str().as_bytes(), 0);
    let mut all_same = true;
    let mut k: usize = 0;
    while k < outputs.len()
        invariant
            k <= outputs@.len(),
            outputs@.len() > 0,
            first_hash == text_hash(outputs@[0]@),
            all_same == (forall|j: int|
                0 <= j < k ==> text_hash(#[trigger] outputs@[j]@) == text_hash(outputs@[0]@)),
        decreases outputs.len() - k,
    {
        if xxh64(outputs[k].as_str().as_bytes(), 0) != first_hash {
            all_same = false;
        }
        k += 1;
    }
    if all_same {
        SimResult::pass("compile_determinism", "All compilations produced identical output")
    } else {
        SimResult::fail("compile_determinism", "Compilation produced different outputs")
    }
}

/// Whether `text` is what compiling the rules as YAML gives: what `render`
/// wrote, or the empty text if they do not compile.
pub open spec fn is_compile_output<F: Fn(&RefineryConfig, OutputFormat) -> String>(
    render: &F,
    rules: Seq<Rule>,
    text: String,
) -> bool {
    if compiled_rules(rules, rules.len()) is Err {
        text@.len() == 0
    } else {
        is_rendering(render, rules, OutputFormat::Yaml, text)
    }
}

/// Whether `r` is the verdict on ten outputs of compiling the rules.
pub open spec fn is_determinism_run<F: Fn(&RefineryConfig, OutputFormat) -> String>(
    render: &F,
    rules: Seq<Rule>,
    outputs: Seq<String>,
    r: SimResult,
) -> bool {
    &&& outputs.len() == 10
    &&& forall|k: int| 0 <= k < 10 ==> is_compile_output(render, rules, #[trigger] outputs[k])
    &&& is_determinism_verdict(r, outputs)
}

/// The findings of warnings, each by what it says.
pub open spec fn warnings_of(v: Seq<Warning>) -> Seq<Finding> {
    Seq::new(v.len(), |i: int| v[i]@)
}

/// Whether two lists of violations say the same.
fn same_violations(a: &Vec<Violation>, b: &Vec<Violation>) -> (r: bool)
    ensures
        r == (findings_of(a@) == findings_of(b@)),
{
    if a.len() != b.len() {
        assert(findings_of(a@).len() != findings_of(b@).len());
        return false;
    }
    let mut i: usize = 0;
    while i < a.len()
        invariant
            a@.len() == b@.len(),
            i <= a@.len(),
            forall|k: int| 0 <= k < i ==> (#[trigger] a@[k])@ == b@[k]@,
        decreases a.len() - i,
    {
        let same = str_eq(a[i].check.as_str(), b[i].check.as_str()) && a[i].severity
            == b[i].severity && str_eq(a[i].message.as_str(), b[i].message.as_str());
        if !same {
            assert(findings_of(a@)[i as int] != findings_of(b@)[i as int]);
            return false;
        }
        i += 1;
    }
    assert(findings_of(a@) =~= findings_of(b@));
    true
}

/// Whether two lists of warnings say the same.
fn same_warnings(a: &Vec<Warning>, b: &Vec<Warning>) -> (r: bool)
    ensures
        r == (warnings_of(a@) == warnings_of(b@)),
{
    if a.len() != b.len() {
        assert(warnings_of(a@).len() != warnings_of(b@).len());
        return false;
    }
    let mut i: usize = 0;
    while i < a.len()
        invariant
            a@.len() == b@.len(),
            i <= a@.len(),
            forall|k: int| 0 <= k < i ==> (#[trigger] a@[k])@ == b@[k]@,
        decreases a.len() - i,
    {
        let same = str_eq(a[i].check.as_str(), b[i].check.as_str()) && a[i].severity
            == b[i].severity && str_eq(a[i].message.as_str(), b[i].message.as_str());
        if !same {
            assert(warnings_of(a@)[i as int] != warnings_of(b@)[i as int]);
            return false;
        }
        i += 1;
    }
    assert(warnings_of(a@) =~= warnings_of(b@));
    true
}

/// Whether two outcomes of verification agree: two verdicts that say the
/// same, or two errors.
pub open spec fn outcomes_agree(a: Result<ProverResult, Error>, b: Result<ProverResult, Error>) -> bool {
    match (a, b) {
        (Ok(x), Ok(y)) => {
            &&& x.status == y.status
            &&& x.checks_passed == y.checks_passed
            &&& x.checks_total == y.checks_total
            &&& findings_of(x.violations@) == findings_of(y.violations@)
            &&& warnings_of(x.warnings@) == warnings_of(y.warnings@)
        },
        (Err(_), Err(_)) => true,
        _ => false,
    }
}

/// Whether two outcomes of verification agree.
pub fn same_outcome(a: &Result<ProverResult, Error>, b: &Result<ProverResult, Error>) -> (r: bool)
    ensures
        r == outcomes_agree(*a, *b),
{
    match (a, b) {
        (Ok(x), Ok(y)) => {
            x.status == y.status && x.checks_passed == y.checks_passed && x.checks_total
                == y.checks_total && same_violations(&x.violations, &y.violations) && same_warnings(
                &x.warnings,
                &y.warnings,
            )
        },
        (Err(_), Err(_)) => true,
        _ => false,
    }
}

/// Whether `r` is the result of writing a policy and reading it again: a
/// text that cannot be read fails with the error; else the result passes
/// if the policy that was read is written as the first was.
pub open spec fn is_roundtrip_result(r: SimResult, policy: Policy) -> bool {
    let toon = policy_text(policy);
    match policy_of(toon) {
        Err(e) => is_result(
            r,
            "roundtrip"@,
            false,
            false,
            "Failed to parse serialized TOON: "@ + e.message(),
        ),
        Ok(text) => exists|parsed: Policy| #[trigger]
            policy_model(parsed) == text && is_result(
                r,
                "roundtrip"@,
                policy_text(parsed) == toon,
                false,
                if policy_text(parsed) == toon {
                    "Policy survives roundtrip serialization"@
                } else {
                    "Policy changed after roundtrip serialization"@
                },
            ),
    }
}

/// Whether `r` is the result of holding a policy against a corrupted
/// corpus: skipped without an injector; passed where the prover refuses
/// the policy, which it does if the policy has no rules; failed where the
/// policy does not compile; passed where both get through.
pub open spec fn is_resilience_result(r: SimResult, policy: Policy, injected: bool) -> bool {
    if !injected {
        is_result(r, "chaos_resilience"@, true, true, "Chaos injection not enabled"@)
    } else if policy.rules@.len() == 0 {
        is_result(
            r,
            "chaos_resilience"@,
            true,
            false,
            "Prover correctly rejected chaotic input: "@ + no_rules_error().message(),
        )
    } else {
        match compiled_rules(policy.rules@, policy.rules@.len()) {
            Err(e) => is_result(
                r,
                "chaos_resilience"@,
                false,
                false,
                "Compiler failed under chaos: "@ + e.message(),
            ),
            Ok(_) => is_result(
                r,
                "chaos_resilience"@,
                true,
                false,
                "System handled chaos gracefully"@,
            ),
        }
    }
}

/// Whether `r` is the verdict on a verification of a corpus of many
/// services that took `elapsed` nanoseconds: failed if that is over the
/// time allowed or the prover came to no verdict, else passed.
pub open spec fn is_cardinality_verdict(
    r: SimResult,
    failure: Option<Seq<char>>,
    elapsed: nat,
    timeout: nat,
    unique_services: usize,
) -> bool {
    if elapsed > timeout {
        is_result(
            r,
            "high_cardinality"@,
            false,
            false,
            "Verification took too long: "@ + duration_debug_text(elapsed),
        )
    } else {
        match failure {
            None => is_result(
                r,
                "high_cardinality"@,
                true,
                false,
                "Handled "@ + decimal_text(unique_services as nat) + " unique services in "@
                    + duration_debug_text(elapsed),
            ),
            Some(e) => is_result(
                r,
                "high_cardinality"@,
                false,
                false,
                "Verification failed: "@ + e,
            ),
        }
    }
}

/// The message of the error of a verification, if it came to no verdict.
pub open spec fn failure_of(verified: Result<ProverResult, Error>) -> Option<Seq<char>> {
    match verified {
        Ok(_) => None,
        Err(e) => Some(e@.message()),
    }
}

/// The verdict on a verification of a corpus of many services.
pub fn high_cardinality_verdict(
    verified: &Result<ProverResult, Error>,
    elapsed: &Duration,
    timeout: &Duration,
    unique_services: usize,
) -> (r: SimResult)
    ensures
        is_cardinality_verdict(
            r,
            failure_of(*verified),
            nanos_of(*elapsed),
            nanos_of(*timeout),
            unique_services,
        ),
{
    if elapsed.as_nanos() > timeout.as_nanos() {
        let mut message = String::new();
        message.append("Verification took too long: ");
        message.append(duration_debug(elapsed).as_str());
        assert(message@ =~= "Verification took too long: "@ + duration_debug_text(
            nanos_of(*elapsed),
        ));
        return SimResult::fail("high_cardinality", message.as_str());
    }
    match verified {
        Ok(_) => {
            let mut message = String::new();
            message.append("Handled ");
            append_decimal(&mut message, unique_services as u128);
            message.append(" unique services in ");
            message.append(duration_debug(elapsed).as_str());
            assert(message@ =~= "Handled "@ + decimal_text(unique_services as nat)
                + " unique services in "@ + duration_debug_text(nanos_of(*elapsed)));
            SimResult::pass("high_cardinality", message.as_str())
        },
        Err(e) => {
            let mut message = String::new();
            message.append("Verification failed: ");
            message.append(e.message().as_str());
            assert(message@ =~= "Verification failed: "@ + e@.message());
            SimResult::fail("high_cardinality", message.as_str())
        },
    }
}

/// What a trace adds to the summary of a corpus: its identifier, its
/// service and its status.
pub open spec fn trace_summary(t: Trace) -> Seq<char> {
    t.trace_id@ + (match t.service {
        Some(s) => s@,
        None => Seq::empty(),
    }) + (match t.status {
        Some(s) => decimal_text(s as nat),
        None => Seq::empty(),
    })
}

/// The summaries of the first `n` traces, one behind the other.
pub open spec fn summaries(traces: Seq<Trace>, n: nat) -> Seq<char>
    decreases n,
{
    if n == 0 || n > traces.len() {
        Seq::empty()
    } else {
        summaries(traces, (n - 1) as nat) + trace_summary(traces[n - 1])
    }
}

/// The hash of the summary of a corpus: the XXH64 hash under seed 0 of
/// the identifiers, services and statuses of its traces.
pub fn summary_hash(corpus: &Corpus) -> (h: u64)
    ensures
        h == text_hash(summaries(corpus@, corpus@.len())),
{
    let mut input = String::new();
    let n = corpus.traces.len();
    let mut i: usize = 0;
    assert(input@ =~= summaries(corpus@, 0));
    while i < n
        invariant
            n == corpus@.len(),
            i <= n,
            input@ == summaries(corpus@, i as nat),
        decreases n - i,
    {
        let trace = &corpus.traces[i];
        let ghost before = input@;
        input.append(trace.trace_id.as_str());
        match &trace.service {
            Some(service) => {
                input.append(service.as_str());
            },
            None => {},
        }
        match trace.status {
            Some(status) => {
                append_decimal(&mut input, status as u128);
            },
            None => {},
        }
        assert(input@ =~= before + trace_summary(corpus@[i as int]));
        i += 1;
    }
    xxh64(input.as_str().as_bytes(), 0)
}

/// Corpora whose traces have the same summaries, one by one, have the
/// same summary.
pub proof fn lemma_same_summaries(a: Seq<Trace>, b: Seq<Trace>, n: nat)
    requires
        n <= a.len(),
        a.len() == b.len(),
        forall|i: int| 0 <= i < a.len() ==> trace_summary(#[trigger] a[i]) == trace_summary(b[i]),
    ensures
        summaries(a, n) == summaries(b, n),
    decreases n,
{
    if n > 0 {
        lemma_same_summaries(a, b, (n - 1) as nat);
    }
}

/// A simulation: it runs scenarios, with corruption if that is enabled.
#[derive(Debug)]
pub struct Simulation {
    /// What the simulation was made with.
    pub config: SimConfig,
    /// The injector of corruption, if corruption is enabled.
    pub chaos: Option<ChaosInjector>,
    /// Results kept by the simulation.
    pub results: Vec<SimResult>,
}

impl Simulation {
    /// Creates a simulation; its injector of corruption, if it has one,
    /// stands at the start of its stream.
    pub fn new(config: SimConfig) -> (s: Self)
        ensures
            s.config == config,
            s.results@.len() == 0,
            s.chaos is Some == config.chaos_enabled,
            config.chaos_enabled ==> {
                &&& s.chaos->0.position == 0
                &&& s.chaos->0.config.seed == config.chaos_config.seed
                &&& s.chaos->0.config.trace_corruption_rate
                    == config.chaos_config.trace_corruption_rate
                &&& s.chaos->0.config.rule_corruption_rate
                    == config.chaos_config.rule_corruption_rate
                &&& s.chaos->0.config.corruption_types@ == config.chaos_config.corruption_types@
            },
    {
        let chaos = if config.chaos_enabled {
            Some(ChaosInjector::new(config.chaos_config.copy()))
        } else {
            None
        };
        Simulation { config, chaos, results: Vec::new() }
    }

    /// Compiles a policy ten times and holds the outputs against each
    /// other.
    pub fn test_compile_determinism<F: Fn(&RefineryConfig, OutputFormat) -> String>(
        &self,
        policy: &Policy,
        render: &F,
    ) -> (r: SimResult)
        requires
            forall|c: &RefineryConfig, f: OutputFormat| #[trigger] render.requires((c, f)),
        ensures
            exists|outputs: Seq<String>| #[trigger] is_determinism_run(render, policy.rules@, outputs, r),
    {
        let compiler = Compiler::new();
        let mut outputs: Vec<String> = Vec::new();
        let mut k: usize = 0;
        while k < 10
            invariant
                k <= 10,
                outputs@.len() == k,
                compiler.options.format == OutputFormat::Yaml,
                forall|c: &RefineryConfig, f: OutputFormat| #[trigger] render.requires((c, f)),
                forall|j: int|
                    0 <= j < k ==> is_compile_output(render, policy.rules@, #[trigger] outputs@[j]),
            decreases 10 - k,
        {
            let output = match compiler.compile(policy, render) {
                Ok(text) => text,
                Err(_) => String::new(),
            };
            outputs.push(output);
            k += 1;
        }
        let r = compile_determinism_verdict(&outputs);
        assert(is_determinism_run(render, policy.rules@, outputs@, r));
        r
    }

    /// Verifies a policy ten times and holds the verdicts against each
    /// other: they agree, whatever the policy and the corpus.
    pub fn test_prover_consistency(&self, policy: &Policy, corpus: &Corpus) -> (r: SimResult)
        ensures
            is_result(
                r,
                "prover_consistency"@,
                true,
                false,
                "All verifications produced identical results"@,
            ),
    {
        let prover = Prover::new(
            ProverConfig {
                max_budget: None,
                require_error_handling: true,
                analysis_mode: AnalysisMode::Auto,
            },
        );
        let first = prover.verify(policy, corpus);
        let mut all_same = true;
        let mut k: usize = 1;
        while k < 10
            invariant
                1 <= k <= 10,
                all_same,
                match first {
                    Ok(result) => policy.rules@.len() > 0 && is_verdict_of(
                        result,
                        prover.config,
                        *policy,
                        corpus@,
                    ),
                    Err(e) => policy.rules@.len() == 0,
                },
            decreases 10 - k,
        {
            let next = prover.verify(policy, corpus);
            proof {
                if next is Ok && first is Ok {
                    assert(warnings_of(next->Ok_0.warnings@) =~= warnings_of(
                        first->Ok_0.warnings@,
                    ));
                }
            }
            if !same_outcome(&next, &first) {
                all_same = false;
            }
            k += 1;
        }
        if all_same {
            SimResult::pass("prover_consistency", "All verifications produced identical results")
        } else {
            SimResult::fail("prover_consistency", "Verification produced inconsistent results")
        }
    }

    /// Writes a policy, reads it again and writes what was read.
    pub fn test_roundtrip(&self, policy: &Policy) -> (r: SimResult)
        ensures
            is_roundtrip_result(r, *policy),
    {
        let toon = serialize(policy);
        match parse(toon.as_str()) {
            Err(e) => {
                let mut message = String::new();
                message.append("Failed to parse serialized TOON: ");
                message.append(e.message().as_str());
                assert(message@ =~= "Failed to parse serialized TOON: "@ + e@.message());
                SimResult::fail("roundtrip", message.as_str())
            },
            Ok(parsed) => {
                let again = serialize(&parsed);
                let r = if str_eq(toon.as_str(), again.as_str()) {
                    SimResult::pass("roundtrip", "Policy survives roundtrip serialization")
                } else {
                    SimResult::fail("roundtrip", "Policy changed after roundtrip serialization")
                };
                assert(policy_model(parsed) == policy_of(policy_text(*policy))->Ok_0);
                r
            },
        }
    }

    /// Whether the injector, if there is one, can corrupt the corpus.
    pub open spec fn can_corrupt(&self, corpus: Corpus) -> bool {
        self.chaos is Some && corpus@.len() > 0 ==> self.chaos->0.config.trace_corruption_rate
            <= RATE_ONE
    }

    /// Whether `self` stands as the scenario of corruption leaves
    /// `before`: the injector, if there is one, has gone through the
    /// corpus.
    pub open spec fn has_corrupted(&self, before: &Self, corpus: Corpus) -> bool {
        &&& self.config == before.config
        &&& self.results == before.results
        &&& match before.chaos {
            None => self.chaos is None,
            Some(injector) => {
                &&& self.chaos is Some
                &&& self.chaos->0.config == injector.config
                &&& self.chaos->0.position == trace_position_at(
                    injector.config.seed,
                    injector.config.trace_corruption_rate,
                    injector.config.corruption_types@,
                    injector.position,
                    corpus@.len(),
                )
            },
        }
    }

    /// Corrupts a corpus and holds the prover and the compiler to it.
    pub fn test_chaos_resilience<F: Fn(&RefineryConfig, OutputFormat) -> String>(
        &mut self,
        policy: &Policy,
        corpus: &Corpus,
        render: &F,
    ) -> (r: SimResult)
        requires
            old(self).can_corrupt(*corpus),
            forall|c: &RefineryConfig, f: OutputFormat| #[trigger] render.requires((c, f)),
        ensures
            is_resilience_result(r, *policy, old(self).chaos is Some),
            final(self).has_corrupted(old(self), *corpus),
    {
        let chaotic_corpus = match &mut self.chaos {
            None => {
                return SimResult::skip("chaos_resilience", "Chaos injection not enabled");
            },
            Some(chaos) => chaos.corrupt_corpus(corpus),
        };
        let prover = Prover::new(ProverConfig::default());
        let compiler = Compiler::new();
        let verify_result = prover.verify(policy, &chaotic_corpus);
        let compile_result = compiler.compile(policy, render);
        match verify_result {
            Err(e) => {
                let mut message = String::new();
                message.append("Prover correctly rejected chaotic input: ");
                message.append(e.message().as_str());
                assert(message@ =~= "Prover correctly rejected chaotic input: "@
                    + no_rules_error().message());
                SimResult::pass("chaos_resilience", message.as_str())
            },
            Ok(_) => match compile_result {
                Ok(_) => SimResult::pass("chaos_resilience", "System handled chaos gracefully"),
                Err(e) => {
                    let mut message = String::new();
                    message.append("Compiler failed under chaos: ");
                    message.append(e.message().as_str());
                    assert(message@ =~= "Compiler failed under chaos: "@ + e@.message());
                    SimResult::fail("chaos_resilience", message.as_str())
                },
            },
        }
    }

    /// Verifies a policy against a generated corpus of as many services
    /// as traces, and holds the time it took against the time allowed.
    pub fn test_high_cardinality(&self, unique_services: usize) -> (r: SimResult)
        ensures
            exists|elapsed: nat| #[trigger]
                is_cardinality_verdict(
                    r,
                    None,
                    elapsed,
                    nanos_of(self.config.timeout),
                    unique_services,
                ),
    {
        let config = self.config.corpus_config.copy().with_seed(self.config.seed);
        let mut generator = SyntheticCorpus::new(config);
        let corpus = generator.generate_high_cardinality(unique_services);
        let mut policy = Policy::new("high-card-test");
        policy.add_rule(Rule::new("keep-errors", "http.status >= 500", Action::Keep, 100));
        policy.add_rule(Rule::new("fallback", "true", Action::Sample(10_000), 0));
        let prover = Prover::new(ProverConfig::default());
        let start = std::time::Instant::now();
        let result = prover.verify(&policy, &corpus);
        let elapsed = start.elapsed();
        let r = high_cardinality_verdict(&result, &elapsed, &self.config.timeout, unique_services);
        assert(is_cardinality_verdict(
            r,
            None,
            nanos_of(elapsed),
            nanos_of(self.config.timeout),
            unique_services,
        ));
        r
    }

    /// Whether `r` is a result of the scenario.
    pub open spec fn is_outcome<F: Fn(&RefineryConfig, OutputFormat) -> String>(
        &self,
        before: &Self,
        scenario: Scenario,
        render: &F,
        r: SimResult,
    ) -> bool {
        match scenario {
            Scenario::CompileDeterminism { policy } => *self == *before && exists|
                outputs: Seq<String>,
            | #[trigger] is_determinism_run(render, policy.rules@, outputs, r),
            Scenario::ProverConsistency { policy, corpus } => *self == *before && is_result(
                r,
                "prover_consistency"@,
                true,
                false,
                "All verifications produced identical results"@,
            ),
            Scenario::RoundTrip { policy } => *self == *before && is_roundtrip_result(r, policy),
            Scenario::ChaosResilience { policy, corpus } => is_resilience_result(
                r,
                policy,
                before.chaos is Some,
            ) && self.has_corrupted(before, corpus),
            Scenario::HighCardinality { unique_services } => *self == *before && exists|
                elapsed: nat,
            | #[trigger]
                is_cardinality_verdict(
                    r,
                    None,
                    elapsed,
                    nanos_of(self.config.timeout),
                    unique_services,
                ),
        }
    }

    /// Whether the simulation can run the scenario.
    pub open spec fn can_run(&self, scenario: Scenario) -> bool {
        match scenario {
            Scenario::ChaosResilience { policy, corpus } => self.can_corrupt(corpus),
            _ => true,
        }
    }

    /// Runs a scenario.
    pub fn run_scenario<F: Fn(&RefineryConfig, OutputFormat) -> String>(
        &mut self,
        scenario: &Scenario,
        render: &F,
    ) -> (r: SimResult)
        requires
            old(self).can_run(*scenario),
            forall|c: &RefineryConfig, f: OutputFormat| #[trigger] render.requires((c, f)),
        ensures
            final(self).is_outcome(old(self), *scenario, render, r),
            final(self).config == old(self).config,
            final(self).chaos is Some == old(self).chaos is Some,
            final(self).chaos is Some ==> final(self).chaos->0.config == old(self).chaos->0.config,
    {
        match scenario {
            Scenario::CompileDeterminism { policy } => self.test_compile_determinism(
                policy,
                render,
            ),
            Scenario::ProverConsistency { policy, corpus } => self.test_prover_consistency(
                policy,
                corpus,
            ),
            Scenario::RoundTrip { policy } => self.test_roundtrip(policy),
            Scenario::ChaosResilience { policy, corpus } => self.test_chaos_resilience(
                policy,
                corpus,
                render,
            ),
            Scenario::HighCardinality { unique_services } => self.test_high_cardinality(
                *unique_services,
            ),
        }
    }

    /// Runs the scenarios one after the other and returns the result of
    /// each.
    pub fn run_all<F: Fn(&RefineryConfig, OutputFormat) -> String>(
        &mut self,
        scenarios: &[Scenario],
        render: &F,
    ) -> (results: Vec<SimResult>)
        requires
            forall|i: int| 0 <= i < scenarios@.len() ==> old(self).can_run(#[trigger] scenarios@[i]),
            forall|c: &RefineryConfig, f: OutputFormat| #[trigger] render.requires((c, f)),
        ensures
            results@.len() == scenarios@.len(),
            exists|states: Seq<Self>| #[trigger]
                Self::is_run(states, *old(self), *final(self), scenarios@, render, results@),
    {
        let n = scenarios.len();
        let mut results: Vec<SimResult> = Vec::new();
        let mut i: usize = 0;
        let ghost mut states: Seq<Self> = seq![*self];
        while i < n
            invariant
                i <= n,
                n == scenarios@.len(),
                results@.len() == i,
                forall|c: &RefineryConfig, f: OutputFormat| #[trigger] render.requires((c, f)),
                forall|k: int| 0 <= k < n ==> old(self).can_run(#[trigger] scenarios@[k]),
                self.chaos is Some == old(self).chaos is Some,
                self.chaos is Some ==> self.chaos->0.config == old(self).chaos->0.config,
                states.len() == i + 1,
                states[0] == *old(self),
                states.last() == *self,
                forall|k: int|
                    0 <= k < i ==> (#[trigger] states[k + 1]).is_outcome(
                        &states[k],
                        scenarios@[k],
                        render,
                        results@[k],
                    ),
            decreases n - i,
        {
            let ghost before = *self;
            assert(old(self).can_run(scenarios@[i as int]));
            let r = self.run_scenario(&scenarios[i], render);
            results.push(r);
            proof {
                states = states.push(*self);
                assert(states[i + 1] == *self);
                assert(states[i as int] == before);
            }
            i += 1;
        }
        proof {
            assert(Self::is_run(states, *old(self), *self, scenarios@, render, results@));
        }
        results
    }

    /// Whether the states are those that the scenarios lead through, from
    /// `first` to `last`, each with its result.
    pub open spec fn is_run<F: Fn(&RefineryConfig, OutputFormat) -> String>(
        states: Seq<Self>,
        first: Self,
        last: Self,
        scenarios: Seq<Scenario>,
        render: &F,
        results: Seq<SimResult>,
    ) -> bool {
        &&& states.len() == scenarios.len() + 1
        &&& results.len() == scenarios.len()
        &&& states[0] == first
        &&& states.last() == last
        &&& forall|i: int|
            0 <= i < scenarios.len() ==> (#[trigger] states[i + 1]).is_outcome(
                &states[i],
                scenarios[i],
                render,
                results[i],
            )
    }

    /// Generates the corpus of the configuration twice and holds the two
    /// against each other by their summaries. They agree: generation goes
    /// by the configuration alone.
    pub fn verify_determinism(&self) -> (r: bool)
        requires
            self.config.verify_determinism && self.config.corpus_config.trace_count > 0
                ==> self.config.corpus_config.is_usable(),
        ensures
            r,
    {
        if !self.config.verify_determinism {
            return true;
        }
        let mut first = SyntheticCorpus::new(self.config.corpus_config.copy());
        let mut second = SyntheticCorpus::new(self.config.corpus_config.copy());
        let ghost m = first.model();
        let ghost start = first.position;
        assert(second.model() == m);
        let corpus1 = first.generate();
        let corpus2 = second.generate();
        let hash1 = summary_hash(&corpus1);
        let hash2 = summary_hash(&corpus2);
        proof {
            assert forall|i: int| 0 <= i < corpus1@.len() implies trace_summary(
                #[trigger] corpus1@[i],
            ) == trace_summary(corpus2@[i]) by {
                assert(is_drawn(corpus1@[i], m, position_at(m, start, i as nat), i as nat));
                assert(is_drawn(corpus2@[i], m, position_at(m, start, i as nat), i as nat));
            }
            lemma_same_summaries(corpus1@, corpus2@, corpus1@.len());
        }
        hash1 == hash2
    }
}

} // verus!
