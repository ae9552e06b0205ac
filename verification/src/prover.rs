//! The prover: what a policy has to pass before it is deployed.

use vstd::prelude::*;
use vstd::string::StringExecFns;
use crate::analysis::{
    is_analysis_of, some_error_handling, AnalysisMode, Confidence, StaticAnalysisResult,
    StaticAnalyzer,
};
use crate::checks::{
    check_error_handling, check_fallback, check_must_keep_coverage, covers_errors, may_drop_errors,
    no_error_handling_rule, no_fallback_rule,
};
use crate::corpus::{error_total, Corpus};
use crate::error::{Error, ErrorText};
use crate::policy::{some_fallback, Policy, RATE_ONE};
use crate::replay::{
    default_replay_config, empty_corpus_error, is_replay_of, ReplayConfig, ReplayResult, Replayer,
};
use crate::result::{findings_of, Finding, ProverResult, Severity, Status, Violation};
use crate::simulation::{fallback_rate, is_simulation_of, SimulationResult, Simulator};
use crate::text::{append_decimal, decimal_text};
use crate::trace::Trace;
use crate::traffic::{sum_eps, TrafficPattern};

verus! {

/// Configuration of the prover.
#[derive(Debug, Clone, Copy, PartialEq, Eq, Structural)]
pub struct ProverConfig {
    /// Highest budget per second that a policy may ask for.
    pub max_budget: Option<u64>,
    /// Whether some rule has to handle errors.
    pub require_error_handling: bool,
    /// How policies are analysed.
    pub analysis_mode: AnalysisMode,
}

impl Default for ProverConfig {
    fn default() -> (c: Self)
        ensures
            c == (ProverConfig {
                max_budget: None,
                require_error_handling: false,
                analysis_mode: AnalysisMode::Auto,
            }),
    {
        ProverConfig {
            max_budget: None,
            require_error_handling: false,
            analysis_mode: AnalysisMode::Auto,
        }
    }
}

/// Validates policies before they are compiled.
#[derive(Debug, Clone, Copy)]
pub struct Prover {
    /// The configuration.
    pub config: ProverConfig,
    /// The analyzer of the static pass.
    pub static_analyzer: StaticAnalyzer,
}

/// The number of checks that verification makes.
pub const CHECKS_TOTAL: usize = 4;

/// The violation of a policy whose budget lies above the highest that is
/// allowed.
pub open spec fn budget_exceeded(budget: u64, max: u64) -> Finding {
    Finding {
        check: "budget-compliance"@,
        severity: Severity::Critical,
        message: "Policy budget "@ + decimal_text(budget as nat) + " exceeds maximum "@
            + decimal_text(max as nat),
    }
}

/// The violation of the fallback check, if there is one.
pub open spec fn fallback_findings(policy: Policy) -> Seq<Finding> {
    if some_fallback(policy.rules@) {
        Seq::empty()
    } else {
        seq![no_fallback_rule()]
    }
}

/// The violation of the error-handling check: error handling is required,
/// and no rule handles errors.
pub open spec fn error_handling_findings(config: ProverConfig, policy: Policy) -> Seq<Finding> {
    if config.require_error_handling && !some_error_handling(policy.rules@) {
        seq![no_error_handling_rule()]
    } else {
        Seq::empty()
    }
}

/// The violation of the must-keep check, if there is one.
pub open spec fn must_keep_findings(policy: Policy, traces: Seq<Trace>) -> Seq<Finding> {
    if error_total(traces, traces.len()) > 0 && !covers_errors(policy.rules@) {
        seq![may_drop_errors(error_total(traces, traces.len()))]
    } else {
        Seq::empty()
    }
}

/// The violation of the budget check, if there is one.
pub open spec fn budget_findings(config: ProverConfig, policy: Policy) -> Seq<Finding> {
    match (policy.budget_per_second, config.max_budget) {
        (Some(budget), Some(max)) if budget > max => seq![budget_exceeded(budget, max)],
        _ => Seq::empty(),
    }
}

/// The violations that verification finds, check by check: fallback, error
/// handling, must-keep coverage, budget.
pub open spec fn verification_findings(config: ProverConfig, policy: Policy, traces: Seq<Trace>) -> Seq<
    Finding,
> {
    fallback_findings(policy) + error_handling_findings(config, policy) + must_keep_findings(
        policy,
        traces,
    ) + budget_findings(config, policy)
}

/// Whether `r` is the verdict of the four checks: approved when no check
/// fails, else rejected with the violations.
pub open spec fn is_verdict_of(
    r: ProverResult,
    config: ProverConfig,
    policy: Policy,
    traces: Seq<Trace>,
) -> bool {
    let findings = verification_findings(config, policy, traces);
    &&& findings_of(r.violations@) == findings
    &&& r.checks_total == 4
    &&& r.checks_passed == 4 - findings.len()
    &&& r.status == if findings.len() == 0 {
        Status::Approved
    } else {
        Status::Rejected
    }
    &&& r.warnings@.len() == 0
}

/// Error handling is required where the configuration says so: the
/// verdict holds the violation of the error-handling check exactly if error
/// handling is required and no rule's match text speaks of `error`,
/// `status >= 500`, `status >= 400`, `is_error` or `exception`; the policy
/// is then rejected, and at most three of the four checks have passed.
pub proof fn error_handling_is_required(
    r: ProverResult,
    config: ProverConfig,
    policy: Policy,
    traces: Seq<Trace>,
)
    requires
        is_verdict_of(r, config, policy, traces),
    ensures
        (exists|k: int|
            0 <= k < r.violations@.len() && (#[trigger] r.violations@[k])@
                == no_error_handling_rule()) <==> (config.require_error_handling
            && !some_error_handling(policy.rules@)),
        config.require_error_handling && !some_error_handling(policy.rules@) ==> r.status
            == Status::Rejected && r.checks_passed <= 3,
{
    reveal_strlit("error-handling");
    reveal_strlit("fallback-rule");
    reveal_strlit("must-keep-coverage");
    reveal_strlit("budget-compliance");
    let wanted = no_error_handling_rule();
    let first = fallback_findings(policy);
    let second = error_handling_findings(config, policy);
    let third = must_keep_findings(policy, traces);
    let fourth = budget_findings(config, policy);
    let all = verification_findings(config, policy, traces);
    let found = findings_of(r.violations@);
    assert(found == all);
    assert(found.len() == r.violations@.len());
    assert(wanted.check.len() == 14);
    assert(no_fallback_rule().check.len() == 13);
    assert(forall|k: int| 0 <= k < first.len() ==> first[k].check.len() == 13);
    assert(forall|k: int| 0 <= k < third.len() ==> third[k].check.len() == 18);
    assert(forall|k: int| 0 <= k < fourth.len() ==> fourth[k].check.len() == 17);
    if config.require_error_handling && !some_error_handling(policy.rules@) {
        let k = first.len() as int;
        assert(all[k] == wanted);
        assert(r.violations@[k]@ == found[k]);
    } else {
        assert(second.len() == 0);
        assert forall|k: int| 0 <= k < r.violations@.len() implies (#[trigger] r.violations@[k])@
            != wanted by {
            assert(r.violations@[k]@ == found[k]);
            assert(found[k].check.len() != 14);
        }
    }
}

/// The error for a policy without rules.
pub open spec fn no_rules_error() -> ErrorText {
    ErrorText::InvalidPolicy("policy has no rules"@)
}

/// The error for a traffic pattern without points.
pub open spec fn empty_traffic_error() -> ErrorText {
    ErrorText::InvalidTraffic("traffic pattern is empty"@)
}

/// The budget that traffic is simulated under: the highest that is
/// allowed, or none that could be exceeded.
pub open spec fn simulation_budget(config: ProverConfig) -> u64 {
    match config.max_budget {
        Some(max) => max,
        None => u64::MAX,
    }
}

/// Whether a traffic pattern can be simulated: its error rates and the
/// policy's fallback rate are shares between 0 and 1, and its events
/// together fit the arithmetic.
pub open spec fn can_simulate(policy: Policy, traffic: TrafficPattern) -> bool {
    &&& traffic.well_formed()
    &&& fallback_rate(policy.rules@) <= RATE_ONE
    &&& sum_eps(traffic@, traffic@.len()) * 1_000_000_000_000 <= u128::MAX
}

/// The confidence in a verdict is high if a simulation ran and was
/// compliant, else medium if the static analysis ran and passed, else low.
pub open spec fn confidence_of(
    static_result: Option<StaticAnalysisResult>,
    simulation_result: Option<SimulationResult>,
) -> Confidence {
    if simulation_result is Some && simulation_result->0.budget_compliant {
        Confidence::High
    } else if static_result is Some && static_result->0.passed {
        Confidence::Medium
    } else {
        Confidence::Low
    }
}

/// The combined result of an analysis.
#[derive(Debug, Clone)]
pub struct AnalysisResult {
    /// The mode of the analysis.
    pub mode: AnalysisMode,
    /// The verdict of the four checks.
    pub prover_result: ProverResult,
    /// The static analysis, if it ran.
    pub static_result: Option<StaticAnalysisResult>,
    /// The simulation, if it ran.
    pub simulation_result: Option<SimulationResult>,
    /// The confidence in the verdict.
    pub confidence: Confidence,
}

impl AnalysisResult {
    /// Whether the policy is approved.
    pub fn is_approved(&self) -> (r: bool)
        ensures
            r == (self.prover_result.status != Status::Rejected),
    {
        self.prover_result.is_approved()
    }

    /// Whether the static analysis passed or did not run.
    pub fn static_passed(&self) -> (r: bool)
        ensures
            r == (self.static_result is None || self.static_result->0.passed),
    {
        match &self.static_result {
            Some(result) => result.passed,
            None => true,
        }
    }

    /// Whether the simulation was compliant or did not run.
    pub fn simulation_compliant(&self) -> (r: bool)
        ensures
            r == (self.simulation_result is None || self.simulation_result->0.budget_compliant),
    {
        match &self.simulation_result {
            Some(result) => result.is_compliant(),
            None => true,
        }
    }

    /// Whether the verdict, the static analysis and the simulation all
    /// passed.
    pub fn all_passed(&self) -> (r: bool)
        ensures
            r == (self.prover_result.status != Status::Rejected && (self.static_result is None
                || self.static_result->0.passed) && (self.simulation_result is None
                || self.simulation_result->0.budget_compliant)),
    {
        self.is_approved() && self.static_passed() && self.simulation_compliant()
    }
}

/// The confidence in a verdict.
pub fn determine_confidence(
    static_result: Option<&StaticAnalysisResult>,
    simulation_result: Option<&SimulationResult>,
) -> (c: Confidence)
    ensures
        c == if simulation_result is Some && simulation_result->0.budget_compliant {
            Confidence::High
        } else if static_result is Some && static_result->0.passed {
            Confidence::Medium
        } else {
            Confidence::Low
        },
{
    if let Some(sim) = simulation_result {
        if sim.is_compliant() {
            return Confidence::High;
        }
    }
    if let Some(static_res) = static_result {
        if static_res.passed {
            return Confidence::Medium;
        }
    }
    Confidence::Low
}

/// Whether `r` is the analysis of the policy in the configured mode: the
/// verdict of the checks; the static analysis if the mode includes it; the
/// simulation if the mode includes it and traffic is given; and the
/// confidence that follows.
pub open spec fn is_analysis_result_of(
    r: AnalysisResult,
    prover: Prover,
    policy: Policy,
    traces: Seq<Trace>,
    traffic: Option<TrafficPattern>,
) -> bool {
    let mode = prover.config.analysis_mode;
    let with_static = mode == AnalysisMode::Static || mode == AnalysisMode::Auto;
    let with_dynamic = mode == AnalysisMode::Dynamic || mode == AnalysisMode::Auto;
    &&& r.mode == mode
    &&& is_verdict_of(r.prover_result, prover.config, policy, traces)
    &&& if with_static {
        r.static_result is Some && is_analysis_of(
            r.static_result->0,
            prover.static_analyzer,
            policy.rules@,
        )
    } else {
        r.static_result is None
    }
    &&& if with_dynamic && traffic is Some {
        r.simulation_result is Some && is_simulation_of(
            r.simulation_result->0,
            simulation_budget(prover.config),
            fallback_rate(policy.rules@),
            traffic->0@,
        )
    } else {
        r.simulation_result is None
    }
    &&& r.confidence == confidence_of(r.static_result, r.simulation_result)
}

impl Prover {
    /// Creates a prover with the given configuration; its static analyzer
    /// makes all checks.
    pub fn new(config: ProverConfig) -> (p: Self)
        ensures
            p.config == config,
            p.static_analyzer.check_shadowing,
            p.static_analyzer.check_overlaps,
    {
        Prover { config, static_analyzer: StaticAnalyzer::new() }
    }

    /// The analysis mode.
    pub fn analysis_mode(&self) -> (m: AnalysisMode)
        ensures
            m == self.config.analysis_mode,
    {
        self.config.analysis_mode
    }

    /// The static analysis alone.
    pub fn analyze_static(&self, policy: &Policy) -> (r: StaticAnalysisResult)
        ensures
            is_analysis_of(r, self.static_analyzer, policy.rules@),
            r.passed == some_fallback(policy.rules@),
    {
        self.static_analyzer.analyze(policy)
    }

    /// Verifies a policy against a corpus by four checks: a fallback rule
    /// is present; some rule handles errors, if that is required; some
    /// rule keeps errors, if the corpus has any; the policy's budget is
    /// within the highest allowed. A policy without rules is an error.
    pub fn verify(&self, policy: &Policy, corpus: &Corpus) -> (r: Result<ProverResult, Error>)
        ensures
            match r {
                Ok(result) => policy.rules@.len() > 0 && is_verdict_of(
                    result,
                    self.config,
                    *policy,
                    corpus@,
                ),
                Err(e) => policy.rules@.len() == 0 && e@ == no_rules_error(),
            },
    {
        if policy.rules.len() == 0 {
            return Err(Error::InvalidPolicy("policy has no rules".to_owned()));
        }
        let mut violations: Vec<Violation> = Vec::new();
        let mut checks_passed: usize = 0;
        assert(findings_of(violations@) == Seq::<Finding>::empty());
        if let Some(v) = check_fallback(policy) {
            violations.push(v);
        } else {
            checks_passed += 1;
        }
        let ghost first = findings_of(violations@);
        assert(first == fallback_findings(*policy));
        if self.config.require_error_handling {
            if let Some(v) = check_error_handling(policy) {
                let ghost f = v@;
                violations.push(v);
                assert(findings_of(violations@) == first + seq![f]);
            } else {
                checks_passed += 1;
                assert(findings_of(violations@) == first + Seq::<Finding>::empty());
            }
        } else {
            checks_passed += 1;
            assert(findings_of(violations@) == first + Seq::<Finding>::empty());
        }
        let ghost second = findings_of(violations@);
        assert(second == first + error_handling_findings(self.config, *policy));
        match check_must_keep_coverage(policy, corpus) {
            Err(v) => {
                let ghost f = v@;
                violations.push(v);
                assert(findings_of(violations@) == second + seq![f]);
            },
            Ok(_) => {
                checks_passed += 1;
                assert(findings_of(violations@) == second + Seq::<Finding>::empty());
            },
        }
        let ghost third = findings_of(violations@);
        assert(third == second + must_keep_findings(*policy, corpus@));
        let mut over_budget = false;
        if let Some(budget) = policy.budget_per_second {
            if let Some(max) = self.config.max_budget {
                if budget > max {
                    let mut message = String::new();
                    message.append("Policy budget ");
                    append_decimal(&mut message, budget as u128);
                    message.append(" exceeds maximum ");
                    append_decimal(&mut message, max as u128);
                    assert(message@ == budget_exceeded(budget, max).message);
                    violations.push(Violation::critical("budget-compliance", message.as_str()));
                    assert(findings_of(violations@) == third + seq![budget_exceeded(budget, max)]);
                    over_budget = true;
                }
            }
        }
        if !over_budget {
            checks_passed += 1;
            assert(findings_of(violations@) == third + Seq::<Finding>::empty());
        }
        assert(findings_of(violations@) == third + budget_findings(self.config, *policy));
        let ghost found = findings_of(violations@);
        assert(found == verification_findings(self.config, *policy, corpus@));
        assert(found.len() == violations@.len());
        assert(checks_passed + found.len() == 4);
        let result = if violations.len() == 0 {
            ProverResult::approved(checks_passed)
        } else {
            ProverResult::rejected(violations, checks_passed, CHECKS_TOTAL)
        };
        assert(findings_of(result.violations@) =~= found);
        Ok(result)
    }

    /// Simulates a policy against a traffic pattern under the highest
    /// budget that is allowed. An empty pattern is an error.
    pub fn simulate_traffic(&self, policy: &Policy, traffic: &TrafficPattern) -> (r: Result<
        SimulationResult,
        Error,
    >)
        requires
            can_simulate(*policy, *traffic),
        ensures
            match r {
                Ok(result) => traffic@.len() > 0 && is_simulation_of(
                    result,
                    simulation_budget(self.config),
                    fallback_rate(policy.rules@),
                    traffic@,
                ),
                Err(e) => traffic@.len() == 0 && e@ == empty_traffic_error(),
            },
    {
        if traffic.is_empty() {
            return Err(Error::InvalidTraffic("traffic pattern is empty".to_owned()));
        }
        let budget: u64 = match self.config.max_budget {
            Some(max) => max,
            None => u64::MAX,
        };
        let simulator = Simulator::new(budget);
        Ok(simulator.simulate(policy, traffic))
    }

    /// Verifies a policy and simulates it against a traffic pattern.
    pub fn verify_with_traffic(
        &self,
        policy: &Policy,
        corpus: &Corpus,
        traffic: &TrafficPattern,
    ) -> (r: Result<(ProverResult, SimulationResult), Error>)
        requires
            can_simulate(*policy, *traffic),
        ensures
            match r {
                Ok(pair) => policy.rules@.len() > 0 && traffic@.len() > 0 && is_verdict_of(
                    pair.0,
                    self.config,
                    *policy,
                    corpus@,
                ) && is_simulation_of(
                    pair.1,
                    simulation_budget(self.config),
                    fallback_rate(policy.rules@),
                    traffic@,
                ),
                Err(e) => if policy.rules@.len() == 0 {
                    e@ == no_rules_error()
                } else {
                    traffic@.len() == 0 && e@ == empty_traffic_error()
                },
            },
    {
        let prover_result = match self.verify(policy, corpus) {
            Ok(result) => result,
            Err(e) => {
                return Err(e);
            },
        };
        let sim_result = match self.simulate_traffic(policy, traffic) {
            Ok(result) => result,
            Err(e) => {
                return Err(e);
            },
        };
        Ok((prover_result, sim_result))
    }

    /// Analyses a policy in the configured mode: the static analysis if
    /// the mode includes it, the verdict of the four checks, and the
    /// simulation if the mode includes it and traffic is given. A policy
    /// without rules is an error, and so is an empty traffic pattern that
    /// would be simulated.
    pub fn analyze(&self, policy: &Policy, corpus: &Corpus, traffic: Option<&TrafficPattern>) -> (r:
        Result<AnalysisResult, Error>)
        requires
            traffic is Some ==> can_simulate(*policy, *traffic->0),
        ensures
            match r {
                Ok(result) => policy.rules@.len() > 0 && is_analysis_result_of(
                    result,
                    *self,
                    *policy,
                    corpus@,
                    match traffic {
                        Some(t) => Some(*t),
                        None => None,
                    },
                ),
                Err(e) => if policy.rules@.len() == 0 {
                    e@ == no_rules_error()
                } else {
                    e@ == empty_traffic_error() && traffic is Some && traffic->0@.len() == 0 && (
                    self.config.analysis_mode == AnalysisMode::Dynamic || self.config.analysis_mode
                        == AnalysisMode::Auto)
                },
            },
            policy.rules@.len() > 0 && (traffic is None || traffic->0@.len() > 0
                || self.config.analysis_mode == AnalysisMode::Static) ==> r is Ok,
    {
        let mode = self.config.analysis_mode;
        let static_result = if mode.includes_static() {
            Some(self.analyze_static(policy))
        } else {
            None
        };
        let prover_result = match self.verify(policy, corpus) {
            Ok(result) => result,
            Err(e) => {
                return Err(e);
            },
        };
        let simulation_result = if mode.includes_dynamic() {
            match traffic {
                Some(t) => match self.simulate_traffic(policy, t) {
                    Ok(result) => Some(result),
                    Err(e) => {
                        return Err(e);
                    },
                },
                None => None,
            }
        } else {
            None
        };
        let confidence = determine_confidence(static_result.as_ref(), simulation_result.as_ref());
        Ok(AnalysisResult { mode, prover_result, static_result, simulation_result, confidence })
    }

    /// Replays the traces of a corpus in the order of their start.
    pub fn replay_corpus(&self, policy: &Policy, corpus: &Corpus, config: ReplayConfig) -> (r: Result<
        ReplayResult,
        Error,
    >)
        requires
            config.window.duration_ns > 0,
        ensures
            match r {
                Ok(result) => corpus@.len() > 0 && is_replay_of(
                    result,
                    config,
                    policy.rules@,
                    corpus@,
                ),
                Err(e) => corpus@.len() == 0 && e@ == empty_corpus_error(),
            },
    {
        let replayer = Replayer::new(config);
        replayer.replay(policy, corpus)
    }

    /// Replays a corpus at full speed in windows of one second, without a
    /// budget.
    pub fn replay_corpus_default(&self, policy: &Policy, corpus: &Corpus) -> (r: Result<
        ReplayResult,
        Error,
    >)
        ensures
            match r {
                Ok(result) => corpus@.len() > 0 && is_replay_of(
                    result,
                    default_replay_config(),
                    policy.rules@,
                    corpus@,
                ),
                Err(e) => corpus@.len() == 0 && e@ == empty_corpus_error(),
            },
    {
        let config = ReplayConfig::new();
        self.replay_corpus(policy, corpus, config)
    }

    /// Replays a corpus in windows of one second under a budget in traces
    /// per second.
    pub fn replay_corpus_with_budget(
        &self,
        policy: &Policy,
        corpus: &Corpus,
        budget_per_second: u64,
    ) -> (r: Result<ReplayResult, Error>)
        ensures
            match r {
                Ok(result) => corpus@.len() > 0 && is_replay_of(
                    result,
                    ReplayConfig {
                        budget_per_second: Some(budget_per_second),
                        ..default_replay_config()
                    },
                    policy.rules@,
                    corpus@,
                ),
                Err(e) => corpus@.len() == 0 && e@ == empty_corpus_error(),
            },
    {
        let config = ReplayConfig::new().with_budget(budget_per_second);
        self.replay_corpus(policy, corpus, config)
    }
}

impl Default for Prover {
    fn default() -> (p: Self)
        ensures
            p.config == (ProverConfig {
                max_budget: None,
                require_error_handling: false,
                analysis_mode: AnalysisMode::Auto,
            }),
            p.static_analyzer.check_shadowing,
            p.static_analyzer.check_overlaps,
    {
        Prover::new(ProverConfig::default())
    }
}

} // verus!
