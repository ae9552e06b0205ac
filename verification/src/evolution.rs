//! A policy that changes over compressed time, step by step, with a log
//! of what was done to it.

use vstd::prelude::*;
use crate::compiler::{compiled_rules, is_rendering, Compiler, OutputFormat};
use crate::corpus::Corpus;
use crate::harness::{
    corpus_hash_of, is_compiled_hash, policy_hash_of, ReplayEvent, ReplayLog, StepResult,
    TimeCompressor,
};
use crate::policy::{Action, Policy, Rule};
use crate::prover::{no_rules_error, verification_findings, Prover};
use crate::refinery::RefineryConfig;
use crate::text::str_eq;
use crate::toon::{lemma_sort_commutes, rule_text, rule_texts, sort_texts, RuleText};

verus! {

/// What a step does to the policy under simulation.
#[derive(Debug, Clone)]
pub enum SimAction {
    /// Adds a rule.
    AddRule {
        /// Name of the rule.
        name: String,
        /// Match expression.
        match_expr: String,
        /// Action of the rule.
        action: Action,
        /// Priority of the rule.
        priority: u8,
    },
    /// Removes the rules of a name.
    RemoveRule {
        /// Name of the rules to remove.
        name: String,
    },
    /// Verifies the policy.
    Verify,
    /// Compiles the policy.
    Compile,
    /// Makes a checkpoint.
    Checkpoint,
}

/// The first `n` rules without those of the given name.
pub open spec fn without_name(rules: Seq<Rule>, name: Seq<char>, n: nat) -> Seq<Rule>
    decreases n,
{
    if n == 0 || n > rules.len() {
        Seq::empty()
    } else if rules[n - 1].name@ == name {
        without_name(rules, name, (n - 1) as nat)
    } else {
        without_name(rules, name, (n - 1) as nat).push(rules[n - 1])
    }
}

/// The message of a verification that came to a verdict.
pub open spec fn verified_message() -> Seq<char> {
    "Verification passed"@
}

/// A policy and a corpus under simulation.
#[derive(Debug)]
pub struct PolicyEvolutionSim {
    /// The policy as it stands.
    pub policy: Policy,
    /// The corpus.
    pub corpus: Corpus,
    /// The clock.
    pub time: TimeCompressor,
    /// The log of what was done.
    pub log: ReplayLog,
    /// The prover that verifies the policy.
    pub prover: Prover,
    /// The compiler that compiles it.
    pub compiler: Compiler,
}

impl PolicyEvolutionSim {
    /// Whether the clock can take another step.
    pub open spec fn can_step(&self) -> bool {
        &&& self.time.real_time_ms < u64::MAX
        &&& self.time.simulated_time_ms + self.time.ratio <= u64::MAX
    }

    /// Whether `self` is what a step leaves of `before` apart from the
    /// policy and the log: the corpus, the prover and the compiler are
    /// untouched, and a millisecond of real time has passed.
    pub open spec fn follows(&self, before: &Self) -> bool {
        &&& self.corpus == before.corpus
        &&& self.prover == before.prover
        &&& self.compiler == before.compiler
        &&& self.time.ratio == before.time.ratio
        &&& self.time.real_time_ms == before.time.real_time_ms + 1
        &&& self.time.simulated_time_ms == before.time.simulated_time_ms + before.time.ratio
    }

    /// Whether the policy of `self` is that of `before` but for its rules.
    pub open spec fn keeps_policy_head(&self, before: &Self) -> bool {
        &&& self.policy.version == before.policy.version
        &&& self.policy.name == before.policy.name
        &&& self.policy.budget_per_second == before.policy.budget_per_second
    }

    /// Whether the log of `self` is that of `before` with the change of
    /// the policy recorded at the time of `self`.
    pub open spec fn logged_change(&self, before: &Self) -> bool {
        &&& self.log.checkpoints == before.log.checkpoints
        &&& self.log.events@ == before.log.events@.push(
            ReplayEvent::PolicyChange {
                timestamp_ms: self.time.simulated_time_ms,
                policy_hash: policy_hash_of(self.policy),
                rule_count: self.policy.rules@.len() as usize,
            },
        )
    }

    /// Whether the log of `self` is that of `before` with a verification
    /// recorded at the time of `self`.
    pub open spec fn logged_verification(&self, before: &Self, passed: bool, message: Seq<char>) -> bool {
        &&& self.log.checkpoints == before.log.checkpoints
        &&& self.log.events@.len() == before.log.events@.len() + 1
        &&& self.log.events@.drop_last() == before.log.events@
        &&& match self.log.events@.last() {
            ReplayEvent::Verification { timestamp_ms: t, passed: p, message: m } => t
                == self.time.simulated_time_ms && p == passed && m@ == message,
            _ => false,
        }
    }

    /// Whether the log of `self` is that of `before` with a checkpoint
    /// made at the time of `self`.
    pub open spec fn logged_checkpoint<F: Fn(&RefineryConfig, OutputFormat) -> String>(
        &self,
        before: &Self,
        render: &F,
    ) -> bool {
        &&& self.log.events == before.log.events
        &&& self.log.checkpoints@.len() == before.log.checkpoints@.len() + 1
        &&& self.log.checkpoints@.drop_last() == before.log.checkpoints@
        &&& self.log.checkpoints@.last().timestamp_ms == self.time.simulated_time_ms
        &&& self.log.checkpoints@.last().policy_hash == policy_hash_of(self.policy)
        &&& self.log.checkpoints@.last().corpus_hash == corpus_hash_of(self.corpus@)
        &&& is_compiled_hash(render, self.policy.rules@, self.log.checkpoints@.last().compiled_hash)
    }

    /// Whether `r` and `self` are what a step of the given action makes of
    /// `before`:
    /// - a rule is added in its place by priority, and the change logged;
    /// - the rules of a name are removed, and the change logged;
    /// - the policy is verified, and the verdict returned and logged: a
    ///   policy without rules fails with the error for its message, any
    ///   other passes if no check finds a violation;
    /// - the policy is compiled, and the text that `render` wrote or the
    ///   error returned;
    /// - a checkpoint is made.
    pub open spec fn is_step<F: Fn(&RefineryConfig, OutputFormat) -> String>(
        &self,
        before: &Self,
        action: SimAction,
        render: &F,
        r: StepResult,
    ) -> bool {
        &&& self.follows(before)
        &&& match action {
            SimAction::AddRule { name, match_expr, action: a, priority } => {
                &&& r is PolicyChanged
                &&& self.keeps_policy_head(before)
                &&& rule_texts(self.policy.rules@) == sort_texts(
                    rule_texts(before.policy.rules@).push(
                        RuleText {
                            name: name@,
                            description: None,
                            match_expr: match_expr@,
                            action: a,
                            priority,
                        },
                    ),
                )
                &&& self.logged_change(before)
            },
            SimAction::RemoveRule { name } => {
                &&& r is PolicyChanged
                &&& self.keeps_policy_head(before)
                &&& self.policy.rules@ == without_name(
                    before.policy.rules@,
                    name@,
                    before.policy.rules@.len(),
                )
                &&& self.logged_change(before)
            },
            SimAction::Verify => {
                &&& self.policy == before.policy
                &&& match r {
                    StepResult::Verified { passed, message } => {
                        &&& if self.policy.rules@.len() == 0 {
                            !passed && message@ == no_rules_error().message()
                        } else {
                            passed == (verification_findings(
                                self.prover.config,
                                self.policy,
                                self.corpus@,
                            ).len() == 0) && message@ == verified_message()
                        }
                        &&& self.logged_verification(before, passed, message@)
                    },
                    _ => false,
                }
            },
            SimAction::Compile => {
                &&& self.policy == before.policy
                &&& self.log == before.log
                &&& match r {
                    StepResult::Compiled { output } => is_rendering(
                        render,
                        self.policy.rules@,
                        self.compiler.options.format,
                        output,
                    ),
                    StepResult::CompileFailed { error } => match compiled_rules(
                        self.policy.rules@,
                        self.policy.rules@.len(),
                    ) {
                        Err(e) => error@ == e.message(),
                        Ok(_) => false,
                    },
                    _ => false,
                }
            },
            SimAction::Checkpoint => {
                &&& r is Checkpointed
                &&& self.policy == before.policy
                &&& self.logged_checkpoint(before, render)
            },
        }
    }

    /// Creates a simulation at time 0, with an empty log.
    pub fn new(initial_policy: Policy, initial_corpus: Corpus) -> (s: Self)
        ensures
            s.policy == initial_policy,
            s.corpus == initial_corpus,
            s.time == (TimeCompressor { ratio: 1000, simulated_time_ms: 0, real_time_ms: 0 }),
            s.log.events@.len() == 0,
            s.log.checkpoints@.len() == 0,
            s.can_step(),
    {
        PolicyEvolutionSim {
            policy: initial_policy,
            corpus: initial_corpus,
            time: TimeCompressor::default(),
            log: ReplayLog::new(),
            prover: Prover::default(),
            compiler: Compiler::new(),
        }
    }

    /// Removes the rules of a name from the policy.
    fn remove_rules(&mut self, name: &str)
        ensures
            final(self).policy.rules@ == without_name(
                old(self).policy.rules@,
                name@,
                old(self).policy.rules@.len(),
            ),
            final(self).keeps_policy_head(old(self)),
            final(self).corpus == old(self).corpus,
            final(self).prover == old(self).prover,
            final(self).compiler == old(self).compiler,
            final(self).time == old(self).time,
            final(self).log == old(self).log,
    {
        let mut kept: Vec<Rule> = Vec::new();
        let n = self.policy.rules.len();
        let mut i: usize = 0;
        while i < n
            invariant
                n == self.policy.rules@.len(),
                i <= n,
                *self == *old(self),
                kept@ == without_name(self.policy.rules@, name@, i as nat),
            decreases n - i,
        {
            if !str_eq(self.policy.rules[i].name.as_str(), name) {
                kept.push(self.policy.rules[i].copy());
            }
            i += 1;
        }
        self.policy.rules = kept;
    }

    /// Makes one step: a millisecond of real time passes, and the action
    /// is done.
    pub fn step<F: Fn(&RefineryConfig, OutputFormat) -> String>(
        &mut self,
        action: SimAction,
        render: &F,
    ) -> (r: StepResult)
        requires
            old(self).can_step(),
            forall|c: &RefineryConfig, f: OutputFormat| #[trigger] render.requires((c, f)),
        ensures
            final(self).is_step(old(self), action, render, r),
    {
        let ghost ratio = self.time.ratio as int;
        assert(1 * ratio == ratio) by (nonlinear_arith);
        self.time.advance(1);
        match action {
            SimAction::AddRule { name, match_expr, action, priority } => {
                let rule = Rule::new(name.as_str(), match_expr.as_str(), action, priority);
                let ghost before = self.policy.rules@;
                self.policy.add_rule(rule);
                proof {
                    lemma_sort_commutes(before.push(rule));
                    assert(rule_texts(before.push(rule)) =~= rule_texts(before).push(rule_text(rule)));
                }
                self.log.record_policy_change(self.time.simulated_time_ms, &self.policy);
                StepResult::PolicyChanged
            },
            SimAction::RemoveRule { name } => {
                self.remove_rules(name.as_str());
                self.log.record_policy_change(self.time.simulated_time_ms, &self.policy);
                StepResult::PolicyChanged
            },
            SimAction::Verify => {
                let passed: bool;
                let message: String;
                match self.prover.verify(&self.policy, &self.corpus) {
                    Ok(result) => {
                        passed = result.is_approved();
                        message = "Verification passed".to_owned();
                    },
                    Err(e) => {
                        passed = false;
                        message = e.message();
                    },
                }
                self.log.record_verification(self.time.simulated_time_ms, passed, message.as_str());
                StepResult::Verified { passed, message }
            },
            SimAction::Compile => {
                match self.compiler.compile(&self.policy, render) {
                    Ok(output) => StepResult::Compiled { output },
                    Err(e) => StepResult::CompileFailed { error: e.message() },
                }
            },
            SimAction::Checkpoint => {
                self.log.checkpoint(self.time.simulated_time_ms, &self.policy, &self.corpus, render);
                StepResult::Checkpointed
            },
        }
    }

    /// Whether the clock can take `n` more steps.
    pub open spec fn can_run(&self, n: nat) -> bool {
        &&& self.time.real_time_ms + n <= u64::MAX
        &&& self.time.simulated_time_ms + n * self.time.ratio <= u64::MAX
    }

    /// Whether the states are those that the actions lead through, from
    /// `first` to `last`, each step with its result.
    pub open spec fn is_run<F: Fn(&RefineryConfig, OutputFormat) -> String>(
        states: Seq<Self>,
        first: Self,
        last: Self,
        actions: Seq<SimAction>,
        render: &F,
        results: Seq<StepResult>,
    ) -> bool {
        &&& states.len() == actions.len() + 1
        &&& results.len() == actions.len()
        &&& states[0] == first
        &&& states.last() == last
        &&& forall|i: int|
            0 <= i < actions.len() ==> (#[trigger] states[i + 1]).is_step(
                &states[i],
                actions[i],
                render,
                results[i],
            )
    }

    /// Makes the steps of a sequence of actions, one after the other, and
    /// returns what each did.
    pub fn run_sequence<F: Fn(&RefineryConfig, OutputFormat) -> String>(
        &mut self,
        actions: &[SimAction],
        render: &F,
    ) -> (results: Vec<StepResult>)
        requires
            old(self).can_run(actions@.len()),
            forall|c: &RefineryConfig, f: OutputFormat| #[trigger] render.requires((c, f)),
        ensures
            results@.len() == actions@.len(),
            exists|states: Seq<Self>| #[trigger]
                Self::is_run(states, *old(self), *final(self), actions@, render, results@),
    {
        let n = actions.len();
        let mut results: Vec<StepResult> = Vec::new();
        let mut done: usize = 0;
        let ghost ratio = self.time.ratio as nat;
        let ghost mut states: Seq<Self> = seq![*self];
        assert(0 * ratio == 0) by (nonlinear_arith);
        while done < n
            invariant
                done <= n,
                n == actions@.len(),
                ratio == old(self).time.ratio,
                old(self).can_run(n as nat),
                forall|c: &RefineryConfig, f: OutputFormat| #[trigger] render.requires((c, f)),
                results@.len() == done,
                self.time.ratio == ratio,
                self.time.real_time_ms == old(self).time.real_time_ms + done,
                self.time.simulated_time_ms == old(self).time.simulated_time_ms + done * ratio,
                states.len() == done + 1,
                states[0] == *old(self),
                states.last() == *self,
                forall|i: int|
                    0 <= i < done ==> (#[trigger] states[i + 1]).is_step(
                        &states[i],
                        actions@[i],
                        render,
                        results@[i],
                    ),
            decreases n - done,
        {
            proof {
                assert((done + 1) * ratio == done * ratio + ratio) by (nonlinear_arith);
                assert((done + 1) * ratio <= n * ratio) by (nonlinear_arith)
                    requires
                        done + 1 <= n,
                ;
            }
            let ghost before = *self;
            let action = actions[done].copy();
            let r = self.step(action, render);
            results.push(r);
            proof {
                states = states.push(*self);
                assert(states[done + 1] == *self);
                assert(states[done as int] == before);
            }
            done += 1;
        }
        proof {
            assert(Self::is_run(states, *old(self), *self, actions@, render, results@));
        }
        results
    }
}

impl SimAction {
    /// A copy of the action.
    pub fn copy(&self) -> (r: Self)
        ensures
            r == *self,
    {
        match self {
            SimAction::AddRule { name, match_expr, action, priority } => SimAction::AddRule {
                name: name.clone(),
                match_expr: match_expr.clone(),
                action: *action,
                priority: *priority,
            },
            SimAction::RemoveRule { name } => SimAction::RemoveRule { name: name.clone() },
            SimAction::Verify => SimAction::Verify,
            SimAction::Compile => SimAction::Compile,
            SimAction::Checkpoint => SimAction::Checkpoint,
        }
    }
}

} // verus!
