//! Seeded corruption of corpora and policies, for trying out how the
//! prover and the compiler stand up to bad input.

use core::time::Duration;
use vstd::prelude::*;
use crate::compiler::Compiler;
use crate::copies::same_trace;
use crate::corpus::Corpus;
use crate::policy::{Action, Policy, Rule, RATE_ONE};
use crate::prover::Prover;
use crate::rng::{after_choice, choice_index, pick, toss, toss_of};
use crate::text::str_eq;
use crate::time::nanos_of;
use crate::toon::{
    insert_text, lemma_sort_commutes, rule_text, rule_texts, sort_texts, RuleText,
};
use crate::trace::{bare_trace_lasting, is_bare_trace, Trace};

verus! {

/// Ways in which a trace or a rule is corrupted.
#[derive(Debug, Clone, Copy, PartialEq, Eq, Structural)]
pub enum CorruptionType {
    /// A status that no server sends: 999.
    InvalidStatus,
    /// A duration of zero.
    ZeroDuration,
    /// An empty service name.
    EmptyServiceName,
    /// The highest status and a very long duration.
    ExtremeValues,
    /// A match expression that cannot be read.
    MalformedMatchExpr,
    /// The fallback rule is removed.
    RemoveFallback,
    /// The rule gets a name that other rules get too.
    DuplicateRuleNames,
}

/// What an injector of corruption is made with.
#[derive(Debug, Clone)]
pub struct ChaosConfig {
    /// Seed of the random stream.
    pub seed: u64,
    /// Share of the traces that are corrupted, in millionths.
    pub trace_corruption_rate: u32,
    /// Share of the rules that are corrupted, in millionths.
    pub rule_corruption_rate: u32,
    /// The corruptions to choose from.
    pub corruption_types: Vec<CorruptionType>,
}

/// The corruptions of the default configuration.
pub open spec fn default_corruptions() -> Seq<CorruptionType> {
    seq![
        CorruptionType::InvalidStatus,
        CorruptionType::ZeroDuration,
        CorruptionType::EmptyServiceName,
        CorruptionType::MalformedMatchExpr,
    ]
}

/// The corruptions of the configuration of high chaos.
pub open spec fn high_corruptions() -> Seq<CorruptionType> {
    seq![
        CorruptionType::InvalidStatus,
        CorruptionType::ZeroDuration,
        CorruptionType::EmptyServiceName,
        CorruptionType::ExtremeValues,
        CorruptionType::MalformedMatchExpr,
    ]
}

impl Default for ChaosConfig {
    /// One trace and one rule in ten are corrupted, under seed 42.
    fn default() -> (c: Self)
        ensures
            c.seed == 42,
            c.trace_corruption_rate == 100_000,
            c.rule_corruption_rate == 100_000,
            c.corruption_types@ == default_corruptions(),
    {
        let mut corruption_types: Vec<CorruptionType> = Vec::new();
        corruption_types.push(CorruptionType::InvalidStatus);
        corruption_types.push(CorruptionType::ZeroDuration);
        corruption_types.push(CorruptionType::EmptyServiceName);
        corruption_types.push(CorruptionType::MalformedMatchExpr);
        assert(corruption_types@ =~= default_corruptions());
        ChaosConfig {
            seed: 42,
            trace_corruption_rate: 100_000,
            rule_corruption_rate: 100_000,
            corruption_types,
        }
    }
}

impl ChaosConfig {
    /// Sets the seed.
    pub fn with_seed(self, seed: u64) -> (c: Self)
        ensures
            c == (ChaosConfig { seed, ..self }),
    {
        let mut config = self;
        config.seed = seed;
        config
    }

    /// Sets the share of corrupted traces, in millionths.
    pub fn with_trace_corruption_rate(self, rate: u32) -> (c: Self)
        ensures
            c == (ChaosConfig { trace_corruption_rate: rate, ..self }),
    {
        let mut config = self;
        config.trace_corruption_rate = rate;
        config
    }

    /// Sets the share of corrupted rules, in millionths.
    pub fn with_rule_corruption_rate(self, rate: u32) -> (c: Self)
        ensures
            c == (ChaosConfig { rule_corruption_rate: rate, ..self }),
    {
        let mut config = self;
        config.rule_corruption_rate = rate;
        config
    }

    /// Half of the traces and three rules in ten are corrupted, extreme
    /// values among the corruptions.
    pub fn high_chaos() -> (c: Self)
        ensures
            c.seed == 42,
            c.trace_corruption_rate == 500_000,
            c.rule_corruption_rate == 300_000,
            c.corruption_types@ == high_corruptions(),
    {
        let mut corruption_types: Vec<CorruptionType> = Vec::new();
        corruption_types.push(CorruptionType::InvalidStatus);
        corruption_types.push(CorruptionType::ZeroDuration);
        corruption_types.push(CorruptionType::EmptyServiceName);
        corruption_types.push(CorruptionType::ExtremeValues);
        corruption_types.push(CorruptionType::MalformedMatchExpr);
        assert(corruption_types@ =~= high_corruptions());
        ChaosConfig {
            seed: 42,
            trace_corruption_rate: 500_000,
            rule_corruption_rate: 300_000,
            corruption_types,
        }
    }

    /// A copy of the configuration.
    pub fn copy(&self) -> (c: Self)
        ensures
            c.seed == self.seed,
            c.trace_corruption_rate == self.trace_corruption_rate,
            c.rule_corruption_rate == self.rule_corruption_rate,
            c.corruption_types@ == self.corruption_types@,
    {
        let mut corruption_types: Vec<CorruptionType> = Vec::new();
        let mut i: usize = 0;
        while i < self.corruption_types.len()
            invariant
                i <= self.corruption_types@.len(),
                corruption_types@ =~= self.corruption_types@.subrange(0, i as int),
            decreases self.corruption_types.len() - i,
        {
            corruption_types.push(self.corruption_types[i]);
            i += 1;
        }
        assert(self.corruption_types@.subrange(0, self.corruption_types@.len() as int)
            =~= self.corruption_types@);
        ChaosConfig {
            seed: self.seed,
            trace_corruption_rate: self.trace_corruption_rate,
            rule_corruption_rate: self.rule_corruption_rate,
            corruption_types,
        }
    }
}

/// A corruption chosen, if there is one to choose, and the position of the
/// stream behind the choice.
pub struct ChosenCorruption {
    pub kind: Option<CorruptionType>,
    pub position: u128,
}

/// The corruption chosen with the stream at a position: none, and nothing
/// drawn, where there is none to choose from.
pub open spec fn chosen_corruption(seed: u64, position: u128, types: Seq<CorruptionType>) -> ChosenCorruption {
    if types.len() == 0 {
        ChosenCorruption { kind: None, position }
    } else {
        ChosenCorruption {
            kind: Some(types[choice_index(seed, position, types.len()) as int]),
            position: after_choice(seed, position, types.len()),
        }
    }
}

/// What befalls a trace or a rule with the stream at a position: a toss at
/// the rate decides whether it is touched, and a touched one gets the
/// corruption chosen behind the toss.
pub open spec fn fate(seed: u64, position: u128, rate: u32, types: Seq<CorruptionType>) -> Fate {
    let t = toss_of(seed, position, rate);
    if t.hit {
        let c = chosen_corruption(seed, t.position, types);
        Fate { touched: true, kind: c.kind, position: c.position }
    } else {
        Fate { touched: false, kind: None, position: t.position }
    }
}

/// Whether a trace or a rule is touched, by which corruption, and the
/// position of the stream afterwards.
pub struct Fate {
    pub touched: bool,
    pub kind: Option<CorruptionType>,
    pub position: u128,
}

/// The service of a trace, or `unknown`.
pub open spec fn service_or_unknown(t: Trace) -> Seq<char> {
    match t.service {
        Some(s) => s@,
        None => "unknown"@,
    }
}

/// The status of a trace, or 200.
pub open spec fn status_or_200(t: Trace) -> u16 {
    match t.status {
        Some(s) => s,
        None => 200,
    }
}

/// Whether `out` is the trace that a corruption makes of `original`. The
/// four corruptions of traces give a bare trace of the same identifier:
/// with status 999; with no duration; with an empty service name; or with
/// the highest status and the longest duration. Any other leaves a copy.
pub open spec fn is_corrupted(out: Trace, original: Trace, kind: Option<CorruptionType>) -> bool {
    match kind {
        Some(CorruptionType::InvalidStatus) => is_bare_trace(
            out,
            original.trace_id@,
            nanos_of(original.duration),
            999,
            service_or_unknown(original),
            None,
        ),
        Some(CorruptionType::ZeroDuration) => is_bare_trace(
            out,
            original.trace_id@,
            0,
            status_or_200(original),
            service_or_unknown(original),
            None,
        ),
        Some(CorruptionType::EmptyServiceName) => is_bare_trace(
            out,
            original.trace_id@,
            nanos_of(original.duration),
            status_or_200(original),
            Seq::empty(),
            None,
        ),
        Some(CorruptionType::ExtremeValues) => is_bare_trace(
            out,
            original.trace_id@,
            (u64::MAX / 1000) as nat * 1_000_000,
            u16::MAX,
            service_or_unknown(original),
            None,
        ),
        _ => same_trace(out, original),
    }
}

/// The position of the stream before trace `i` meets its fate, where the
/// first meets it at `start`.
pub open spec fn trace_position_at(
    seed: u64,
    rate: u32,
    types: Seq<CorruptionType>,
    start: u128,
    i: nat,
) -> u128
    decreases i,
{
    if i == 0 {
        start
    } else {
        fate(seed, trace_position_at(seed, rate, types, start, (i - 1) as nat), rate, types).position
    }
}

/// The match expression of a corrupted rule.
pub open spec fn malformed_expr() -> Seq<char> {
    "((invalid && ||"@
}

/// The name that corrupted rules share.
pub open spec fn duplicate_name() -> Seq<char> {
    "duplicate-name"@
}

/// What a corruption makes of a rule, if the rule stays at all. Without a
/// corruption to choose the rule is lost; a malformed expression and a
/// duplicate name replace that of the rule, which loses its description;
/// the removal of the fallback takes the rule away if its expression is
/// `true`; any other leaves the rule as it is.
pub open spec fn corrupted_rule(rule: RuleText, kind: Option<CorruptionType>) -> Option<RuleText> {
    match kind {
        None => None,
        Some(CorruptionType::MalformedMatchExpr) => Some(
            RuleText { description: None, match_expr: malformed_expr(), ..rule },
        ),
        Some(CorruptionType::RemoveFallback) => if rule.match_expr == "true"@ {
            None
        } else {
            Some(rule)
        },
        Some(CorruptionType::DuplicateRuleNames) => Some(
            RuleText { name: duplicate_name(), description: None, ..rule },
        ),
        Some(_) => Some(rule),
    }
}

/// The rules of a corrupted policy, and the position of the stream behind
/// them.
pub struct CorruptedRules {
    pub rules: Seq<RuleText>,
    pub position: u128,
}

/// What becomes of the first `n` rules: each meets its fate in turn, and
/// each that stays is added to those before it, in descending order of
/// priority.
pub open spec fn corrupted_rules(
    seed: u64,
    rate: u32,
    types: Seq<CorruptionType>,
    start: u128,
    rules: Seq<RuleText>,
    n: nat,
) -> CorruptedRules
    decreases n,
{
    if n == 0 || n > rules.len() {
        CorruptedRules { rules: Seq::empty(), position: start }
    } else {
        let before = corrupted_rules(seed, rate, types, start, rules, (n - 1) as nat);
        let f = fate(seed, before.position, rate, types);
        let kept = if f.touched {
            corrupted_rule(rules[n - 1], f.kind)
        } else {
            Some(rules[n - 1])
        };
        CorruptedRules {
            rules: match kept {
                Some(r) => sort_texts(before.rules.push(r)),
                None => before.rules,
            },
            position: f.position,
        }
    }
}

/// The rate of the rule with a rate that is no share.
pub const INVALID_RATE: u32 = 0xffff_ffff;

/// The rules of the policy that is invalid in every way.
pub open spec fn invalid_rules() -> Seq<RuleText> {
    seq![
        RuleText {
            name: Seq::empty(),
            description: None,
            match_expr: "invalid syntax >>>"@,
            action: Action::Keep,
            priority: 100,
        },
        RuleText {
            name: "negative-rate"@,
            description: None,
            match_expr: "http.status >= 500"@,
            action: Action::Sample(INVALID_RATE),
            priority: 50,
        },
    ]
}

/// An injector of corruption.
#[derive(Debug, Clone)]
pub struct ChaosInjector {
    /// What the injector was made with.
    pub config: ChaosConfig,
    /// Where the random stream stands, in words.
    pub position: u128,
}

impl ChaosInjector {
    /// Creates an injector at the start of its stream.
    pub fn new(config: ChaosConfig) -> (c: Self)
        ensures
            c.config == config,
            c.position == 0,
    {
        ChaosInjector { config, position: 0 }
    }

    /// Chooses a corruption, if there is one to choose.
    fn choose_corruption(&mut self) -> (kind: Option<CorruptionType>)
        ensures
            final(self).config == old(self).config,
            kind == chosen_corruption(
                old(self).config.seed,
                old(self).position,
                old(self).config.corruption_types@,
            ).kind,
            final(self).position == chosen_corruption(
                old(self).config.seed,
                old(self).position,
                old(self).config.corruption_types@,
            ).position,
    {
        let n = self.config.corruption_types.len();
        if n == 0 {
            None
        } else {
            let p = pick(self.config.seed, self.position, n);
            self.position = p.position;
            Some(self.config.corruption_types[p.index])
        }
    }

    /// Corrupts a trace by a corruption that it chooses.
    fn corrupt_trace(&mut self, trace: &Trace) -> (out: Trace)
        ensures
            final(self).config == old(self).config,
            is_corrupted(
                out,
                *trace,
                chosen_corruption(
                    old(self).config.seed,
                    old(self).position,
                    old(self).config.corruption_types@,
                ).kind,
            ),
            final(self).position == chosen_corruption(
                old(self).config.seed,
                old(self).position,
                old(self).config.corruption_types@,
            ).position,
    {
        let kind = self.choose_corruption();
        let service = match &trace.service {
            Some(s) => s.as_str(),
            None => "unknown",
        };
        let status: u16 = match trace.status {
            Some(s) => s,
            None => 200,
        };
        match kind {
            Some(CorruptionType::InvalidStatus) => bare_trace_lasting(
                trace.trace_id.as_str(),
                trace.duration.clone(),
                999,
                service,
                None,
            ),
            Some(CorruptionType::ZeroDuration) => bare_trace_lasting(
                trace.trace_id.as_str(),
                Duration::from_nanos(0),
                status,
                service,
                None,
            ),
            Some(CorruptionType::EmptyServiceName) => {
                let t = bare_trace_lasting(
                    trace.trace_id.as_str(),
                    trace.duration.clone(),
                    status,
                    "",
                    None,
                );
                proof {
                    reveal_strlit("");
                    assert(""@ =~= Seq::<char>::empty());
                }
                t
            },
            Some(CorruptionType::ExtremeValues) => bare_trace_lasting(
                trace.trace_id.as_str(),
                Duration::from_millis(u64::MAX / 1000),
                u16::MAX,
                service,
                None,
            ),
            _ => trace.copy(),
        }
    }

    /// Corrupts a corpus: each trace in turn is corrupted with the
    /// configured likelihood, by a corruption chosen for it, and copied
    /// otherwise.
    pub fn corrupt_corpus(&mut self, corpus: &Corpus) -> (out: Corpus)
        requires
            corpus@.len() > 0 ==> old(self).config.trace_corruption_rate <= RATE_ONE,
        ensures
            final(self).config == old(self).config,
            out@.len() == corpus@.len(),
            forall|i: int|
                0 <= i < corpus@.len() ==> is_corrupted(
                    #[trigger] out@[i],
                    corpus@[i],
                    fate(
                        old(self).config.seed,
                        trace_position_at(
                            old(self).config.seed,
                            old(self).config.trace_corruption_rate,
                            old(self).config.corruption_types@,
                            old(self).position,
                            i as nat,
                        ),
                        old(self).config.trace_corruption_rate,
                        old(self).config.corruption_types@,
                    ).kind,
                ),
            final(self).position == trace_position_at(
                old(self).config.seed,
                old(self).config.trace_corruption_rate,
                old(self).config.corruption_types@,
                old(self).position,
                corpus@.len(),
            ),
    {
        let mut out = Corpus::new();
        let seed = self.config.seed;
        let rate = self.config.trace_corruption_rate;
        let ghost types = self.config.corruption_types@;
        let ghost start = self.position;
        let n = corpus.traces.len();
        let mut i: usize = 0;
        while i < n
            invariant
                n == corpus@.len(),
                i <= n,
                n > 0 ==> rate <= RATE_ONE,
                self.config == old(self).config,
                seed == self.config.seed,
                rate == self.config.trace_corruption_rate,
                types == self.config.corruption_types@,
                out@.len() == i,
                forall|k: int|
                    0 <= k < i ==> is_corrupted(
                        #[trigger] out@[k],
                        corpus@[k],
                        fate(seed, trace_position_at(seed, rate, types, start, k as nat), rate, types).kind,
                    ),
                self.position == trace_position_at(seed, rate, types, start, i as nat),
            decreases n - i,
        {
            let t = toss(seed, self.position, rate);
            self.position = t.position;
            let trace = if t.hit {
                self.corrupt_trace(&corpus.traces[i])
            } else {
                corpus.traces[i].copy()
            };
            out.add(trace);
            i += 1;
        }
        out
    }

    /// Corrupts a rule by a corruption that it chooses; the rule may be
    /// lost.
    fn corrupt_rule(&mut self, rule: &Rule) -> (out: Option<Rule>)
        ensures
            final(self).config == old(self).config,
            match corrupted_rule(
                rule_text(*rule),
                chosen_corruption(
                    old(self).config.seed,
                    old(self).position,
                    old(self).config.corruption_types@,
                ).kind,
            ) {
                Some(text) => out is Some && rule_text(out->0) == text,
                None => out is None,
            },
            final(self).position == chosen_corruption(
                old(self).config.seed,
                old(self).position,
                old(self).config.corruption_types@,
            ).position,
    {
        match self.choose_corruption() {
            None => None,
            Some(CorruptionType::MalformedMatchExpr) => Some(
                Rule::new(rule.name.as_str(), "((invalid && ||", rule.action, rule.priority),
            ),
            Some(CorruptionType::RemoveFallback) => {
                if str_eq(rule.match_expr.as_str(), "true") {
                    None
                } else {
                    Some(rule.copy())
                }
            },
            Some(CorruptionType::DuplicateRuleNames) => Some(
                Rule::new("duplicate-name", rule.match_expr.as_str(), rule.action, rule.priority),
            ),
            Some(_) => Some(rule.copy()),
        }
    }

    /// Corrupts a policy: each rule in turn is corrupted with the
    /// configured likelihood, by a corruption chosen for it, and copied
    /// otherwise; the rules that are left make the new policy, under the
    /// name and the budget of the old.
    pub fn corrupt_policy(&mut self, policy: &Policy) -> (out: Policy)
        requires
            policy.rules@.len() > 0 ==> old(self).config.rule_corruption_rate <= RATE_ONE,
        ensures
            final(self).config == old(self).config,
            out.version == 1,
            out.name@ == policy.name@,
            out.budget_per_second == policy.budget_per_second,
            out.well_formed(),
            rule_texts(out.rules@) == corrupted_rules(
                old(self).config.seed,
                old(self).config.rule_corruption_rate,
                old(self).config.corruption_types@,
                old(self).position,
                rule_texts(policy.rules@),
                policy.rules@.len(),
            ).rules,
            final(self).position == corrupted_rules(
                old(self).config.seed,
                old(self).config.rule_corruption_rate,
                old(self).config.corruption_types@,
                old(self).position,
                rule_texts(policy.rules@),
                policy.rules@.len(),
            ).position,
    {
        let mut out = Policy::new(policy.name.as_str());
        out.budget_per_second = policy.budget_per_second;
        let seed = self.config.seed;
        let rate = self.config.rule_corruption_rate;
        let ghost types = self.config.corruption_types@;
        let ghost start = self.position;
        let ghost all = rule_texts(policy.rules@);
        let n = policy.rules.len();
        let mut i: usize = 0;
        assert(rule_texts(out.rules@) =~= Seq::<RuleText>::empty());
        while i < n
            invariant
                n == policy.rules@.len(),
                i <= n,
                n > 0 ==> rate <= RATE_ONE,
                all == rule_texts(policy.rules@),
                self.config == old(self).config,
                seed == self.config.seed,
                rate == self.config.rule_corruption_rate,
                types == self.config.corruption_types@,
                out.version == 1,
                out.name@ == policy.name@,
                out.budget_per_second == policy.budget_per_second,
                out.well_formed(),
                rule_texts(out.rules@) == corrupted_rules(seed, rate, types, start, all, i as nat).rules,
                self.position == corrupted_rules(seed, rate, types, start, all, i as nat).position,
            decreases n - i,
        {
            let t = toss(seed, self.position, rate);
            self.position = t.position;
            let kept = if t.hit {
                self.corrupt_rule(&policy.rules[i])
            } else {
                Some(policy.rules[i].copy())
            };
            match kept {
                Some(rule) => {
                    let ghost before = out.rules@;
                    out.add_rule(rule);
                    proof {
                        lemma_sort_commutes(before.push(rule));
                        assert(rule_texts(before.push(rule)) =~= rule_texts(before).push(
                            rule_text(rule),
                        ));
                    }
                },
                None => {},
            }
            i += 1;
        }
        out
    }

    /// A policy that is invalid in every way: it has no name, a rule
    /// without a name whose expression cannot be read, a rule whose rate is
    /// no share, and no fallback.
    pub fn generate_invalid_policy(&mut self) -> (p: Policy)
        ensures
            *final(self) == *old(self),
            p.name@.len() == 0,
            p.version == 1,
            p.budget_per_second is None,
            rule_texts(p.rules@) == invalid_rules(),
    {
        let mut policy = Policy::new("");
        proof {
            reveal_strlit("");
        }
        let first = Rule::new("", "invalid syntax >>>", Action::Keep, 100);
        let second = Rule::new("negative-rate", "http.status >= 500", Action::Sample(INVALID_RATE), 50);
        let ghost none = policy.rules@;
        policy.add_rule(first);
        let ghost one = policy.rules@;
        policy.add_rule(second);
        proof {
            lemma_sort_commutes(none.push(first));
            lemma_sort_commutes(one.push(second));
            assert(rule_texts(none.push(first)) =~= seq![rule_text(first)]);
            assert(seq![rule_text(first)].drop_last() =~= Seq::<RuleText>::empty());
            assert(sort_texts(Seq::<RuleText>::empty()) =~= Seq::<RuleText>::empty());
            assert(insert_text(Seq::<RuleText>::empty(), rule_text(first)) =~= seq![
                rule_text(first),
            ]);
            assert(seq![rule_text(first)].last() == rule_text(first));
            assert(sort_texts(seq![rule_text(first)]) =~= seq![rule_text(first)]);
            assert(seq![rule_text(first), rule_text(second)].last() == rule_text(second));
            assert(insert_text(seq![rule_text(first)], rule_text(second)) =~= seq![
                rule_text(first),
                rule_text(second),
            ]);
            assert(rule_texts(one.push(second)) =~= seq![rule_text(first), rule_text(second)]);
            assert(seq![rule_text(first), rule_text(second)].drop_last() =~= seq![rule_text(first)]);
            assert(sort_texts(seq![rule_text(first), rule_text(second)]) =~= seq![
                rule_text(first),
                rule_text(second),
            ]);
            assert(""@ =~= Seq::<char>::empty());
            assert(rule_texts(policy.rules@) =~= invalid_rules());
        }
        policy
    }
}

/// What one round of corruption did to the prover and the compiler.
#[derive(Debug, Clone)]
pub struct ChaosResult {
    /// Number of the round.
    pub iteration: usize,
    /// How hard the round was, in millionths.
    pub intensity: u32,
    /// Whether the prover came to a verdict.
    pub prover_survived: bool,
    /// Whether the policy could be compiled.
    pub compiler_survived: bool,
    /// What the prover said, if it came to none.
    pub prover_error: Option<String>,
    /// What the compiler said, if it failed.
    pub compiler_error: Option<String>,
}

impl ChaosResult {
    /// Whether both the prover and the compiler survived.
    pub fn fully_survived(&self) -> (r: bool)
        ensures
            r == (self.prover_survived && self.compiler_survived),
    {
        self.prover_survived && self.compiler_survived
    }
}

/// The given share of `i` in `n`, in millionths, rounded down.
pub open spec fn share_at(i: nat, n: nat, share: nat) -> nat {
    if n == 0 {
        0
    } else {
        i * share / n
    }
}

/// The share of `i` in `n`, scaled; `i` is below `n`.
fn scaled_share(i: usize, n: usize, share: u32) -> (r: u32)
    requires
        i < n,
        share <= RATE_ONE,
    ensures
        r == share_at(i as nat, n as nat, share as nat),
        r <= share,
{
    assert(i as nat * share as nat <= n as nat * share as nat) by (nonlinear_arith)
        requires
            i < n,
    ;
    assert(i as nat * share as nat / n as nat <= share) by (nonlinear_arith)
        requires
            i as nat * share as nat <= n as nat * share as nat,
            n > 0,
    ;
    assert((i as u128) * (share as u128) <= 0xffff_ffff_ffff_ffff * 0xffff_ffff) by (nonlinear_arith)
        requires
            i <= 0xffff_ffff_ffff_ffff,
            share <= 0xffff_ffff,
    ;
    ((i as u128) * (share as u128) / (n as u128)) as u32
}

/// One round of a campaign of corruption: round `i` of `n` corrupts half
/// the share `i/n` of the traces and three tenths of it of the rules,
/// under the seed `i`, and holds the prover and the compiler to what is
/// left.
pub fn chaos_round(policy: &Policy, corpus: &Corpus, i: usize, n: usize) -> (r: ChaosResult)
    requires
        i < n,
    ensures
        r.iteration == i,
        r.intensity == share_at(i as nat, n as nat, 1_000_000),
        r.prover_survived == (r.prover_error is None),
        r.compiler_survived == (r.compiler_error is None),
{
    let config = ChaosConfig::default().with_seed(i as u64).with_trace_corruption_rate(
        scaled_share(i, n, 500_000),
    ).with_rule_corruption_rate(scaled_share(i, n, 300_000));
    let mut injector = ChaosInjector::new(config);
    let chaotic_corpus = injector.corrupt_corpus(corpus);
    let chaotic_policy = injector.corrupt_policy(policy);
    let prover = Prover::default();
    let prover_error = match prover.verify(&chaotic_policy, &chaotic_corpus) {
        Ok(_) => None,
        Err(e) => Some(e.message()),
    };
    let compiler = Compiler::new();
    let compiler_error = match compiler.to_refinery_config(&chaotic_policy) {
        Ok(_) => None,
        Err(e) => Some(e.message()),
    };
    ChaosResult {
        iteration: i,
        intensity: scaled_share(i, n, 1_000_000),
        prover_survived: prover_error.is_none(),
        compiler_survived: compiler_error.is_none(),
        prover_error,
        compiler_error,
    }
}

/// A campaign of corruption of rising intensity: as many rounds as asked
/// for, from no corruption towards the full shares.
pub fn chaos_campaign(policy: &Policy, corpus: &Corpus, iterations: usize) -> (results: Vec<
    ChaosResult,
>)
    ensures
        results@.len() == iterations,
        forall|i: int|
            0 <= i < iterations ==> {
                &&& (#[trigger] results@[i]).iteration == i
                &&& results@[i].intensity == share_at(i as nat, iterations as nat, 1_000_000)
                &&& results@[i].prover_survived == (results@[i].prover_error is None)
                &&& results@[i].compiler_survived == (results@[i].compiler_error is None)
            },
{
    let mut results: Vec<ChaosResult> = Vec::new();
    let mut i: usize = 0;
    while i < iterations
        invariant
            i <= iterations,
            results@.len() == i,
            forall|k: int|
                0 <= k < i ==> {
                    &&& (#[trigger] results@[k]).iteration == k
                    &&& results@[k].intensity == share_at(k as nat, iterations as nat, 1_000_000)
                    &&& results@[k].prover_survived == (results@[k].prover_error is None)
                    &&& results@[k].compiler_survived == (results@[k].compiler_error is None)
                },
        decreases iterations - i,
    {
        results.push(chaos_round(policy, corpus, i, iterations));
        i += 1;
    }
    results
}

} // verus!
