//! Compilation of policies to flat sampling rules.

use vstd::prelude::*;
use crate::error::{Error, ErrorText};
use crate::match_expr::{condition_models, lowered, parse_text, Lowered, MatchExpr, Parsed};
use crate::policy::{Action, Policy, Rule};
use crate::refinery::{
    one_in, rule_models, RefineryConditionModel, RefineryConfig, RefineryRule,
    RefineryRuleModel,
};

verus! {

/// The format in which compiled policies are written.
#[derive(Debug, Clone, Copy, PartialEq, Eq, Structural)]
pub enum OutputFormat {
    /// YAML.
    Yaml,
    /// JSON.
    Json,
}

impl Default for OutputFormat {
    fn default() -> (f: Self)
        ensures
            f == OutputFormat::Yaml,
    {
        OutputFormat::Yaml
    }
}

/// Options of compilation.
#[derive(Debug, Clone, Copy, PartialEq, Eq, Structural)]
pub struct CompileOptions {
    /// Output format.
    pub format: OutputFormat,
    /// Whether comments go into the output.
    pub include_comments: bool,
}

impl Default for CompileOptions {
    fn default() -> (o: Self)
        ensures
            o == (CompileOptions { format: OutputFormat::Yaml, include_comments: false }),
    {
        CompileOptions { format: OutputFormat::Yaml, include_comments: false }
    }
}

/// Compiles policies to flat sampling rules. The same policy always
/// compiles to the same rules.
#[derive(Debug, Clone, Copy, PartialEq, Eq, Structural)]
pub struct Compiler {
    /// The options.
    pub options: CompileOptions,
}

/// The sample rate of a compiled rule: 1 keeps all, 0 drops all, `n`
/// keeps one in `n`.
pub open spec fn compiled_rate(action: Action) -> u32 {
    match action {
        Action::Keep => 1,
        Action::Drop => 0,
        Action::Sample(rate) => one_in(rate) as u32,
    }
}

/// The rule that a rule of a policy compiles to: its match expression is
/// parsed and lowered to conditions; an expression that cannot be lowered
/// leaves the rule without conditions; one that cannot be parsed is an
/// error.
pub open spec fn compiled_rule(rule: Rule) -> Result<RefineryRuleModel, ErrorText> {
    match parse_text(rule.match_expr@) {
        Parsed::Failure(e) => Err(e),
        Parsed::Expr(expr) => Ok(
            RefineryRuleModel {
                name: rule.name@,
                sample_rate: compiled_rate(rule.action),
                conditions: match lowered(expr) {
                    Lowered::Conditions(conditions) => conditions,
                    Lowered::Failure(_) => Seq::empty(),
                },
            },
        ),
    }
}

/// The rules that the first `n` rules of a policy compile to, or the
/// error of the first rule that has one.
pub open spec fn compiled_rules(rules: Seq<Rule>, n: nat) -> Result<Seq<RefineryRuleModel>, ErrorText>
    decreases n,
{
    if n == 0 || n > rules.len() {
        Ok(Seq::empty())
    } else {
        match compiled_rules(rules, (n - 1) as nat) {
            Err(e) => Err(e),
            Ok(before) => match compiled_rule(rules[n - 1]) {
                Err(e) => Err(e),
                Ok(rule) => Ok(before.push(rule)),
            },
        }
    }
}

impl Compiler {
    /// Creates a compiler with the default options.
    pub fn new() -> (c: Self)
        ensures
            c.options == (CompileOptions { format: OutputFormat::Yaml, include_comments: false }),
    {
        Compiler { options: CompileOptions::default() }
    }

    /// Creates a compiler with the given options.
    pub fn with_options(options: CompileOptions) -> (c: Self)
        ensures
            c.options == options,
    {
        Compiler { options }
    }

    /// Compiles a policy to a configuration of flat rules, in the order of
    /// the policy's rules.
    pub fn to_refinery_config(&self, policy: &Policy) -> (r: Result<RefineryConfig, Error>)
        ensures
            match r {
                Ok(config) => compiled_rules(policy.rules@, policy.rules@.len()) == Ok::<
                    Seq<RefineryRuleModel>,
                    ErrorText,
                >(rule_models(config.rules_based_sampler.rules@)),
                Err(e) => compiled_rules(policy.rules@, policy.rules@.len()) == Err::<
                    Seq<RefineryRuleModel>,
                    ErrorText,
                >(e@),
            },
    {
        let mut config = RefineryConfig::new();
        let n = policy.rules.len();
        let mut i: usize = 0;
        assert(rule_models(config.rules_based_sampler.rules@) == Seq::<RefineryRuleModel>::empty());
        while i < n
            invariant
                n == policy.rules@.len(),
                i <= n,
                compiled_rules(policy.rules@, i as nat) == Ok::<Seq<RefineryRuleModel>, ErrorText>(
                    rule_models(config.rules_based_sampler.rules@),
                ),
            decreases n - i,
        {
            match Self::compile_rule(&policy.rules[i]) {
                Ok(rule) => {
                    let ghost before = rule_models(config.rules_based_sampler.rules@);
                    let ghost this = rule@;
                    config.add_rule(rule);
                    assert(rule_models(config.rules_based_sampler.rules@) == before.push(this));
                },
                Err(e) => {
                    proof {
                        lemma_compilation_fails(policy.rules@, (i + 1) as nat, n as nat);
                    }
                    return Err(e);
                },
            }
            i += 1;
        }
        Ok(config)
    }

    /// Compiles one rule.
    pub fn compile_rule(rule: &Rule) -> (r: Result<RefineryRule, Error>)
        ensures
            match r {
                Ok(compiled) => compiled_rule(*rule) == Ok::<RefineryRuleModel, ErrorText>(
                    compiled@,
                ),
                Err(e) => compiled_rule(*rule) == Err::<RefineryRuleModel, ErrorText>(e@),
            },
    {
        let mut refinery_rule = match rule.action {
            Action::Keep => RefineryRule::keep(rule.name.as_str()),
            Action::Drop => RefineryRule::drop(rule.name.as_str()),
            Action::Sample(rate) => RefineryRule::sample(rule.name.as_str(), rate),
        };
        let match_expr = match MatchExpr::parse(rule.match_expr.as_str()) {
            Ok(expr) => expr,
            Err(e) => {
                return Err(e);
            },
        };
        match match_expr.to_refinery_conditions() {
            Ok(conditions) => {
                let ghost models = condition_models(conditions@);
                let mut pending = conditions;
                refinery_rule.conditions.append(&mut pending);
                assert(refinery_rule@.conditions == models);
            },
            Err(_) => {
                assert(refinery_rule@.conditions == Seq::<RefineryConditionModel>::empty());
            },
        }
        Ok(refinery_rule)
    }
}

impl Default for Compiler {
    fn default() -> (c: Self)
        ensures
            c.options == (CompileOptions { format: OutputFormat::Yaml, include_comments: false }),
    {
        Compiler::new()
    }
}

/// Once a rule fails to compile, the failure stands for all rules.
pub proof fn lemma_compilation_fails(rules: Seq<Rule>, k: nat, n: nat)
    requires
        k <= n <= rules.len(),
        compiled_rules(rules, k) is Err,
    ensures
        compiled_rules(rules, n) == compiled_rules(rules, k),
    decreases n - k,
{
    if k < n {
        lemma_compilation_fails(rules, k, (n - 1) as nat);
    }
}

/// Whether `text` is what `render` wrote, in the given format, for a
/// configuration of the flat rules that the rules compile to.
pub open spec fn is_rendering<F: Fn(&RefineryConfig, OutputFormat) -> String>(
    render: &F,
    rules: Seq<Rule>,
    format: OutputFormat,
    text: String,
) -> bool {
    exists|c: RefineryConfig| #[trigger]
        render.ensures((&c, format), text) && compiled_rules(rules, rules.len()) == Ok::<
            Seq<RefineryRuleModel>,
            ErrorText,
        >(rule_models(c.rules_based_sampler.rules@))
}

impl Compiler {
    /// Compiles a policy to the text of its configuration: the rules are
    /// compiled, and `render` writes the configuration in the format of
    /// the options. A rule that cannot be compiled is an error, and
    /// nothing is written.
    pub fn compile<F: Fn(&RefineryConfig, OutputFormat) -> String>(
        &self,
        policy: &Policy,
        render: &F,
    ) -> (r: Result<String, Error>)
        requires
            forall|c: &RefineryConfig, f: OutputFormat| #[trigger] render.requires((c, f)),
        ensures
            match r {
                Ok(text) => is_rendering(render, policy.rules@, self.options.format, text),
                Err(e) => compiled_rules(policy.rules@, policy.rules@.len()) == Err::<
                    Seq<RefineryRuleModel>,
                    ErrorText,
                >(e@),
            },
    {
        match self.to_refinery_config(policy) {
            Ok(config) => {
                let text = render(&config, self.options.format);
                Ok(text)
            },
            Err(e) => Err(e),
        }
    }
}

} // verus!
