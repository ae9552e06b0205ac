//! The rule format that policies are lowered to: flat rules whose
//! conditions all have to hold.

use vstd::prelude::*;

verus! {

/// Value in a condition.
#[derive(Debug, Clone, PartialEq)]
pub enum ConditionValue {
    /// String value.
    String(String),
    /// Numeric value.
    Number(i64),
    /// Boolean value.
    Bool(bool),
}

/// A condition value, by what it holds.
pub enum ConditionValueModel {
    Text(Seq<char>),
    Number(i64),
    Bool(bool),
}

impl View for ConditionValue {
    type V = ConditionValueModel;

    open spec fn view(&self) -> ConditionValueModel {
        match self {
            ConditionValue::String(s) => ConditionValueModel::Text(s@),
            ConditionValue::Number(n) => ConditionValueModel::Number(*n),
            ConditionValue::Bool(b) => ConditionValueModel::Bool(*b),
        }
    }
}

/// A condition of a rule.
#[derive(Debug, Clone, PartialEq)]
pub struct RefineryCondition {
    /// Field to match.
    pub field: String,
    /// Operator: `=`, `!=`, `>`, `<`, `>=`, `<=`, `contains` and so on.
    pub operator: String,
    /// Value to compare against.
    pub value: ConditionValue,
}

/// A rule condition, by what it holds.
pub struct RefineryConditionModel {
    pub field: Seq<char>,
    pub operator: Seq<char>,
    pub value: ConditionValueModel,
}

impl View for RefineryCondition {
    type V = RefineryConditionModel;

    open spec fn view(&self) -> RefineryConditionModel {
        RefineryConditionModel {
            field: self.field@,
            operator: self.operator@,
            value: self.value@,
        }
    }
}

/// A single sampling rule.
#[derive(Debug, Clone, PartialEq)]
pub struct RefineryRule {
    /// Rule name.
    pub name: String,
    /// Sample rate: 1 keeps all, 0 drops all, `n` keeps one in `n`.
    pub sample_rate: u32,
    /// Conditions of this rule; all have to hold.
    pub conditions: Vec<RefineryCondition>,
}

/// A rule, by what it holds.
pub struct RefineryRuleModel {
    pub name: Seq<char>,
    pub sample_rate: u32,
    pub conditions: Seq<RefineryConditionModel>,
}

impl View for RefineryRule {
    type V = RefineryRuleModel;

    open spec fn view(&self) -> RefineryRuleModel {
        RefineryRuleModel {
            name: self.name@,
            sample_rate: self.sample_rate,
            conditions: Seq::new(self.conditions@.len(), |i: int| self.conditions@[i]@),
        }
    }
}

/// The rules, each by what it holds.
pub open spec fn rule_models(rules: Seq<RefineryRule>) -> Seq<RefineryRuleModel> {
    Seq::new(rules.len(), |i: int| rules[i]@)
}

/// Rules-based sampler configuration.
#[derive(Debug, Clone, PartialEq)]
pub struct RulesBasedSampler {
    /// List of sampling rules.
    pub rules: Vec<RefineryRule>,
}

/// Configuration root.
#[derive(Debug, Clone, PartialEq)]
pub struct RefineryConfig {
    /// Sampling rules.
    pub rules_based_sampler: RulesBasedSampler,
}

/// The integer sample rate for a keep rate in millionths: one in `n`,
/// where `n` is the reciprocal of the rate rounded to the nearest integer,
/// halves rounded up.
pub open spec fn one_in(rate: u32) -> nat {
    if rate == 0 {
        0
    } else if rate >= 1_000_000 {
        1
    } else {
        ((2_000_000 + rate) / (2 * rate)) as nat
    }
}

impl RefineryConfig {
    /// Creates a configuration without rules.
    pub fn new() -> (c: Self)
        ensures
            c.rules_based_sampler.rules@.len() == 0,
    {
        RefineryConfig { rules_based_sampler: RulesBasedSampler { rules: Vec::new() } }
    }

    /// Appends a rule.
    pub fn add_rule(&mut self, rule: RefineryRule)
        ensures
            final(self).rules_based_sampler.rules@ == old(self).rules_based_sampler.rules@.push(
                rule,
            ),
    {
        self.rules_based_sampler.rules.push(rule);
    }
}

impl Default for RefineryConfig {
    fn default() -> (c: Self)
        ensures
            c.rules_based_sampler.rules@.len() == 0,
    {
        RefineryConfig::new()
    }
}

impl RefineryRule {
    /// Creates a rule that keeps all matching traces.
    pub fn keep(name: &str) -> (r: Self)
        ensures
            r.name@ == name@,
            r.sample_rate == 1,
            r.conditions@.len() == 0,
    {
        RefineryRule { name: name.to_owned(), sample_rate: 1, conditions: Vec::new() }
    }

    /// Creates a rule that drops all matching traces.
    pub fn drop(name: &str) -> (r: Self)
        ensures
            r.name@ == name@,
            r.sample_rate == 0,
            r.conditions@.len() == 0,
    {
        RefineryRule { name: name.to_owned(), sample_rate: 0, conditions: Vec::new() }
    }

    /// Creates a rule that keeps the given share of matching traces, in
    /// millionths.
    pub fn sample(name: &str, rate: u32) -> (r: Self)
        ensures
            r.name@ == name@,
            r.sample_rate == one_in(rate),
            r.conditions@.len() == 0,
    {
        let sample_rate: u32 = if rate == 0 {
            0
        } else if rate >= 1_000_000 {
            1
        } else {
            ((2_000_000 + rate as u64) / (2 * rate as u64)) as u32
        };
        RefineryRule { name: name.to_owned(), sample_rate, conditions: Vec::new() }
    }

    /// Appends a condition.
    pub fn with_condition(self, condition: RefineryCondition) -> (r: Self)
        ensures
            r.name == self.name,
            r.sample_rate == self.sample_rate,
            r.conditions@ == self.conditions@.push(condition),
    {
        let mut rule = self;
        rule.conditions.push(condition);
        rule
    }
}

} // verus!
