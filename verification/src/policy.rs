//! The sampling policy: prioritised rules, each pairing a match expression
//! with an action.

use vstd::prelude::*;
use crate::text::str_eq;

verus! {

/// Rates are fixed-point numbers counted in millionths: this is rate 1.
pub const RATE_ONE: u32 = 1_000_000;

/// What happens to a trace that a rule matches.
#[derive(Debug, Clone, Copy, PartialEq, Eq, Structural)]
pub enum Action {
    /// Always keep matching traces.
    Keep,
    /// Always drop matching traces.
    Drop,
    /// Keep the given share of matching traces, in millionths.
    Sample(u32),
}

/// One sampling rule.
#[derive(Debug, Clone, PartialEq)]
pub struct Rule {
    /// Rule identifier.
    pub name: String,
    /// Human-readable description.
    pub description: Option<String>,
    /// Match expression, as written.
    pub match_expr: String,
    /// Action taken when the expression matches.
    pub action: Action,
    /// Priority: rules with a higher priority are evaluated first.
    pub priority: u8,
}

/// A sampling policy.
#[derive(Debug, Clone, PartialEq)]
pub struct Policy {
    /// Policy schema version.
    pub version: u32,
    /// Human-readable policy name.
    pub name: String,
    /// Budget of kept traces per second.
    pub budget_per_second: Option<u64>,
    /// The rules, highest priority first.
    pub rules: Vec<Rule>,
}

impl Action {
    /// The share of matching traces that the action keeps, in millionths.
    pub open spec fn rate(self) -> nat {
        match self {
            Action::Keep => 1_000_000,
            Action::Drop => 0,
            Action::Sample(r) => r as nat,
        }
    }

    /// A sampling rate is meaningful only between 0 and 1.
    pub open spec fn well_formed(self) -> bool {
        self.rate() <= RATE_ONE
    }

    /// The share of matching traces that the action keeps, in millionths.
    pub fn effective_rate(&self) -> (r: u32)
        ensures
            r == self.rate(),
    {
        match self {
            Action::Keep => RATE_ONE,
            Action::Drop => 0,
            Action::Sample(rate) => *rate,
        }
    }
}

impl Rule {
    /// A rule is a fallback when its match expression is the literal `true`.
    pub open spec fn is_fallback(&self) -> bool {
        self.match_expr@ == "true"@
    }

    /// Creates a rule without a description.
    pub fn new(name: &str, match_expr: &str, action: Action, priority: u8) -> (r: Self)
        ensures
            r.name@ == name@,
            r.description is None,
            r.match_expr@ == match_expr@,
            r.action == action,
            r.priority == priority,
    {
        Rule {
            name: name.to_owned(),
            description: None,
            match_expr: match_expr.to_owned(),
            action,
            priority,
        }
    }

    /// Sets the description, leaving the rest of the rule as it is.
    pub fn with_description(self, description: &str) -> (r: Self)
        ensures
            r.description is Some,
            r.description->0@ == description@,
            r.name == self.name,
            r.match_expr == self.match_expr,
            r.action == self.action,
            r.priority == self.priority,
    {
        let mut rule = self;
        rule.description = Some(description.to_owned());
        rule
    }

    /// Whether the rule matches every trace.
    pub fn matches_everything(&self) -> (r: bool)
        ensures
            r == self.is_fallback(),
    {
        str_eq(self.match_expr.as_str(), "true")
    }
}

/// Whether the rules stand in descending order of priority.
pub open spec fn priority_ordered(s: Seq<Rule>) -> bool {
    forall|i: int, j: int| 0 <= i < j < s.len() ==> s[i].priority >= s[j].priority
}

/// `r` placed behind the last rule whose priority is not lower than its own.
pub open spec fn insert_by_priority(s: Seq<Rule>, r: Rule) -> Seq<Rule>
    decreases s.len(),
{
    if s.len() == 0 {
        seq![r]
    } else if s.last().priority >= r.priority {
        s.push(r)
    } else {
        insert_by_priority(s.drop_last(), r).push(s.last())
    }
}

/// The rules in descending order of priority, rules of equal priority in
/// the order in which they stood.
pub open spec fn sort_by_priority(s: Seq<Rule>) -> Seq<Rule>
    decreases s.len(),
{
    if s.len() == 0 {
        s
    } else {
        insert_by_priority(sort_by_priority(s.drop_last()), s.last())
    }
}

/// Whether some rule of `s` is a fallback.
pub open spec fn some_fallback(s: Seq<Rule>) -> bool {
    exists|i: int| 0 <= i < s.len() && (#[trigger] s[i]).is_fallback()
}

/// Where `r` goes in `s`: behind every rule at or after this position that
/// has a lower priority.
pub open spec fn insert_position(s: Seq<Rule>, r: Rule) -> int
    decreases s.len(),
{
    if s.len() == 0 {
        0
    } else if s.last().priority >= r.priority {
        s.len() as int
    } else {
        insert_position(s.drop_last(), r)
    }
}

/// Inserting by priority is inserting at [`insert_position`].
pub proof fn lemma_insert_by_priority(s: Seq<Rule>, r: Rule)
    ensures
        0 <= insert_position(s, r) <= s.len(),
        insert_by_priority(s, r) == s.insert(insert_position(s, r), r),
        forall|k: int|
            insert_position(s, r) <= k < s.len() ==> (#[trigger] s[k]).priority < r.priority,
        insert_position(s, r) > 0 ==> s[insert_position(s, r) - 1].priority >= r.priority,
    decreases s.len(),
{
    if s.len() == 0 {
        assert(seq![r] == s.insert(0, r));
    } else if s.last().priority >= r.priority {
        assert(s.push(r) == s.insert(s.len() as int, r));
    } else {
        let t = s.drop_last();
        lemma_insert_by_priority(t, r);
        let p = insert_position(t, r);
        assert(t.insert(p, r).push(s.last()) == s.insert(p, r));
        assert forall|k: int| p <= k < s.len() implies (#[trigger] s[k]).priority
            < r.priority by {
            if k < t.len() {
                assert(t[k] == s[k]);
            }
        }
        if p > 0 {
            assert(t[p - 1] == s[p - 1]);
        }
    }
}

/// Inserting a rule into ordered rules leaves them ordered.
pub proof fn lemma_insert_keeps_order(s: Seq<Rule>, r: Rule)
    requires
        priority_ordered(s),
    ensures
        priority_ordered(insert_by_priority(s, r)),
{
    lemma_insert_by_priority(s, r);
    let p = insert_position(s, r);
    let out = s.insert(p, r);
    assert forall|i: int, j: int| 0 <= i < j < out.len() implies out[i].priority
        >= out[j].priority by {
        if j < p {
        } else if j == p {
            if p > 0 {
                assert(s[i].priority >= s[p - 1].priority);
            }
        } else {
            assert(out[j] == s[j - 1]);
            if i < p {
                assert(out[i] == s[i]);
            } else if i == p {
            } else {
                assert(out[i] == s[i - 1]);
            }
        }
    }
}

/// Sorting yields ordered rules.
pub proof fn lemma_sort_orders(s: Seq<Rule>)
    ensures
        priority_ordered(sort_by_priority(s)),
        sort_by_priority(s).len() == s.len(),
    decreases s.len(),
{
    if s.len() > 0 {
        lemma_sort_orders(s.drop_last());
        lemma_insert_keeps_order(sort_by_priority(s.drop_last()), s.last());
        lemma_insert_by_priority(sort_by_priority(s.drop_last()), s.last());
    }
}

/// Sorting keeps every rule, as often as it occurred.
pub proof fn lemma_sort_permutes(s: Seq<Rule>)
    ensures
        sort_by_priority(s).to_multiset() == s.to_multiset(),
    decreases s.len(),
{
    broadcast use vstd::seq_lib::group_to_multiset_ensures;

    if s.len() > 0 {
        let t = s.drop_last();
        lemma_sort_permutes(t);
        let st = sort_by_priority(t);
        lemma_insert_by_priority(st, s.last());
        assert(s == t.push(s.last()));
        vstd::seq_lib::to_multiset_insert(st, insert_position(st, s.last()), s.last());
    }
}

/// Rules that are ordered already stay as they are.
pub proof fn lemma_sort_ordered_is_identity(s: Seq<Rule>)
    requires
        priority_ordered(s),
    ensures
        sort_by_priority(s) == s,
    decreases s.len(),
{
    if s.len() > 0 {
        let t = s.drop_last();
        assert(priority_ordered(t)) by {
            assert forall|i: int, j: int| 0 <= i < j < t.len() implies t[i].priority
                >= t[j].priority by {
                assert(t[i] == s[i] && t[j] == s[j]);
            }
        }
        lemma_sort_ordered_is_identity(t);
        if t.len() > 0 {
            assert(t.last() == s[s.len() - 2]);
            assert(t.last().priority >= s.last().priority);
        }
        assert(t.push(s.last()) == s);
    }
}

impl Policy {
    /// Whether the rules stand in descending order of priority.
    pub open spec fn well_formed(&self) -> bool {
        priority_ordered(self.rules@)
    }

    /// Creates an empty policy of schema version 1.
    pub fn new(name: &str) -> (p: Self)
        ensures
            p.version == 1,
            p.name@ == name@,
            p.budget_per_second is None,
            p.rules@.len() == 0,
            p.well_formed(),
    {
        Policy { version: 1, name: name.to_owned(), budget_per_second: None, rules: Vec::new() }
    }

    /// Adds a rule and puts the rules in descending order of priority; rules
    /// of equal priority keep the order in which they were added.
    pub fn add_rule(&mut self, rule: Rule)
        ensures
            final(self).rules@ == sort_by_priority(old(self).rules@.push(rule)),
            final(self).rules@.to_multiset() == old(self).rules@.push(rule).to_multiset(),
            final(self).well_formed(),
            final(self).rules@.len() == old(self).rules@.len() + 1,
            final(self).version == old(self).version,
            final(self).name == old(self).name,
            final(self).budget_per_second == old(self).budget_per_second,
    {
        let ghost all = self.rules@.push(rule);
        if self.is_ordered() {
            proof {
                assert(all.drop_last() == self.rules@);
                assert(all.last() == rule);
                lemma_sort_ordered_is_identity(self.rules@);
            }
            self.insert_in_order(rule);
        } else {
            self.rules.push(rule);
            let mut unsorted: Vec<Rule> = Vec::new();
            core::mem::swap(&mut self.rules, &mut unsorted);
            let n = unsorted.len();
            let mut pending = crate::order::reversed(unsorted);
            let mut taken: usize = 0;
            assert(all.subrange(0, 0) == Seq::<Rule>::empty());
            while pending.len() > 0
                invariant
                    taken + pending@.len() == n,
                    n == all.len(),
                    forall|i: int|
                        0 <= i < pending@.len() ==> #[trigger] pending@[i] == all[n - 1 - i],
                    self.rules@ == sort_by_priority(all.subrange(0, taken as int)),
                    self.version == old(self).version,
                    self.name == old(self).name,
                    self.budget_per_second == old(self).budget_per_second,
                decreases pending.len(),
            {
                match pending.pop() {
                    Some(r) => {
                        proof {
                            let prefix = all.subrange(0, taken as int + 1);
                            assert(r == all[taken as int]);
                            assert(prefix.drop_last() == all.subrange(0, taken as int));
                            assert(prefix.last() == r);
                            lemma_sort_orders(all.subrange(0, taken as int));
                        }
                        self.insert_in_order(r);
                        taken += 1;
                    },
                    None => {},
                }
            }
            assert(all.subrange(0, n as int) == all);
        }
        proof {
            lemma_sort_orders(all);
            lemma_sort_permutes(all);
        }
    }

    /// Whether the rules stand in descending order of priority.
    pub fn is_ordered(&self) -> (r: bool)
        ensures
            r == self.well_formed(),
    {
        let n = self.rules.len();
        if n < 2 {
            return true;
        }
        let mut i: usize = 1;
        while i < n
            invariant
                n == self.rules@.len(),
                1 <= i <= n,
                forall|a: int, b: int|
                    0 <= a < b < i ==> self.rules@[a].priority >= self.rules@[b].priority,
            decreases n - i,
        {
            if self.rules[i - 1].priority < self.rules[i].priority {
                return false;
            }
            proof {
                assert forall|a: int, b: int| 0 <= a < b < i + 1 implies self.rules@[a].priority
                    >= self.rules@[b].priority by {
                    if b == i && a < i - 1 {
                        assert(self.rules@[a].priority >= self.rules@[i - 1].priority);
                    }
                }
            }
            i += 1;
        }
        true
    }

    /// Puts a rule behind the last rule whose priority is not lower than
    /// its own.
    fn insert_in_order(&mut self, rule: Rule)
        ensures
            final(self).rules@ == insert_by_priority(old(self).rules@, rule),
            final(self).version == old(self).version,
            final(self).name == old(self).name,
            final(self).budget_per_second == old(self).budget_per_second,
    {
        proof {
            lemma_insert_by_priority(self.rules@, rule);
        }
        let mut pos: usize = self.rules.len();
        while pos > 0 && self.rules[pos - 1].priority < rule.priority
            invariant
                pos <= self.rules@.len(),
                self.rules == old(self).rules,
                insert_position(self.rules@, rule) <= pos,
                forall|k: int|
                    pos <= k < self.rules@.len() ==> (#[trigger] self.rules@[k]).priority
                        < rule.priority,
            decreases pos,
        {
            proof {
                lemma_insert_by_priority(self.rules@, rule);
                let p = insert_position(self.rules@, rule);
                if p == pos {
                    assert(self.rules@[p - 1].priority >= rule.priority);
                }
            }
            pos -= 1;
        }
        proof {
            lemma_insert_by_priority(self.rules@, rule);
            let p = insert_position(self.rules@, rule);
            if p < pos {
                assert(self.rules@[pos - 1].priority < rule.priority);
            }
            assert(p == pos);
        }
        self.rules.insert(pos, rule);
    }

    /// Whether some rule matches every trace.
    pub fn has_fallback(&self) -> (r: bool)
        ensures
            r == some_fallback(self.rules@),
    {
        let mut i: usize = 0;
        while i < self.rules.len()
            invariant
                i <= self.rules@.len(),
                forall|k: int| 0 <= k < i ==> !(#[trigger] self.rules@[k]).is_fallback(),
            decreases self.rules.len() - i,
        {
            if self.rules[i].matches_everything() {
                return true;
            }
            i += 1;
        }
        false
    }
}

} // verus!
