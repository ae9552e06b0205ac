//! Requests to a language model for a policy.

use vstd::prelude::*;
use vstd::string::StringExecFns;
use crate::corpus::{corpus_text, Corpus};
use crate::encoder::ToonEncode;
use crate::error::Error;
use crate::policy::Policy;
use crate::toon::{policy_text, serialize};

verus! {

/// Builds the text of a request for a policy.
#[derive(Debug, Clone, Copy)]
pub struct PromptBuilder<'a> {
    /// What the policy is meant to achieve.
    pub intent: Option<&'a str>,
    /// Traces for the model to look at.
    pub corpus: Option<&'a Corpus>,
    /// The policy to refine, if there is one.
    pub current_policy: Option<&'a Policy>,
}

/// The section of the request that shows the corpus.
pub open spec fn corpus_section(corpus: Option<&Corpus>) -> Seq<char> {
    match corpus {
        Some(c) => "## Trace Corpus\n\nHere are representative traces from the system:\n\n```toon\n"@
            + corpus_text(c@) + "\n```\n\n"@,
        None => Seq::empty(),
    }
}

/// The section of the request that shows the policy to refine.
pub open spec fn policy_section(policy: Option<&Policy>) -> Seq<char> {
    match policy {
        Some(p) => "## Current Policy\n\nHere is the existing policy to refine:\n\n```toon\n"@
            + policy_text(*p) + "```\n\n"@,
        None => Seq::empty(),
    }
}

/// The instructions that end every request.
pub open spec fn instructions() -> Seq<char> {
    "## Instructions\n\nGenerate a Nectar sampling policy in TOON format that achieves the stated intent.\n\nRequirements:\n1. Use TOON format with explicit counts and field headers\n2. Include a description for each rule\n3. Ensure a fallback rule exists (match: true)\n4. Order rules by priority (highest first)\n5. Never drop error traces (status >= 500)\n\nOutput only the TOON code block, nothing else.\n\n```toon\nnectar_policy{version,name,budget_per_second,rules}:\n  1\n  <policy-name>\n  <budget>\n  rules[N]{name,description,match,action,priority}:\n    <rules>\n```\n"@
}

/// The text of a request: the intent, the corpus and the current policy
/// where they are given, and the instructions.
pub open spec fn prompt_text(
    intent: Option<&str>,
    corpus: Option<&Corpus>,
    policy: Option<&Policy>,
) -> Seq<char> {
    "# Policy Generation Request\n\n## Intent\n\n"@ + (match intent {
        Some(text) => text@,
        None => "Generate a sampling policy"@,
    }) + "\n\n"@ + corpus_section(corpus) + policy_section(policy) + instructions()
}

impl<'a> PromptBuilder<'a> {
    /// Creates a builder without intent, corpus or policy.
    pub fn new() -> (b: Self)
        ensures
            b.intent is None,
            b.corpus is None,
            b.current_policy is None,
    {
        PromptBuilder { intent: None, corpus: None, current_policy: None }
    }

    /// Sets the intent.
    pub fn with_intent(self, intent: &'a str) -> (b: Self)
        ensures
            b.intent == Some(intent),
            b.corpus == self.corpus,
            b.current_policy == self.current_policy,
    {
        PromptBuilder { intent: Some(intent), ..self }
    }

    /// Sets the corpus.
    pub fn with_corpus(self, corpus: &'a Corpus) -> (b: Self)
        ensures
            b.intent == self.intent,
            b.corpus == Some(corpus),
            b.current_policy == self.current_policy,
    {
        PromptBuilder { corpus: Some(corpus), ..self }
    }

    /// Sets the policy to refine.
    pub fn with_current_policy(self, policy: Option<&'a Policy>) -> (b: Self)
        ensures
            b.intent == self.intent,
            b.corpus == self.corpus,
            b.current_policy == policy,
    {
        PromptBuilder { current_policy: policy, ..self }
    }

    /// The text of the request. Building never fails.
    pub fn build(self) -> (r: Result<String, Error>)
        ensures
            r is Ok,
            r->Ok_0@ == prompt_text(self.intent, self.corpus, self.current_policy),
    {
        let mut out = String::new();
        out.append("# Policy Generation Request\n\n## Intent\n\n");
        match self.intent {
            Some(text) => out.append(text),
            None => out.append("Generate a sampling policy"),
        }
        out.append("\n\n");
        match self.corpus {
            Some(corpus) => {
                let toon = match corpus.encode_toon() {
                    Ok(text) => text,
                    Err(e) => {
                        return Err(e);
                    },
                };
                let mut section = String::new();
                section.append(
                    "## Trace Corpus\n\nHere are representative traces from the system:\n\n```toon\n",
                );
                section.append(toon.as_str());
                section.append("\n```\n\n");
                out.append(section.as_str());
            },
            None => {
                assert(out@ + Seq::<char>::empty() == out@);
            },
        }
        match self.current_policy {
            Some(policy) => {
                let toon = serialize(policy);
                let mut section = String::new();
                section.append(
                    "## Current Policy\n\nHere is the existing policy to refine:\n\n```toon\n",
                );
                section.append(toon.as_str());
                section.append("```\n\n");
                out.append(section.as_str());
            },
            None => {
                assert(out@ + Seq::<char>::empty() == out@);
            },
        }
        out.append(
            "## Instructions\n\nGenerate a Nectar sampling policy in TOON format that achieves the stated intent.\n\nRequirements:\n1. Use TOON format with explicit counts and field headers\n2. Include a description for each rule\n3. Ensure a fallback rule exists (match: true)\n4. Order rules by priority (highest first)\n5. Never drop error traces (status >= 500)\n\nOutput only the TOON code block, nothing else.\n\n```toon\nnectar_policy{version,name,budget_per_second,rules}:\n  1\n  <policy-name>\n  <budget>\n  rules[N]{name,description,match,action,priority}:\n    <rules>\n```\n",
        );
        Ok(out)
    }
}

impl<'a> Default for PromptBuilder<'a> {
    /// A builder without intent, corpus or policy.
    fn default() -> (b: Self)
        ensures
            b.intent is None,
            b.corpus is None,
            b.current_policy is None,
    {
        PromptBuilder::new()
    }
}

} // verus!
