//! Responses of a language model that was asked for a policy.

use vstd::prelude::*;
use vstd::string::StringExecFns;
use crate::text::{
    chars_of, find_chars, find_chars_from, find_first, find_from, slice_chars, string_of,
    trim_chars, trimmed,
};

verus! {

/// A block of content in a response.
#[derive(Debug, Clone, PartialEq, Eq)]
pub enum ContentBlock {
    /// A block of text.
    Text {
        /// The text.
        text: String,
    },
}

/// Counts of the tokens of a request.
#[derive(Debug, Clone, Copy, PartialEq, Eq, Structural)]
pub struct Usage {
    /// Number of tokens read.
    pub input_tokens: u64,
    /// Number of tokens written.
    pub output_tokens: u64,
}

/// A response to a message.
#[derive(Debug, Clone, PartialEq, Eq)]
pub struct MessageResponse {
    /// Identifier of the response.
    pub id: String,
    /// The model that answered.
    pub model: String,
    /// Why the answer ended.
    pub stop_reason: Option<String>,
    /// The blocks of content.
    pub content: Vec<ContentBlock>,
    /// Counts of tokens.
    pub usage: Usage,
}

/// The text of a block.
pub open spec fn block_text(block: ContentBlock) -> Seq<char> {
    match block {
        ContentBlock::Text { text } => text@,
    }
}

/// The texts of the first `n` blocks, one after the other.
pub open spec fn joined_text(content: Seq<ContentBlock>, n: nat) -> Seq<char>
    decreases n,
{
    if n == 0 || n > content.len() {
        Seq::empty()
    } else {
        joined_text(content, (n - 1) as nat) + block_text(content[n - 1])
    }
}

/// The position behind the first line feed at or after `i`, or `i` if
/// there is none.
pub open spec fn behind_line(text: Seq<char>, i: int) -> int {
    match find_from(text, "\n"@, i) {
        Some(n) => n + 1,
        None => i,
    }
}

/// The trimmed text between `start` and the next fence at or after it,
/// if there is one.
pub open spec fn up_to_fence(text: Seq<char>, start: int) -> Option<Seq<char>> {
    match find_from(text, "```"@, start) {
        Some(end) => Some(trimmed(text.subrange(start, end))),
        None => None,
    }
}

/// The policy text that a response holds: what stands in the first fenced
/// block that is marked `toon`; if that block is not closed or there is
/// none, what stands in the first fenced block behind its first line.
pub open spec fn fenced_policy(text: Seq<char>) -> Option<Seq<char>> {
    let marked = match find_first(text, "```toon"@) {
        Some(start) => up_to_fence(text, start + 7),
        None => None,
    };
    if marked is Some {
        marked
    } else {
        match find_first(text, "```"@) {
            Some(start) => up_to_fence(text, behind_line(text, start + 3)),
            None => None,
        }
    }
}

impl MessageResponse {
    /// The text of the response: that of its blocks, one after the other.
    pub fn text(&self) -> (s: String)
        ensures
            s@ == joined_text(self.content@, self.content@.len()),
    {
        let mut out = String::new();
        let mut i: usize = 0;
        while i < self.content.len()
            invariant
                i <= self.content@.len(),
                out@ == joined_text(self.content@, i as nat),
            decreases self.content.len() - i,
        {
            match &self.content[i] {
                ContentBlock::Text { text } => out.append(text.as_str()),
            }
            i += 1;
        }
        out
    }

    /// The policy text that the response holds in a fenced block.
    pub fn extract_toon(&self) -> (r: Option<String>)
        ensures
            match fenced_policy(joined_text(self.content@, self.content@.len())) {
                Some(policy) => r is Some && r->0@ == policy,
                None => r is None,
            },
    {
        let text = self.text();
        let chars = chars_of(text.as_str());
        let chars = chars.as_slice();
        let marked = chars_of("```toon");
        let fence = chars_of("```");
        let line_feed = chars_of("\n");
        proof {
            reveal_strlit("```toon");
            reveal_strlit("```");
            reveal_strlit("\n");
        }
        let total = chars.len();
        assert(marked@.len() == 7);
        assert(fence@.len() == 3);
        assert(line_feed@.len() == 1);
        if let Some(start) = find_chars(chars, marked.as_slice()) {
            let content_start = start + 7;
            if let Some(end) = find_chars_from(chars, fence.as_slice(), content_start) {
                let inner = slice_chars(chars, content_start, end);
                let inner = trim_chars(inner.as_slice());
                return Some(string_of(inner.as_slice()));
            }
        }
        if let Some(start) = find_chars(chars, fence.as_slice()) {
            let behind = start + 3;
            let content_start = match find_chars_from(chars, line_feed.as_slice(), behind) {
                Some(n) => n + 1,
                None => behind,
            };
            if let Some(end) = find_chars_from(chars, fence.as_slice(), content_start) {
                let inner = slice_chars(chars, content_start, end);
                let inner = trim_chars(inner.as_slice());
                return Some(string_of(inner.as_slice()));
            }
        }
        None
    }
}

} // verus!
