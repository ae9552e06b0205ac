//! Encoding of values for the tabular text format of corpora.

use vstd::prelude::*;
use crate::error::Error;
use crate::text::{chars_of, string_of};

verus! {

/// Something that can be written in the tabular text format.
pub trait ToonEncode {
    /// The value in the tabular text format.
    fn encode_toon(&self) -> Result<String, Error>;
}

/// Whether a value has to be quoted: it holds a comma, a line feed or a
/// double quote.
pub open spec fn needs_quotes(s: Seq<char>) -> bool {
    exists|i: int| 0 <= i < s.len() && (#[trigger] s[i] == ',' || s[i] == '\n' || s[i] == '"')
}

/// The text with a backslash before each double quote.
pub open spec fn quotes_escaped(s: Seq<char>) -> Seq<char>
    decreases s.len(),
{
    if s.len() == 0 {
        s
    } else if s.last() == '"' {
        quotes_escaped(s.drop_last()).push('\\').push('"')
    } else {
        quotes_escaped(s.drop_last()).push(s.last())
    }
}

/// A value as it is written: as it stands, or in double quotes with its
/// own double quotes escaped if it has to be quoted.
pub open spec fn escaped(s: Seq<char>) -> Seq<char> {
    if needs_quotes(s) {
        seq!['"'] + quotes_escaped(s) + seq!['"']
    } else {
        s
    }
}

/// Escapes a value for the tabular text format.
pub fn escape_value(s: &str) -> (r: String)
    ensures
        r@ == escaped(s@),
{
    let chars = chars_of(s);
    let n = chars.len();
    let mut quoted = false;
    let mut body: Vec<char> = Vec::new();
    let mut i: usize = 0;
    while i < n
        invariant
            n == chars@.len(),
            i <= n,
            quoted == needs_quotes(chars@.subrange(0, i as int)),
            body@ == quotes_escaped(chars@.subrange(0, i as int)),
        decreases n - i,
    {
        let c = chars[i];
        let ghost before = chars@.subrange(0, i as int);
        let ghost now = chars@.subrange(0, i as int + 1);
        proof {
            assert(now.drop_last() == before);
            assert(now.last() == c);
            if needs_quotes(before) {
                let k = choose|k: int|
                    0 <= k < before.len() && (#[trigger] before[k] == ',' || before[k] == '\n'
                        || before[k] == '"');
                assert(now[k] == before[k]);
            }
            if needs_quotes(now) && !(c == ',' || c == '\n' || c == '"') {
                let k = choose|k: int|
                    0 <= k < now.len() && (#[trigger] now[k] == ',' || now[k] == '\n' || now[k]
                        == '"');
                assert(before[k] == now[k]);
            }
            if c == ',' || c == '\n' || c == '"' {
                assert(now[i as int] == c);
            }
        }
        if c == ',' || c == '\n' || c == '"' {
            quoted = true;
        }
        if c == '"' {
            body.push('\\');
            body.push('"');
        } else {
            body.push(c);
        }
        i += 1;
    }
    assert(chars@.subrange(0, n as int) == chars@);
    if quoted {
        let mut out: Vec<char> = Vec::new();
        out.push('"');
        let mut k: usize = 0;
        while k < body.len()
            invariant
                k <= body@.len(),
                out@ == seq!['"'] + body@.subrange(0, k as int),
            decreases body.len() - k,
        {
            out.push(body[k]);
            assert(body@.subrange(0, k as int + 1) == body@.subrange(0, k as int).push(
                body@[k as int],
            ));
            k += 1;
        }
        assert(body@.subrange(0, body@.len() as int) == body@);
        out.push('"');
        assert(out@ == seq!['"'] + body@ + seq!['"']);
        string_of(out.as_slice())
    } else {
        s.to_owned()
    }
}

} // verus!
