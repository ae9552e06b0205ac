//! Number literals: integers, decimals and durations as they are written
//! in match expressions.
//!
//! A decimal is read exactly to six places after the point; further digits
//! are dropped.

use vstd::prelude::*;
use crate::text::{chars_of, ends_with_chars, has_suffix, slice_chars, trim_chars, trimmed};

verus! {

/// Whether `c` is one of `0` to `9`.
pub open spec fn is_digit(c: char) -> bool {
    '0' <= c <= '9'
}

/// The number that a digit stands for.
pub open spec fn digit_value(c: char) -> nat {
    (c as u32 - 48) as nat
}

/// Whether every character is a digit.
pub open spec fn all_digits(s: Seq<char>) -> bool {
    forall|i: int| 0 <= i < s.len() ==> is_digit(#[trigger] s[i])
}

/// The number that a run of digits stands for; 0 for the empty run.
pub open spec fn digits_value(s: Seq<char>) -> nat
    decreases s.len(),
{
    if s.len() == 0 {
        0
    } else {
        digits_value(s.drop_last()) * 10 + digit_value(s.last())
    }
}

/// Numbers are tracked exactly up to this bound, which lies above every
/// bound that a literal is held against.
pub open spec fn tracking_limit() -> nat {
    1_000_000_000_000_000_000_000_000_000_000
}

/// `v`, or the tracking limit if `v` lies above it.
pub open spec fn capped(v: nat) -> nat {
    if v > tracking_limit() {
        tracking_limit()
    } else {
        v
    }
}

/// The text behind an optional leading `+`.
pub open spec fn without_plus(t: Seq<char>) -> Seq<char> {
    if t.len() > 0 && t[0] == '+' {
        t.drop_first()
    } else {
        t
    }
}

/// The number that an unsigned integer literal stands for: an optional
/// `+` and at least one digit.
pub open spec fn unsigned_of(t: Seq<char>) -> Option<nat> {
    let digits = without_plus(t);
    if digits.len() > 0 && all_digits(digits) {
        Some(digits_value(digits))
    } else {
        None
    }
}

/// The number that an integer literal stands for: an optional sign and at
/// least one digit.
pub open spec fn integer_of(t: Seq<char>) -> Option<int> {
    if t.len() > 0 && t[0] == '-' {
        let digits = t.drop_first();
        if digits.len() > 0 && all_digits(digits) {
            Some(-(digits_value(digits) as int))
        } else {
            None
        }
    } else {
        match unsigned_of(t) {
            Some(v) => Some(v as int),
            None => None,
        }
    }
}

/// The position of the first `.` at or after `i`, or the length.
pub open spec fn point_from(t: Seq<char>, i: int) -> int
    decreases t.len() - i,
{
    if i < 0 || i >= t.len() || t[i] == '.' {
        i
    } else {
        point_from(t, i + 1)
    }
}

/// The digits after the point, as millionths: the first six count, missing
/// ones are zeros.
pub open spec fn fraction_micros(frac: Seq<char>) -> nat {
    if frac.len() >= 6 {
        digits_value(frac.subrange(0, 6))
    } else {
        digits_value(frac) * pow10((6 - frac.len()) as nat)
    }
}

/// Ten to the power `n`.
pub open spec fn pow10(n: nat) -> nat
    decreases n,
{
    if n == 0 {
        1
    } else {
        10 * pow10((n - 1) as nat)
    }
}

/// The millionths that an unsigned decimal literal stands for: digits, then
/// optionally a point and digits, with at least one digit in all.
pub open spec fn unsigned_micros(t: Seq<char>) -> Option<nat> {
    let point = point_from(t, 0);
    let whole = t.subrange(0, point);
    let frac = if point < t.len() {
        t.subrange(point + 1, t.len() as int)
    } else {
        Seq::empty()
    };
    if all_digits(whole) && all_digits(frac) && whole.len() + frac.len() > 0 {
        Some(digits_value(whole) * 1_000_000 + fraction_micros(frac))
    } else {
        None
    }
}

/// The millionths that a decimal literal with an optional sign stands for.
pub open spec fn micros_of(t: Seq<char>) -> Option<int> {
    if t.len() > 0 && t[0] == '-' {
        match unsigned_micros(t.drop_first()) {
            Some(v) => Some(-(v as int)),
            None => None,
        }
    } else {
        match unsigned_micros(without_plus(t)) {
            Some(v) => Some(v as int),
            None => None,
        }
    }
}

/// `v` as a count that fits 64 bits: negative numbers count as 0, numbers
/// above the range as the highest count.
pub open spec fn saturated(v: int) -> u64 {
    if v < 0 {
        0
    } else if v > u64::MAX {
        u64::MAX
    } else {
        v as u64
    }
}

/// The milliseconds that a duration literal stands for: whole milliseconds
/// before `ms`, decimal seconds before `s`, decimal minutes before `m`.
/// The first suffix that fits decides.
pub open spec fn duration_of(t: Seq<char>) -> Option<u64> {
    if has_suffix(t, "ms"@) {
        match unsigned_of(trimmed(t.subrange(0, t.len() - 2))) {
            Some(v) if v <= u64::MAX => Some(v as u64),
            _ => None,
        }
    } else if has_suffix(t, "s"@) {
        match micros_of(trimmed(t.subrange(0, t.len() - 1))) {
            Some(v) => Some(saturated(v / 1000)),
            None => None,
        }
    } else if has_suffix(t, "m"@) {
        match micros_of(trimmed(t.subrange(0, t.len() - 1))) {
            Some(v) => Some(saturated((v * 6) / 100)),
            None => None,
        }
    } else {
        None
    }
}

/// Appending a digit multiplies the value by ten and adds the digit.
pub proof fn lemma_digits_push(s: Seq<char>, c: char)
    ensures
        digits_value(s.push(c)) == digits_value(s) * 10 + digit_value(c),
{
    assert(s.push(c).drop_last() == s);
}

/// Reads a run of digits: whether all are digits, and their value up to
/// the tracking limit.
pub fn read_digits(s: &[char]) -> (r: (bool, u128))
    ensures
        r.0 == all_digits(s@),
        r.0 ==> r.1 == capped(digits_value(s@)),
{
    let mut v: u128 = 0;
    let mut i: usize = 0;
    while i < s.len()
        invariant
            i <= s.len(),
            all_digits(s@.subrange(0, i as int)),
            v == capped(digits_value(s@.subrange(0, i as int))),
        decreases s.len() - i,
    {
        let c = s[i];
        if !('0' <= c && c <= '9') {
            return (false, 0);
        }
        let d: u128 = (c as u32 - 48) as u128;
        proof {
            lemma_digits_push(s@.subrange(0, i as int), c);
            assert(s@.subrange(0, i as int + 1) == s@.subrange(0, i as int).push(c));
            assert forall|k: int| 0 <= k < i + 1 implies is_digit(
                #[trigger] s@.subrange(0, i as int + 1)[k],
            ) by {
                if k < i {
                    assert(s@.subrange(0, i as int)[k] == s@[k]);
                }
            }
        }
        v = v * 10 + d;
        if v > 1_000_000_000_000_000_000_000_000_000_000 {
            v = 1_000_000_000_000_000_000_000_000_000_000;
        }
        i += 1;
    }
    assert(s@.subrange(0, s@.len() as int) == s@);
    (true, v)
}

/// Reads an unsigned integer literal that fits 64 bits.
pub fn parse_u64(t: &[char]) -> (r: Option<u64>)
    ensures
        r == match unsigned_of(t@) {
            Some(v) if v <= u64::MAX => Some(v as u64),
            _ => None,
        },
{
    let start: usize = if t.len() > 0 && t[0] == '+' {
        1
    } else {
        0
    };
    let digits = slice_chars(t, start, t.len());
    assert(digits@ == without_plus(t@));
    if digits.len() == 0 {
        return None;
    }
    let (valid, v) = read_digits(digits.as_slice());
    if valid && v <= u64::MAX as u128 {
        Some(v as u64)
    } else {
        None
    }
}

/// Reads an integer literal that fits a signed 64-bit number.
pub fn parse_i64(t: &[char]) -> (r: Option<i64>)
    ensures
        r == match integer_of(t@) {
            Some(v) if i64::MIN <= v <= i64::MAX => Some(v as i64),
            _ => None,
        },
{
    let negative = t.len() > 0 && t[0] == '-';
    let start: usize = if t.len() > 0 && (t[0] == '-' || t[0] == '+') {
        1
    } else {
        0
    };
    let digits = slice_chars(t, start, t.len());
    proof {
        if negative {
            assert(digits@ == t@.drop_first());
        } else {
            assert(digits@ == without_plus(t@));
        }
    }
    if digits.len() == 0 {
        return None;
    }
    let (valid, v) = read_digits(digits.as_slice());
    if !valid {
        return None;
    }
    if negative {
        if v <= 9_223_372_036_854_775_808 {
            Some((-(v as i128)) as i64)
        } else {
            None
        }
    } else {
        if v <= 9_223_372_036_854_775_807 {
            Some(v as i64)
        } else {
            None
        }
    }
}

/// Millionths are tracked exactly below this bound.
pub open spec fn micros_limit() -> nat {
    tracking_limit() * 1_000_000
}

/// A run of `n` digits is worth less than ten to the `n`.
pub proof fn lemma_digits_bound(s: Seq<char>)
    requires
        all_digits(s),
    ensures
        digits_value(s) < pow10(s.len()),
    decreases s.len(),
{
    if s.len() > 0 {
        assert(all_digits(s.drop_last())) by {
            assert forall|i: int| 0 <= i < s.drop_last().len() implies is_digit(
                #[trigger] s.drop_last()[i],
            ) by {
                assert(s.drop_last()[i] == s[i]);
            }
        }
        lemma_digits_bound(s.drop_last());
        assert(is_digit(s[s.len() - 1]));
    }
}

/// Ten to the power `n`, for at most six.
fn pow10_small(n: usize) -> (r: u128)
    requires
        n <= 6,
    ensures
        r == pow10(n as nat),
        r <= 1_000_000,
{
    reveal_with_fuel(pow10, 8);
    if n == 0 {
        1
    } else if n == 1 {
        10
    } else if n == 2 {
        100
    } else if n == 3 {
        1_000
    } else if n == 4 {
        10_000
    } else if n == 5 {
        100_000
    } else {
        1_000_000
    }
}

/// Reads an unsigned decimal literal in millionths: exactly below the
/// tracking bound, and not below the bound otherwise.
fn read_unsigned_micros(t: &[char]) -> (r: Option<u128>)
    ensures
        unsigned_micros(t@) is Some <==> r is Some,
        r is Some ==> (if unsigned_micros(t@)->0 < micros_limit() {
            r->0 == unsigned_micros(t@)->0
        } else {
            micros_limit() <= r->0
        }),
        r is Some ==> r->0 <= micros_limit() + 999_999,
{
    let n = t.len();
    let mut point: usize = 0;
    while point < n && t[point] != '.'
        invariant
            n == t.len(),
            point <= n,
            point_from(t@, point as int) == point_from(t@, 0),
        decreases n - point,
    {
        point += 1;
    }
    let whole = slice_chars(t, 0, point);
    let frac = if point < n {
        slice_chars(t, point + 1, n)
    } else {
        Vec::new()
    };
    assert(frac@ == if point < n {
        t@.subrange(point + 1, n as int)
    } else {
        Seq::<char>::empty()
    });
    let (whole_ok, whole_value) = read_digits(whole.as_slice());
    let (frac_ok, _) = read_digits(frac.as_slice());
    if !whole_ok || !frac_ok || (whole.len() == 0 && frac.len() == 0) {
        return None;
    }
    let frac_micros: u128 = if frac.len() >= 6 {
        let head = slice_chars(frac.as_slice(), 0, 6);
        let (_, v) = read_digits(head.as_slice());
        proof {
            assert(all_digits(head@)) by {
                assert forall|i: int| 0 <= i < head@.len() implies is_digit(#[trigger] head@[i]) by {
                    assert(head@[i] == frac@[i]);
                }
            }
            lemma_digits_bound(head@);
            reveal_with_fuel(pow10, 8);
        }
        v
    } else {
        let (_, v) = read_digits(frac.as_slice());
        let scale = pow10_small(6 - frac.len());
        proof {
            lemma_digits_bound(frac@);
            reveal_with_fuel(pow10, 8);
            assert(v * scale < 1_000_000) by {
                lemma_pow10_split(frac@.len(), (6 - frac@.len()) as nat);
                assert(v * scale < pow10(frac@.len()) * scale) by (nonlinear_arith)
                    requires
                        v < pow10(frac@.len()),
                        scale > 0,
                ;
            }
        }
        v * scale
    };
    assert(frac_micros == fraction_micros(frac@));
    assert(frac_micros <= 999_999);
    proof {
        let w = digits_value(whole@);
        if w < tracking_limit() {
            assert(w * 1_000_000 + frac_micros < tracking_limit() * 1_000_000) by (nonlinear_arith)
                requires
                    w < tracking_limit(),
                    frac_micros <= 999_999,
            ;
        } else {
            assert(w * 1_000_000 + frac_micros >= tracking_limit() * 1_000_000) by (nonlinear_arith)
                requires
                    w >= tracking_limit(),
            ;
        }
    }
    Some(whole_value * 1_000_000 + frac_micros)
}

/// Powers of ten multiply by adding exponents, and none is zero.
pub proof fn lemma_pow10_split(a: nat, b: nat)
    ensures
        pow10(a) * pow10(b) == pow10(a + b),
        pow10(a) > 0,
    decreases a,
{
    if a > 0 {
        let a1 = (a - 1) as nat;
        lemma_pow10_split(a1, b);
        assert(pow10(a) == 10 * pow10(a1));
        assert(pow10(a + b) == 10 * pow10((a + b - 1) as nat));
        assert((a + b - 1) as nat == a1 + b);
        assert(10 * pow10(a1) * pow10(b) == 10 * (pow10(a1) * pow10(b))) by (nonlinear_arith);
    } else {
        assert(pow10(0) == 1);
        assert(1 * pow10(b) == pow10(b));
    }
}

/// A decimal literal as it was read: its sign and its magnitude in
/// millionths.
struct SignedMicros {
    negative: bool,
    magnitude: u128,
}

/// Reads a decimal literal with an optional sign: whether it is negative,
/// and its magnitude in millionths as [`read_unsigned_micros`] gives it.
fn read_micros(t: &[char]) -> (r: Option<SignedMicros>)
    ensures
        micros_of(t@) is Some <==> r is Some,
        r is Some ==> r->0.magnitude <= micros_limit() + 999_999,
        r is Some ==> ({
            let v = micros_of(t@)->0;
            let magnitude = if v < 0 {
                -v
            } else {
                v
            };
            &&& (v < 0 ==> r->0.negative)
            &&& (r->0.negative ==> v <= 0)
            &&& if magnitude < micros_limit() {
                r->0.magnitude == magnitude
            } else {
                micros_limit() <= r->0.magnitude
            }
        }),
{
    let negative = t.len() > 0 && t[0] == '-';
    let start: usize = if t.len() > 0 && (t[0] == '-' || t[0] == '+') {
        1
    } else {
        0
    };
    let body = slice_chars(t, start, t.len());
    proof {
        if negative {
            assert(body@ == t@.drop_first());
        } else {
            assert(body@ == without_plus(t@));
        }
    }
    match read_unsigned_micros(body.as_slice()) {
        Some(v) => Some(SignedMicros { negative, magnitude: v }),
        None => None,
    }
}

/// Reads a decimal literal in millionths that fits a signed 64-bit number.
pub fn parse_decimal(t: &[char]) -> (r: Option<i64>)
    ensures
        r == match micros_of(t@) {
            Some(v) if i64::MIN <= v <= i64::MAX => Some(v as i64),
            _ => None,
        },
{
    match read_micros(t) {
        Some(SignedMicros { negative, magnitude }) => {
            if negative {
                if magnitude <= 9_223_372_036_854_775_808 {
                    Some((-(magnitude as i128)) as i64)
                } else {
                    None
                }
            } else {
                if magnitude <= 9_223_372_036_854_775_807 {
                    Some(magnitude as i64)
                } else {
                    None
                }
            }
        },
        None => None,
    }
}

/// Reads a duration literal such as `100ms`, `5s` or `1.5m`, in
/// milliseconds.
pub fn parse_duration_value(t: &[char]) -> (r: Option<u64>)
    ensures
        r == duration_of(t@),
{
    let ms = chars_of("ms");
    let s = chars_of("s");
    let m = chars_of("m");
    proof {
        reveal_strlit("ms");
        reveal_strlit("s");
        reveal_strlit("m");
    }
    if ends_with_chars(t, ms.as_slice()) {
        let head = slice_chars(t, 0, t.len() - 2);
        let number = trim_chars(head.as_slice());
        return parse_u64(number.as_slice());
    }
    let scale_seconds = ends_with_chars(t, s.as_slice());
    if scale_seconds || ends_with_chars(t, m.as_slice()) {
        let head = slice_chars(t, 0, t.len() - 1);
        let number = trim_chars(head.as_slice());
        return match read_micros(number.as_slice()) {
            Some(SignedMicros { negative, magnitude }) => {
                let scaled: u128 = if scale_seconds {
                    magnitude / 1000
                } else {
                    (magnitude * 6) / 100
                };
                proof {
                    let v = micros_of(number@)->0;
                    if v < 0 {
                        if scale_seconds {
                            assert(v / 1000 < 0);
                        } else {
                            assert((v * 6) / 100 < 0);
                        }
                    }
                }
                if negative {
                    Some(0)
                } else if scaled > u64::MAX as u128 {
                    Some(u64::MAX)
                } else {
                    Some(scaled as u64)
                }
            },
            None => None,
        };
    }
    None
}

/// Whether `key` stands for `v` in comparisons with numbers whose
/// magnitude lies below the tracking bound: it equals `v` where `v` lies
/// below the bound, and lies beyond the bound on the same side otherwise.
pub open spec fn tracks(key: i128, v: int) -> bool {
    if -micros_limit() < v < micros_limit() {
        key == v
    } else if v > 0 {
        key >= micros_limit()
    } else {
        key <= -micros_limit()
    }
}

/// Reads a decimal literal in millionths for comparison.
pub fn read_comparable(t: &[char]) -> (r: Option<i128>)
    ensures
        micros_of(t@) is Some <==> r is Some,
        r is Some ==> tracks(r->0, micros_of(t@)->0),
{
    match read_micros(t) {
        Some(SignedMicros { negative, magnitude }) => {
            if negative {
                Some(-(magnitude as i128))
            } else {
                Some(magnitude as i128)
            }
        },
        None => None,
    }
}

} // verus!
