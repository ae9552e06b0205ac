//! Lockfiles: records by which one can tell whether a policy still
//! compiles to the same output.

use vstd::prelude::*;
use vstd::string::StringExecFns;
use crate::policy::Policy;
use crate::text::{append_decimal, decimal_text, str_eq};
use crate::toon::padded_digits;

verus! {

/// Seed of the hash of contents.
pub const HASH_SEED: u64 = 0x4E45_4354_4152;

/// The 64-bit XXH64 hash of a byte string under a seed, as
/// `xxhash_rust::xxh64::xxh64` computes it.
pub uninterp spec fn xxh64_of(input: Seq<u8>, seed: u64) -> u64;

/// `xxhash_rust::xxh64::xxh64`: the XXH64 hash of the bytes under the
/// seed, which depends on nothing else.
#[verifier::external_body]
pub(crate) fn xxh64(input: &[u8], seed: u64) -> (hash: u64)
    ensures
        hash == xxh64_of(input@, seed),
{
    xxhash_rust::xxh64::xxh64(input, seed)
}

/// The character of a hexadecimal digit, in lower case.
pub open spec fn hex_char(d: int) -> char {
    if d < 10 {
        ((48 + d) as u8) as char
    } else {
        ((87 + d) as u8) as char
    }
}

/// The last `width` hexadecimal digits of `v`, with zeros in front.
pub open spec fn hex_digits(v: nat, width: nat) -> Seq<char>
    decreases width,
{
    if width == 0 {
        Seq::empty()
    } else {
        hex_digits(v / 16, (width - 1) as nat).push(hex_char((v % 16) as int))
    }
}

/// The hash of a content as it is recorded: its XXH64 hash under the
/// fixed seed in sixteen hexadecimal digits.
pub open spec fn content_hash(content: Seq<char>) -> Seq<char> {
    hex_digits(xxh64_of(vstd::utf8::encode_utf8(content), HASH_SEED) as nat, 16)
}

/// A 64-bit number in sixteen hexadecimal digits, in lower case.
pub fn hex16(v: u64) -> (s: String)
    ensures
        s@ == hex_digits(v as nat, 16),
{
    let mut reversed: Vec<char> = Vec::new();
    let mut rest: u64 = v;
    let mut k: usize = 0;
    while k < 16
        invariant
            k <= 16,
            reversed@.len() == k,
            forall|w: nat|
                #![trigger hex_digits(rest as nat, w)]
                hex_digits(v as nat, w + k as nat) == hex_digits(rest as nat, w) + Seq::new(
                    k as nat,
                    |j: int| reversed@[k - 1 - j],
                ),
        decreases 16 - k,
    {
        let d: u8 = (rest % 16) as u8;
        let c: char = if d < 10 {
            (48 + d) as char
        } else {
            (87 + d) as char
        };
        let ghost before = reversed@;
        let ghost old_rest = rest;
        reversed.push(c);
        rest = rest / 16;
        proof {
            assert forall|w: nat| #![trigger hex_digits(rest as nat, w)]
                hex_digits(v as nat, w + (k + 1) as nat) == hex_digits(rest as nat, w) + Seq::new(
                    (k + 1) as nat,
                    |j: int| reversed@[k - j],
                ) by {
                assert(hex_digits(v as nat, (w + 1) + k as nat) == hex_digits(
                    old_rest as nat,
                    w + 1,
                ) + Seq::new(k as nat, |j: int| before[k - 1 - j]));
                assert(hex_digits(old_rest as nat, w + 1) == hex_digits(rest as nat, w).push(
                    hex_char((old_rest % 16) as int),
                ));
                assert(hex_digits(rest as nat, w).push(hex_char((old_rest % 16) as int))
                    + Seq::new(k as nat, |j: int| before[k - 1 - j]) =~= hex_digits(
                    rest as nat,
                    w,
                ) + Seq::new((k + 1) as nat, |j: int| reversed@[k - j]));
            }
        }
        k += 1;
    }
    let mut out = String::new();
    let mut j: usize = 16;
    let mut digits: Vec<char> = Vec::new();
    while j > 0
        invariant
            j <= 16,
            reversed@.len() == 16,
            digits@ == Seq::new((16 - j) as nat, |i: int| reversed@[15 - i]),
        decreases j,
    {
        j -= 1;
        digits.push(reversed[j]);
        assert(digits@ =~= Seq::new((16 - j) as nat, |i: int| reversed@[15 - i]));
    }
    proof {
        assert(hex_digits(v as nat, 0 + 16) == hex_digits(rest as nat, 0) + Seq::new(
            16,
            |j: int| reversed@[15 - j],
        ));
        assert(hex_digits(rest as nat, 0) == Seq::<char>::empty());
        assert(digits@ =~= hex_digits(v as nat, 16));
    }
    crate::text::append_chars(&mut out, digits.as_slice());
    out
}

/// The hash of a content as it is recorded.
pub fn hash_content(content: &str) -> (s: String)
    ensures
        s@ == content_hash(content@),
{
    hex16(xxh64(content.as_bytes(), HASH_SEED))
}

/// Whether a year of the Gregorian calendar is a leap year.
pub open spec fn leap_year(year: int) -> bool {
    (year % 4 == 0 && year % 100 != 0) || year % 400 == 0
}

/// Whether a year is a leap year.
pub fn is_leap_year(year: u64) -> (r: bool)
    ensures
        r == leap_year(year as int),
{
    (year % 4 == 0 && year % 100 != 0) || (year % 400 == 0)
}

/// The number of days of a year.
pub open spec fn days_in_year(year: int) -> int {
    if leap_year(year) {
        366
    } else {
        365
    }
}

/// The number of days of a month, counted from 1, in a year.
pub open spec fn days_in_month(month: int, leap: bool) -> int {
    if month == 2 {
        if leap {
            29
        } else {
            28
        }
    } else if month == 4 || month == 6 || month == 9 || month == 11 {
        30
    } else {
        31
    }
}

/// The year that the day `days` days after the first of January of
/// `year` lies in.
pub open spec fn year_of(days: int, year: int) -> int
    decreases days,
{
    if days >= 0 && days >= days_in_year(year) {
        year_of(days - days_in_year(year), year + 1)
    } else {
        year
    }
}

/// The days that the day `days` days after the first of January of `year`
/// lies after the first of January of its own year.
pub open spec fn day_in_year(days: int, year: int) -> int
    decreases days,
{
    if days >= 0 && days >= days_in_year(year) {
        day_in_year(days - days_in_year(year), year + 1)
    } else {
        days
    }
}

/// The month that the day `days` days after the first of the month
/// `month` lies in.
pub open spec fn month_of(days: int, month: int, leap: bool) -> int
    decreases 12 - month,
{
    if 1 <= month < 12 && days >= days_in_month(month, leap) {
        month_of(days - days_in_month(month, leap), month + 1, leap)
    } else {
        month
    }
}

/// The day of its month, counted from 1, of the day `days` days after the
/// first of the month `month`.
pub open spec fn day_of_month(days: int, month: int, leap: bool) -> int
    decreases 12 - month,
{
    if 1 <= month < 12 && days >= days_in_month(month, leap) {
        day_of_month(days - days_in_month(month, leap), month + 1, leap)
    } else {
        days + 1
    }
}

/// A day of the calendar.
pub struct Date {
    pub year: u64,
    pub month: u32,
    pub day: u32,
}

/// The day of the Gregorian calendar that lies `days` days after the
/// first of January 1970.
pub open spec fn date_of(days: int) -> Date {
    let year = year_of(days, 1970);
    let rest = day_in_year(days, 1970);
    Date {
        year: year as u64,
        month: month_of(rest, 1, leap_year(year)) as u32,
        day: day_of_month(rest, 1, leap_year(year)) as u32,
    }
}

/// The day of the calendar that lies the given number of days after the
/// first of January 1970.
pub fn days_to_ymd(days: u64) -> (date: Date)
    ensures
        date == date_of(days as int),
        1 <= date.month <= 12,
        1 <= date.day <= 31,
        1970 <= date.year <= 1970 + days,
{
    let mut remaining: u64 = days;
    let mut year: u64 = 1970;
    loop
        invariant
            remaining <= days,
            1970 <= year,
            (year - 1970) * 365 <= days - remaining,
            year_of(remaining as int, year as int) == year_of(days as int, 1970),
            day_in_year(remaining as int, year as int) == day_in_year(days as int, 1970),
        ensures
            remaining < days_in_year(year as int),
        decreases remaining,
    {
        let in_year: u64 = if is_leap_year(year) {
            366
        } else {
            365
        };
        if remaining < in_year {
            break ;
        }
        remaining = remaining - in_year;
        year = year + 1;
    }
    let leap = is_leap_year(year);
    let ghost rest = remaining as int;
    let mut month: u32 = 1;
    let mut budget: u64 = if leap {
        366
    } else {
        365
    };
    proof {
        reveal_with_fuel(days_left, 14);
    }
    loop
        invariant
            1 <= month <= 12,
            leap == leap_year(year as int),
            remaining < budget,
            budget == days_left(month as int, leap),
            month_of(remaining as int, month as int, leap) == month_of(rest, 1, leap),
            day_of_month(remaining as int, month as int, leap) == day_of_month(rest, 1, leap),
        ensures
            remaining < days_in_month(month as int, leap),
        decreases 12 - month,
    {
        let in_month: u64 = if month == 2 {
            if leap {
                29
            } else {
                28
            }
        } else if month == 4 || month == 6 || month == 9 || month == 11 {
            30
        } else {
            31
        };
        proof {
            reveal_with_fuel(days_left, 3);
        }
        if month == 12 || remaining < in_month {
            break ;
        }
        remaining = remaining - in_month;
        budget = budget - in_month;
        month = month + 1;
    }
    proof {
        reveal_with_fuel(days_left, 3);
    }
    Date { year, month, day: (remaining + 1) as u32 }
}

/// The days from the first of the month `month` to the end of the year.
pub open spec fn days_left(month: int, leap: bool) -> int
    decreases 13 - month,
{
    if month < 1 || month > 12 {
        0
    } else {
        days_in_month(month, leap) + days_left(month + 1, leap)
    }
}

/// A time in seconds since the Unix epoch as a time stamp in UTC:
/// `YYYY-MM-DDTHH:MM:SSZ`.
pub open spec fn timestamp_text(seconds: u64) -> Seq<char> {
    let date = date_of(seconds as int / 86_400);
    let in_day = seconds as nat % 86_400;
    decimal_text(date.year as nat) + "-"@ + padded_digits(date.month as nat, 2) + "-"@
        + padded_digits(date.day as nat, 2) + "T"@ + padded_digits(in_day / 3600, 2) + ":"@
        + padded_digits((in_day % 3600) / 60, 2) + ":"@ + padded_digits(in_day % 60, 2) + "Z"@
}

/// Appends a number below 100 in two digits.
fn append_two_digits(out: &mut String, v: u64)
    requires
        v < 100,
    ensures
        final(out)@ == old(out)@ + padded_digits(v as nat, 2),
{
    let mut digits: Vec<char> = Vec::new();
    digits.push((48 + (v / 10) as u8) as char);
    digits.push((48 + (v % 10) as u8) as char);
    proof {
        reveal_with_fuel(padded_digits, 3);
        assert(digits@ =~= padded_digits(v as nat, 2));
    }
    crate::text::append_chars(out, digits.as_slice());
}

/// A time in seconds since the Unix epoch as a time stamp in UTC.
pub fn format_timestamp(seconds: u64) -> (s: String)
    ensures
        s@ == timestamp_text(seconds),
{
    let days = seconds / 86_400;
    let in_day = seconds % 86_400;
    let date = days_to_ymd(days);
    let mut out = String::new();
    append_decimal(&mut out, date.year as u128);
    out.append("-");
    append_two_digits(&mut out, date.month as u64);
    out.append("-");
    append_two_digits(&mut out, date.day as u64);
    out.append("T");
    append_two_digits(&mut out, in_day / 3600);
    out.append(":");
    append_two_digits(&mut out, (in_day % 3600) / 60);
    out.append(":");
    append_two_digits(&mut out, in_day % 60);
    out.append("Z");
    out
}

/// A lockfile of a policy.
#[derive(Debug, Clone, PartialEq, Eq)]
pub struct Lockfile {
    /// Version of the lockfile format.
    pub version: u32,
    /// Hash of the source of the policy.
    pub source_hash: String,
    /// Hash of the compiled output.
    pub compiled_hash: String,
    /// Name of the policy.
    pub policy_name: String,
    /// Number of rules of the policy.
    pub rule_count: usize,
    /// When the lock was made, as a time stamp in UTC.
    pub created_at: Option<String>,
}

impl Lockfile {
    /// Creates the lockfile of a policy with its source and its compiled
    /// output.
    pub fn new(policy: &Policy, source_toon: &str, compiled_output: &str) -> (l: Self)
        ensures
            l.version == 1,
            l.source_hash@ == content_hash(source_toon@),
            l.compiled_hash@ == content_hash(compiled_output@),
            l.policy_name@ == policy.name@,
            l.rule_count == policy.rules@.len(),
            l.created_at is None,
    {
        Lockfile {
            version: 1,
            source_hash: hash_content(source_toon),
            compiled_hash: hash_content(compiled_output),
            policy_name: policy.name.clone(),
            rule_count: policy.rules.len(),
            created_at: None,
        }
    }

    /// Sets the time at which the lock was made, given in seconds since
    /// the Unix epoch.
    pub fn with_timestamp(self, unix_seconds: u64) -> (l: Self)
        ensures
            l.created_at is Some,
            l.created_at->0@ == timestamp_text(unix_seconds),
            l == (Lockfile { created_at: l.created_at, ..self }),
    {
        let mut lockfile = self;
        lockfile.created_at = Some(format_timestamp(unix_seconds));
        lockfile
    }

    /// Whether source and compiled output both have the recorded hashes.
    pub fn verify(&self, source_toon: &str, compiled_output: &str) -> (r: bool)
        ensures
            r == (self.source_hash@ == content_hash(source_toon@) && self.compiled_hash@
                == content_hash(compiled_output@)),
    {
        let source_matches = str_eq(self.source_hash.as_str(), hash_content(source_toon).as_str());
        let compiled_matches = str_eq(
            self.compiled_hash.as_str(),
            hash_content(compiled_output).as_str(),
        );
        source_matches && compiled_matches
    }

    /// Whether the source has the recorded hash.
    pub fn verify_source(&self, source_toon: &str) -> (r: bool)
        ensures
            r == (self.source_hash@ == content_hash(source_toon@)),
    {
        str_eq(self.source_hash.as_str(), hash_content(source_toon).as_str())
    }

    /// Whether the compiled output has the recorded hash.
    pub fn verify_compiled(&self, compiled_output: &str) -> (r: bool)
        ensures
            r == (self.compiled_hash@ == content_hash(compiled_output@)),
    {
        str_eq(self.compiled_hash.as_str(), hash_content(compiled_output).as_str())
    }
}

} // verus!
