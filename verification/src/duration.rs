//! Reload intervals: a text such as `1h30m` names a number of seconds.
//!
//! The text is searched for tokens, each a run of digits followed by one unit
//! letter. A token stands for its count times the seconds of its unit, and
//! the interval is the sum of its tokens. Text between tokens is ignored.

use crate::errors::Error;
use crate::text::chars_of;
use vstd::prelude::*;
use vstd::string::StrSliceExecFns;
use vstd::string::StringExecFns;

verus! {

/// The regular expression that picks the tokens of a reload interval out of
/// its text: a run of digits and, right after it, one unit letter. It takes
/// the digits of every script; a count is written with `0` to `9` alone, so
/// a token with other digits is found and then refused.
pub const DURATION_PATTERN: &'static str = r"\d+[smhd]";

/// What `regex` finds of `pattern` in `text`: `None` where `pattern` is no
/// regular expression that `regex::Regex::new` accepts, else the substrings
/// that `regex::Regex::find_iter` yields, from left to right.
pub uninterp spec fn pattern_matches(pattern: Seq<char>, text: Seq<char>) -> Option<Seq<Seq<char>>>;

/// Compiles `pattern` with `regex::Regex::new` and collects the matches of
/// `regex::Regex::find_iter` in `text`, each as the substring that
/// `regex::Match::as_str` gives. Believed, not proved: the outcome depends
/// on `pattern` and `text` alone, so that `pattern_matches` names it, and
/// `DURATION_PATTERN` compiles.
#[verifier::external_body]
fn find_matches(pattern: &str, text: &str) -> (found: Option<Vec<String>>)
    ensures
        found.deep_view() == pattern_matches(pattern@, text@),
        pattern@ == DURATION_PATTERN@ ==> found is Some,
{
    match regex::Regex::new(pattern) {
        Ok(re) => Some(re.find_iter(text).map(|m| m.as_str().to_owned()).collect()),
        Err(_) => None,
    }
}

/// The tokens of a reload interval given as `text`.
pub open spec fn duration_tokens(text: Seq<char>) -> Seq<Seq<char>> {
    pattern_matches(DURATION_PATTERN@, text).unwrap()
}

/// The seconds in one `unit`: second, minute, hour or day.
pub open spec fn unit_seconds(unit: char) -> Option<u64> {
    if unit == 's' {
        Some(1)
    } else if unit == 'm' {
        Some(60)
    } else if unit == 'h' {
        Some(3600)
    } else if unit == 'd' {
        Some(86400)
    } else {
        None
    }
}

/// Whether `c` is one of the digits `0` to `9`.
pub open spec fn is_digit(c: char) -> bool {
    0x30 <= c as u32 <= 0x39
}

/// The number that the digit `c` stands for.
pub open spec fn digit_value(c: char) -> nat {
    (c as u32 - 0x30) as nat
}

/// Whether `s` holds digits only.
pub open spec fn all_digits(s: Seq<char>) -> bool {
    forall|i: int| 0 <= i < s.len() ==> is_digit(#[trigger] s[i])
}

/// The number that `digits` writes in base ten.
pub open spec fn decimal(digits: Seq<char>) -> nat
    decreases digits.len(),
{
    if digits.len() == 0 {
        0
    } else {
        10 * decimal(digits.drop_last()) + digit_value(digits.last())
    }
}

/// The count that `digits` stands for: they are one or more digits, and the
/// number they write fits in 64 bits.
pub open spec fn quantity(digits: Seq<char>) -> Option<u64> {
    if digits.len() > 0 && all_digits(digits) && decimal(digits) <= u64::MAX {
        Some(decimal(digits) as u64)
    } else {
        None
    }
}

/// The seconds that `token` stands for: the count before its last character
/// times the seconds of the unit that the last character names.
pub open spec fn token_value(token: Seq<char>) -> Option<nat> {
    if token.len() == 0 {
        None
    } else {
        match (unit_seconds(token.last()), quantity(token.drop_last())) {
            (Some(unit), Some(count)) => Some((unit * count) as nat),
            _ => None,
        }
    }
}

/// The seconds that `tokens` stand for together: the sum of their values,
/// provided each of them has one.
pub open spec fn total_value(tokens: Seq<Seq<char>>) -> Option<nat>
    decreases tokens.len(),
{
    if tokens.len() == 0 {
        Some(0)
    } else {
        match (total_value(tokens.drop_last()), token_value(tokens.last())) {
            (Some(sum), Some(value)) => Some(sum + value),
            _ => None,
        }
    }
}

/// `value` as a number of seconds that a configuration can hold.
pub open spec fn in_range(value: Option<nat>) -> Option<u64> {
    match value {
        Some(seconds) if seconds <= u64::MAX => Some(seconds as u64),
        _ => None,
    }
}

/// The message of the error for a reload interval that names no number of
/// seconds.
pub open spec fn invalid_duration_message() -> Seq<char> {
    "Invalid value for duration"@
}

/// The outcome of reading a reload interval from its `tokens`.
pub open spec fn interval_of(tokens: Seq<Seq<char>>) -> Result<u64, Seq<char>> {
    match in_range(total_value(tokens)) {
        Some(seconds) => Ok(seconds),
        None => Err(invalid_duration_message()),
    }
}

/// A longer run of digits writes no smaller number.
proof fn lemma_decimal_prefix(digits: Seq<char>, k: int)
    requires
        0 <= k <= digits.len(),
    ensures
        decimal(digits.take(k)) <= decimal(digits),
    decreases digits.len(),
{
    if k == digits.len() {
        assert(digits.take(k) == digits);
    } else {
        lemma_decimal_prefix(digits.drop_last(), k);
        assert(digits.drop_last().take(k) == digits.take(k));
    }
}

/// Tokens that have a total have one up to every point, and it is no larger.
proof fn lemma_total_value_prefix(tokens: Seq<Seq<char>>, k: int)
    requires
        0 <= k <= tokens.len(),
        total_value(tokens) is Some,
    ensures
        total_value(tokens.take(k)) is Some,
        total_value(tokens.take(k))->0 <= total_value(tokens)->0,
    decreases tokens.len(),
{
    if k == tokens.len() {
        assert(tokens.take(k) == tokens);
    } else {
        lemma_total_value_prefix(tokens.drop_last(), k);
        assert(tokens.drop_last().take(k) == tokens.take(k));
    }
}

/// Where nothing is found in the text, the interval is zero seconds.
pub proof fn lemma_no_tokens_is_zero(tokens: Seq<Seq<char>>)
    requires
        tokens.len() == 0,
    ensures
        interval_of(tokens) == Ok::<u64, Seq<char>>(0),
{
}

/// One token that stands for no number of seconds leaves the interval
/// without one.
pub proof fn lemma_invalid_token_fails(tokens: Seq<Seq<char>>, i: int)
    requires
        0 <= i < tokens.len(),
        token_value(tokens[i]) is None,
    ensures
        interval_of(tokens) == Err::<u64, Seq<char>>(invalid_duration_message()),
{
    if total_value(tokens) is Some {
        lemma_total_value_prefix(tokens, i + 1);
    }
}

/// A token whose count is too large for 64 bits leaves the interval
/// without a number of seconds.
pub proof fn lemma_oversized_count_fails(tokens: Seq<Seq<char>>, i: int)
    requires
        0 <= i < tokens.len(),
        tokens[i].len() > 0,
        decimal(tokens[i].drop_last()) > u64::MAX,
    ensures
        interval_of(tokens) == Err::<u64, Seq<char>>(invalid_duration_message()),
{
    lemma_invalid_token_fails(tokens, i);
}

/// The seconds in one `unit`, if it is a unit.
pub fn seconds_per_unit(unit: char) -> (seconds: Option<u64>)
    ensures
        seconds == unit_seconds(unit),
{
    if unit == 's' {
        Some(1)
    } else if unit == 'm' {
        Some(60)
    } else if unit == 'h' {
        Some(3600)
    } else if unit == 'd' {
        Some(86400)
    } else {
        None
    }
}

/// The number that the digit `c` stands for, if it is a digit.
pub fn digit_of(c: char) -> (digit: Option<u64>)
    ensures
        digit is Some <==> is_digit(c),
        digit matches Some(d) ==> d == digit_value(c) && d <= 9,
{
    let n: u32 = c as u32;
    if 0x30 <= n && n <= 0x39 {
        Some((n - 0x30) as u64)
    } else {
        None
    }
}

/// Reads `digits` as a count in base ten.
pub fn parse_quantity(digits: &str) -> (count: Option<u64>)
    ensures
        count == quantity(digits@),
{
    let chars = chars_of(digits);
    let n: usize = chars.len();
    if n == 0 {
        return None;
    }
    let mut value: u64 = 0;
    let mut i: usize = 0;
    while i < n
        invariant
            n == chars@.len(),
            chars@ == digits@,
            i <= n,
            forall|j: int| 0 <= j < i ==> is_digit(#[trigger] chars@[j]),
            value == decimal(chars@.take(i as int)),
        decreases n - i,
    {
        proof {
            assert(chars@.take(i + 1).drop_last() == chars@.take(i as int));
            lemma_decimal_prefix(chars@, i + 1);
        }
        let digit: u64 = match digit_of(chars[i]) {
            Some(d) => d,
            None => {
                return None;
            },
        };
        let tens: u64 = match value.checked_mul(10) {
            Some(t) => t,
            None => {
                return None;
            },
        };
        value = match tens.checked_add(digit) {
            Some(v) => v,
            None => {
                return None;
            },
        };
        i += 1;
    }
    assert(chars@.take(n as int) == chars@);
    Some(value)
}

/// Reads one token: its seconds, unless it stands for none or for more than
/// a configuration can hold.
pub fn parse_token(token: &str) -> (seconds: Option<u64>)
    ensures
        seconds == in_range(token_value(token@)),
{
    let n: usize = token.unicode_len();
    if n == 0 {
        return None;
    }
    let per_unit: u64 = match seconds_per_unit(token.get_char(n - 1)) {
        Some(s) => s,
        None => {
            return None;
        },
    };
    let count: u64 = match parse_quantity(token.substring_char(0, n - 1)) {
        Some(c) => c,
        None => {
            return None;
        },
    };
    per_unit.checked_mul(count)
}

/// The error for a reload interval that names no number of seconds.
pub fn invalid_duration() -> (e: Error)
    ensures
        e.message() == invalid_duration_message(),
{
    Error::Config(String::from_str("Invalid value for duration"))
}

/// Adds up the seconds of `tokens`. It fails where a token stands for no
/// number of seconds, and where the sum is more than a configuration can
/// hold.
pub fn sum_tokens(tokens: &Vec<String>) -> (total: Result<u64, Error>)
    ensures
        match total {
            Ok(seconds) => interval_of(tokens.deep_view()) == Ok::<u64, Seq<char>>(seconds),
            Err(e) => interval_of(tokens.deep_view()) == Err::<u64, Seq<char>>(e.message()),
        },
{
    let ghost all = tokens.deep_view();
    let n: usize = tokens.len();
    let mut sum: u64 = 0;
    let mut i: usize = 0;
    while i < n
        invariant
            n == tokens@.len(),
            all == tokens.deep_view(),
            i <= n,
            total_value(all.take(i as int)) == Some(sum as nat),
        decreases n - i,
    {
        proof {
            assert(all.take(i + 1).drop_last() == all.take(i as int));
            if total_value(all) is Some {
                lemma_total_value_prefix(all, i + 1);
            }
        }
        let value: u64 = match parse_token(tokens[i].as_str()) {
            Some(v) => v,
            None => {
                return Err(invalid_duration());
            },
        };
        sum = match sum.checked_add(value) {
            Some(s) => s,
            None => {
                return Err(invalid_duration());
            },
        };
        i += 1;
    }
    assert(all.take(n as int) == all);
    Ok(sum)
}

/// Reads a reload interval from its text: the sum of the tokens found in it,
/// in seconds.
pub fn parse_interval(text: &str) -> (interval: Result<u64, Error>)
    ensures
        match interval {
            Ok(seconds) => interval_of(duration_tokens(text@)) == Ok::<u64, Seq<char>>(seconds),
            Err(e) => interval_of(duration_tokens(text@)) == Err::<u64, Seq<char>>(e.message()),
        },
{
    let tokens = find_matches(DURATION_PATTERN, text).unwrap();
    sum_tokens(&tokens)
}

} // verus!
