//! The configuration of the agent, made once at start from what the
//! environment and the command line held.

use crate::text::chars_of;
use vstd::prelude::*;

verus! {

/// The seconds between two cycles where `CHECK_INTERVAL` gives none.
pub const DEFAULT_INTERVAL: u64 = 3;

/// The seconds that one request may take where `REQUEST_TIMEOUT` gives none.
pub const DEFAULT_TIMEOUT: u64 = 5;

/// What the caller found in the environment and on the command line. A value
/// is `None` where the variable is not set or does not hold Unicode text.
#[derive(Debug, Clone, PartialEq, Eq)]
pub struct Environment {
    /// The variable `API_URL`.
    pub api_url: Option<String>,
    /// The first argument of the command line.
    pub first_argument: Option<String>,
    /// The variable `CHECK_INTERVAL`.
    pub check_interval: Option<String>,
    /// The variable `REQUEST_TIMEOUT`.
    pub request_timeout: Option<String>,
}

/// The configuration. It does not change once made.
#[derive(Debug, Clone, PartialEq, Eq)]
pub struct Config {
    /// Where the samples go.
    pub url: String,
    /// The seconds between two cycles.
    pub interval: u64,
    /// The seconds that one request may take.
    pub timeout: u64,
}

/// Why no configuration could be made.
#[derive(Debug, Clone, Copy, PartialEq, Eq, Structural)]
pub enum ConfigError {
    /// Neither `API_URL` nor the command line names the collector.
    MissingUrl,
}

/// Whether `c` is one of the ten ASCII digits.
pub open spec fn is_digit(c: char) -> bool {
    '0' <= c <= '9'
}

/// The number that the decimal digits `digits` write.
pub open spec fn decimal_value(digits: Seq<char>) -> nat
    decreases digits.len(),
{
    if digits.len() == 0 {
        0
    } else {
        (decimal_value(digits.drop_last()) * 10 + (digits.last() as int - '0' as int)) as nat
    }
}

/// Whether `s` holds ASCII digits only.
pub open spec fn all_digits(s: Seq<char>) -> bool {
    forall|i: int| 0 <= i < s.len() ==> is_digit(#[trigger] s[i])
}

/// `text` without the plus sign that it may begin with.
pub open spec fn without_plus_sign(text: Seq<char>) -> Seq<char> {
    if text.len() > 0 && text[0] == '+' {
        text.skip(1)
    } else {
        text
    }
}

/// The number that `text` stands for, read as `str::parse::<u64>` reads it:
/// an optional plus sign, then one or more ASCII digits and nothing else,
/// which write a number that fits in 64 bits.
pub open spec fn parsed_u64(text: Seq<char>) -> Option<u64> {
    let digits = without_plus_sign(text);
    if digits.len() > 0 && all_digits(digits) && decimal_value(digits) <= u64::MAX {
        Some(decimal_value(digits) as u64)
    } else {
        None
    }
}

/// The seconds that a variable gives: its number where it is set and holds
/// one, else `default`.
pub open spec fn seconds_or(text: Option<String>, default: u64) -> u64 {
    match text {
        Some(t) => match parsed_u64(t@) {
            Some(seconds) => seconds,
            None => default,
        },
        None => default,
    }
}

/// The collector's address: the variable where it is set, else the first
/// argument.
pub open spec fn configured_url(env: &Environment) -> Option<Seq<char>> {
    match env.api_url {
        Some(url) => Some(url@),
        None => match env.first_argument {
            Some(url) => Some(url@),
            None => None,
        },
    }
}

/// A number does not get smaller when digits are written behind it.
pub proof fn lemma_decimal_value_grows(digits: Seq<char>, n: int)
    requires
        0 <= n <= digits.len(),
        all_digits(digits),
    ensures
        decimal_value(digits.take(n)) <= decimal_value(digits),
    decreases digits.len() - n,
{
    if n < digits.len() {
        let longer = digits.take(n + 1);
        assert(longer.drop_last() =~= digits.take(n));
        assert(is_digit(longer.last()));
        lemma_decimal_value_grows(digits, n + 1);
    } else {
        assert(digits.take(n) =~= digits);
    }
}

/// Reads an unsigned decimal number, as `str::parse::<u64>` does.
pub fn parse_u64(text: &str) -> (value: Option<u64>)
    ensures
        value == parsed_u64(text@),
{
    let chars = chars_of(text);
    let start: usize = if chars.len() > 0 && chars[0] == '+' {
        1
    } else {
        0
    };
    if start == chars.len() {
        return None;
    }
    let ghost digits = without_plus_sign(text@);
    let mut value: u64 = 0;
    let mut i: usize = start;
    assert(digits.take(0) =~= Seq::<char>::empty());
    assert(text@.skip(0) =~= text@);
    while i < chars.len()
        invariant
            chars@ == text@,
            start <= i <= chars.len(),
            digits == without_plus_sign(text@),
            digits == text@.skip(start as int),
            forall|k: int| 0 <= k < i - start ==> is_digit(digits[k]),
            value == decimal_value(digits.take(i - start)),
        decreases chars.len() - i,
    {
        let c = chars[i];
        assert(c == digits[i - start]);
        if !('0' <= c && c <= '9') {
            assert(!is_digit(digits[i - start]));
            return None;
        }
        let digit = (c as u32 - '0' as u32) as u64;
        let ghost longer = digits.take(i - start + 1);
        proof {
            assert(longer.drop_last() =~= digits.take(i - start));
            assert(longer.last() == c);
            if all_digits(digits) {
                lemma_decimal_value_grows(digits, i - start + 1);
            }
        }
        match value.checked_mul(10) {
            None => {
                return None;
            },
            Some(tens) => match tens.checked_add(digit) {
                None => {
                    return None;
                },
                Some(sum) => {
                    value = sum;
                },
            },
        }
        i += 1;
    }
    assert(digits.take(i - start) =~= digits);
    Some(value)
}

/// Reads the seconds out of a variable: its number where it is set and holds
/// one, else `default`.
pub fn read_seconds(text: &Option<String>, default: u64) -> (seconds: u64)
    ensures
        seconds == seconds_or(*text, default),
{
    match text {
        Some(t) => match parse_u64(t.as_str()) {
            Some(seconds) => seconds,
            None => default,
        },
        None => default,
    }
}

impl Config {
    /// Makes the configuration from what the environment held. The address
    /// is that of `API_URL`, or else the first argument; without either there
    /// is no configuration. An interval or a timeout that is not set, or that
    /// is no number, takes its default.
    pub fn from_env(env: &Environment) -> (made: Result<Config, ConfigError>)
        ensures
            match configured_url(env) {
                Some(url) => made matches Ok(config) && config.url@ == url && config.interval
                    == seconds_or(env.check_interval, DEFAULT_INTERVAL) && config.timeout
                    == seconds_or(env.request_timeout, DEFAULT_TIMEOUT),
                None => made == Err::<Config, ConfigError>(ConfigError::MissingUrl),
            },
    {
        let url = match &env.api_url {
            Some(url) => url.clone(),
            None => match &env.first_argument {
                Some(url) => url.clone(),
                None => {
                    return Err(ConfigError::MissingUrl);
                },
            },
        };
        Ok(
            Config {
                url,
                interval: read_seconds(&env.check_interval, DEFAULT_INTERVAL),
                timeout: read_seconds(&env.request_timeout, DEFAULT_TIMEOUT),
            },
        )
    }
}

} // verus!
