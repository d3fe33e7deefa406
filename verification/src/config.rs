//! Process configuration: four optional texts, read once at startup, become
//! one immutable [`Config`].

use vstd::prelude::*;
use vstd::string::*;

verus! {

/// The port used when `PORT` is not set.
pub const DEFAULT_PORT: u16 = 3000;

/// What the service is started with. It is built once and never changed.
#[derive(Debug, Clone)]
pub struct Config {
    /// The TCP port to listen on.
    pub port: u16,
    /// The directory that unmatched paths are served from.
    pub static_dir: String,
    /// A free label for the deployment, reported by the health probe.
    pub environment: String,
    /// The log filter; the service itself never reads it.
    pub log_level: String,
}

/// The text of a setting: what was given, or else the default.
pub open spec fn text_or(given: Option<String>, default: Seq<char>) -> Seq<char> {
    match given {
        Some(text) => text@,
        None => default,
    }
}

/// The port that a `PORT` setting asks for: 3000 when it is absent.
pub open spec fn port_or_default(given: Option<String>) -> Option<u16> {
    match given {
        Some(text) => port_of(text@),
        None => Some(DEFAULT_PORT),
    }
}

/// Whether `c` is one of the ten ASCII digits.
pub open spec fn is_digit(c: char) -> bool {
    '0' <= c && c <= '9'
}

/// The number that the digit `c` stands for.
pub open spec fn digit_value(c: char) -> int {
    c as int - '0' as int
}

/// The number that a run of digits denotes in base ten, most significant
/// digit first. The empty run denotes zero.
pub open spec fn decimal_value(digits: Seq<char>) -> int
    decreases digits.len(),
{
    if digits.len() == 0 {
        0
    } else {
        decimal_value(digits.drop_last()) * 10 + digit_value(digits.last())
    }
}

/// Whether every character of `text` is a digit.
pub open spec fn all_digits(text: Seq<char>) -> bool {
    forall|i: int| 0 <= i < text.len() ==> is_digit(#[trigger] text[i])
}

/// `text` without one leading plus sign, if it has one.
pub open spec fn unsigned_part(text: Seq<char>) -> Seq<char> {
    if text.len() > 0 && text[0] == '+' {
        text.subrange(1, text.len() as int)
    } else {
        text
    }
}

/// The port that `text` denotes: an optional `+`, then at least one digit,
/// the whole no larger than 65535. Leading zeros are allowed; blanks, a minus
/// sign and any other character are not.
pub open spec fn port_of(text: Seq<char>) -> Option<u16> {
    let digits = unsigned_part(text);
    if digits.len() > 0 && all_digits(digits) && decimal_value(digits) <= u16::MAX {
        Some(decimal_value(digits) as u16)
    } else {
        None
    }
}

/// A run of digits denotes at least what any of its prefixes denotes.
proof fn lemma_decimal_prefix(digits: Seq<char>, k: int)
    requires
        all_digits(digits),
        0 <= k <= digits.len(),
    ensures
        0 <= decimal_value(digits.subrange(0, k)) <= decimal_value(digits),
    decreases digits.len() - k,
{
    if k == digits.len() {
        assert(digits.subrange(0, k) =~= digits);
        lemma_decimal_nonnegative(digits);
    } else {
        let longer = digits.subrange(0, k + 1);
        assert(longer.drop_last() =~= digits.subrange(0, k));
        assert(is_digit(digits[k]));
        assert(longer.last() == digits[k]);
        lemma_decimal_nonnegative(digits.subrange(0, k));
        lemma_decimal_prefix(digits, k + 1);
    }
}

/// A run of digits denotes no negative number.
proof fn lemma_decimal_nonnegative(digits: Seq<char>)
    requires
        all_digits(digits),
    ensures
        0 <= decimal_value(digits),
    decreases digits.len(),
{
    if digits.len() > 0 {
        assert(is_digit(digits[digits.len() - 1]));
        lemma_decimal_nonnegative(digits.drop_last());
    }
}

/// Reads a port number as `u16`'s own parser does.
pub fn parse_port(text: &str) -> (port: Option<u16>)
    ensures
        port == port_of(text@),
{
    let len: usize = text.unicode_len();
    let start: usize = if len > 0 && text.get_char(0) == '+' {
        1
    } else {
        0
    };
    if start == len {
        return None;
    }
    let ghost digits = unsigned_part(text@);
    let mut value: u32 = 0;
    let mut i: usize = start;
    while i < len
        invariant
            start <= i <= len,
            len == text@.len(),
            digits == text@.subrange(start as int, len as int),
            digits == unsigned_part(text@),
            value <= u16::MAX,
            value == decimal_value(digits.subrange(0, i - start)),
            all_digits(digits.subrange(0, i - start)),
        decreases len - i,
    {
        let c: char = text.get_char(i);
        if !('0' <= c && c <= '9') {
            assert(!is_digit(digits[i - start]));
            return None;
        }
        let digit: u32 = c as u32 - '0' as u32;
        let next: u32 = value * 10 + digit;
        proof {
            let longer = digits.subrange(0, i - start + 1);
            assert(longer.drop_last() =~= digits.subrange(0, i - start));
            assert(longer.last() == c);
            assert(next == decimal_value(longer));
            assert forall|j: int| 0 <= j < longer.len() implies is_digit(#[trigger] longer[j]) by {
                if j < i - start {
                    assert(longer[j] == digits.subrange(0, i - start)[j]);
                }
            }
            if next > u16::MAX && all_digits(digits) {
                lemma_decimal_prefix(digits, i - start + 1);
            }
        }
        if next > 65535 {
            return None;
        }
        value = next;
        i = i + 1;
    }
    assert(digits.subrange(0, len - start) =~= digits);
    Some(value as u16)
}

fn setting_or(given: Option<String>, default: &str) -> (text: String)
    ensures
        text@ == text_or(given, default@),
{
    match given {
        Some(text) => text,
        None => default.to_owned(),
    }
}

impl Config {
    /// Builds the configuration from the values of `PORT`, `STATIC_DIR`,
    /// `ENVIRONMENT` and `LOG_LEVEL`, each `None` when the variable is not
    /// set. A `PORT` that is set has to denote a port: see [`parse_port`].
    pub fn from_env(
        port: Option<String>,
        static_dir: Option<String>,
        environment: Option<String>,
        log_level: Option<String>,
    ) -> (config: Config)
        requires
            port_or_default(port) is Some,
        ensures
            Some(config.port) == port_or_default(port),
            config.static_dir@ == text_or(static_dir, "./public"@),
            config.environment@ == text_or(environment, "development"@),
            config.log_level@ == text_or(log_level, "debug"@),
    {
        let port: u16 = match port {
            Some(text) => {
                match parse_port(text.as_str()) {
                    Some(port) => port,
                    None => DEFAULT_PORT,
                }
            },
            None => DEFAULT_PORT,
        };
        Config {
            port,
            static_dir: setting_or(static_dir, "./public"),
            environment: setting_or(environment, "development"),
            log_level: setting_or(log_level, "debug"),
        }
    }
}

} // verus!
