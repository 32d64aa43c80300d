//! Validation of the settings each stage reads at start-up.

use crate::decimal::{parse_i64, parse_i64_spec};
use crate::models::blank;
use crate::text_utils::is_blank;
use vstd::prelude::*;

verus! {

/// Age limit of staged feed entries, in hours, when the setting is not positive.
pub const DEFAULT_MAX_AGE_HOURS: i64 = 48;

/// Budget of a model summary, in grapheme clusters, when the setting is not positive.
pub const DEFAULT_SUMMARY_BUDGET: i64 = 280;

/// A setting that cannot be used.
#[derive(Clone, Debug)]
pub enum ConfigError {
    /// The setting is not present.
    Missing { name: String },
    /// The setting holds nothing but white space.
    Blank { name: String },
    /// The setting is not a decimal integer.
    NotANumber { name: String },
}

/// A required text setting: present and not blank.
pub fn required_value(name: &str, value: Option<String>) -> (r: Result<String, ConfigError>)
    ensures
        match value {
            None => r matches Err(ConfigError::Missing { name: n }) && n@ == name@,
            Some(v) => if is_blank(v@) {
                r matches Err(ConfigError::Blank { name: n }) && n@ == name@
            } else {
                r == Ok::<String, ConfigError>(v)
            },
        },
{
    match value {
        None => Err(ConfigError::Missing { name: String::from_str(name) }),
        Some(v) => {
            if blank(v.as_str()) {
                Err(ConfigError::Blank { name: String::from_str(name) })
            } else {
                Ok(v)
            }
        },
    }
}

/// A setting that must be present, and must hold more than white space only
/// when `needed`.
pub fn conditional_value(name: &str, value: Option<String>, needed: bool) -> (r: Result<
    String,
    ConfigError,
>)
    ensures
        match value {
            None => r matches Err(ConfigError::Missing { name: n }) && n@ == name@,
            Some(v) => if needed && is_blank(v@) {
                r matches Err(ConfigError::Blank { name: n }) && n@ == name@
            } else {
                r == Ok::<String, ConfigError>(v)
            },
        },
{
    match value {
        None => Err(ConfigError::Missing { name: String::from_str(name) }),
        Some(v) => {
            if needed && blank(v.as_str()) {
                Err(ConfigError::Blank { name: String::from_str(name) })
            } else {
                Ok(v)
            }
        },
    }
}

/// The value a numeric setting stands for: itself when positive, `default` otherwise.
pub open spec fn positive_or(n: i64, default: i64) -> i64 {
    if n <= 0 {
        default
    } else {
        n
    }
}

/// A required integer setting; a value that is not positive gives `default`.
pub fn positive_or_default(name: &str, value: Option<String>, default: i64) -> (r: Result<
    i64,
    ConfigError,
>)
    ensures
        match value {
            None => r matches Err(ConfigError::Missing { name: n }) && n@ == name@,
            Some(v) => match parse_i64_spec(v@) {
                None => r matches Err(ConfigError::NotANumber { name: n }) && n@ == name@,
                Some(n) => r == Ok::<i64, ConfigError>(positive_or(n, default)),
            },
        },
{
    match value {
        None => Err(ConfigError::Missing { name: String::from_str(name) }),
        Some(v) => match parse_i64(v.as_str()) {
            None => Err(ConfigError::NotANumber { name: String::from_str(name) }),
            Some(n) => Ok(
                if n <= 0 {
                    default
                } else {
                    n
                },
            ),
        },
    }
}

/// Whether `s` reads `true`, in any mix of letter cases.
pub open spec fn says_true(s: Seq<char>) -> bool {
    &&& s.len() == 4
    &&& s[0] == 't' || s[0] == 'T'
    &&& s[1] == 'r' || s[1] == 'R'
    &&& s[2] == 'u' || s[2] == 'U'
    &&& s[3] == 'e' || s[3] == 'E'
}

/// A switch setting: on only when present and reading `true`, whatever the case.
pub fn flag_enabled(value: &Option<String>) -> (r: bool)
    ensures
        r == (value matches Some(v) && says_true(v@)),
{
    match value {
        None => false,
        Some(v) => {
            let s = v.as_str();
            if s.unicode_len() != 4 {
                return false;
            }
            let (a, b, c, d) = (s.get_char(0), s.get_char(1), s.get_char(2), s.get_char(3));
            (a == 't' || a == 'T') && (b == 'r' || b == 'R') && (c == 'u' || c == 'U') && (d == 'e'
                || d == 'E')
        },
    }
}

} // verus!
