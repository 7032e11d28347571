//! The settings of the database, as the environment gives them.

use vstd::prelude::*;
use crate::error::{BridgeError, ErrorView};
use crate::helper::number::is_digit;
use crate::helper::text::to_chars;

verus! {

/// Where the database is and how to log in.
#[derive(Debug)]
pub struct DatabaseConfig {
    pub host: String,
    pub port: u16,
    pub user: String,
    pub password: String,
    pub database: String,
}

/// What the environment holds of the settings: each variable, if it is set.
pub struct DatabaseVariables {
    /// `DATABASE_URL`; it has to be set.
    pub url: Option<String>,
    /// `DB_HOST`; `localhost` where it is not set.
    pub host: Option<String>,
    /// `DB_PORT`; `5432` where it is not set.
    pub port: Option<String>,
    /// `DB_USER`; `postgres` where it is not set.
    pub user: Option<String>,
    /// `DB_PASSWORD`; it has to be set.
    pub password: Option<String>,
    /// `DB_NAME`; `tor_metrics` where it is not set.
    pub database: Option<String>,
}

/// The number that a sequence of digits writes.
pub open spec fn decimal_value(digits: Seq<char>) -> nat
    decreases digits.len(),
{
    if digits.len() == 0 {
        0
    } else {
        decimal_value(digits.drop_last()) * 10 + (digits.last() as u32 - 0x30) as nat
    }
}

/// Whether every character of `s` is a digit.
pub open spec fn only_digits(s: Seq<char>) -> bool {
    forall|i: int| 0 <= i < s.len() ==> is_digit(#[trigger] s[i])
}

/// The port that a text writes: an optional `+`, then one digit or more,
/// not above 65535.
pub open spec fn port_of(text: Seq<char>) -> Option<u16> {
    let digits = if text.len() > 0 && text[0] == '+' {
        text.drop_first()
    } else {
        text
    };
    if digits.len() > 0 && only_digits(digits) && decimal_value(digits) <= u16::MAX {
        Some(decimal_value(digits) as u16)
    } else {
        None
    }
}

/// The text of a variable, or `fallback` where it is not set.
pub open spec fn text_or(variable: Option<String>, fallback: Seq<char>) -> Seq<char> {
    match variable {
        Some(text) => text@,
        None => fallback,
    }
}

/// The port that `text` writes, if it writes one.
pub fn parse_port(text: &str) -> (port: Option<u16>)
    ensures
        port == port_of(text@),
{
    let chars = to_chars(text);
    let start: usize = if chars.len() > 0 && chars[0] == '+' {
        1
    } else {
        0
    };
    let ghost digits = chars@.skip(start as int);
    proof {
        assert(text@.drop_first() == text@.skip(1));
        assert(text@.skip(0) == text@);
        assert(digits == if text@.len() > 0 && text@[0] == '+' {
            text@.drop_first()
        } else {
            text@
        });
    }
    if start >= chars.len() {
        return None;
    }
    let mut value: u32 = 0;
    let mut too_large = false;
    let mut i: usize = start;
    assert(digits.take(0) == Seq::<char>::empty());
    while i < chars.len()
        invariant
            start <= i <= chars.len(),
            start < chars.len(),
            digits == chars@.skip(start as int),
            digits == if text@.len() > 0 && text@[0] == '+' {
                text@.drop_first()
            } else {
                text@
            },
            only_digits(digits.take(i - start)),
            !too_large ==> value == decimal_value(digits.take(i - start)) && value <= u16::MAX,
            too_large ==> decimal_value(digits.take(i - start)) > u16::MAX,
        decreases chars.len() - i,
    {
        let c = chars[i];
        let code = c as u32;
        proof {
            assert(digits[i - start] == c);
            assert(digits.take(i - start + 1).drop_last() == digits.take(i - start));
            assert(digits.take(i - start + 1).last() == c);
        }
        if code < 0x30 || code > 0x39 {
            assert(!only_digits(digits)) by {
                assert(!is_digit(digits[i - start]));
            }
            return None;
        }
        if !too_large {
            value = value * 10 + (code - 0x30);
            if value > 65535 {
                too_large = true;
            }
        }
        assert(only_digits(digits.take(i - start + 1))) by {
            assert forall|k: int| 0 <= k < i - start + 1 implies is_digit(
                #[trigger] digits.take(i - start + 1)[k],
            ) by {
                if k < i - start {
                    assert(digits.take(i - start + 1)[k] == digits.take(i - start)[k]);
                }
            }
        }
        i += 1;
    }
    assert(digits.take(chars@.len() - start) == digits);
    if too_large {
        None
    } else {
        Some(value as u16)
    }
}

fn or_default(variable: Option<String>, fallback: &str) -> (text: String)
    ensures
        text@ == text_or(variable, fallback@),
{
    match variable {
        Some(text) => text,
        None => String::from_str(fallback),
    }
}

impl DatabaseConfig {
    /// The settings that the variables give. The address and the password
    /// have to be set, and the port has to be a port; the other variables
    /// have defaults.
    pub fn from_variables(variables: DatabaseVariables) -> (outcome: Result<
        DatabaseConfig,
        BridgeError,
    >)
        ensures
            variables.url is None ==> (outcome matches Err(e) && e@ == ErrorView::Parse(
                "DATABASE_URL not set"@,
            )),
            variables.url is Some && port_of(text_or(variables.port, "5432"@)) is None ==> (
            outcome matches Err(e) && e@ == ErrorView::Parse("Invalid DB_PORT"@)),
            variables.url is Some && port_of(text_or(variables.port, "5432"@)) is Some
                && variables.password is None ==> (outcome matches Err(e) && e@
                == ErrorView::Parse("DB_PASSWORD required"@)),
            variables.url is Some && port_of(text_or(variables.port, "5432"@)) is Some
                && variables.password is Some ==> (outcome matches Ok(config) && config.host@
                == text_or(variables.host, "localhost"@) && Some(config.port) == port_of(
                text_or(variables.port, "5432"@),
            ) && config.user@ == text_or(variables.user, "postgres"@) && config.password@
                == variables.password->Some_0@ && config.database@ == text_or(
                variables.database,
                "tor_metrics"@,
            )),
    {
        if variables.url.is_none() {
            return Err(BridgeError::Parse(String::from_str("DATABASE_URL not set")));
        }
        let host = or_default(variables.host, "localhost");
        let port_text = or_default(variables.port, "5432");
        let port = match parse_port(port_text.as_str()) {
            Some(port) => port,
            None => {
                return Err(BridgeError::Parse(String::from_str("Invalid DB_PORT")));
            },
        };
        let user = or_default(variables.user, "postgres");
        let password = match variables.password {
            Some(password) => password,
            None => {
                return Err(BridgeError::Parse(String::from_str("DB_PASSWORD required")));
            },
        };
        let database = or_default(variables.database, "tor_metrics");
        Ok(DatabaseConfig { host, port, user, password, database })
    }
}

} // verus!
