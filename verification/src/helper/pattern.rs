//! The pattern that a fingerprint has to match, checked by `regex`.

use vstd::prelude::*;
use regex::Regex;
use crate::error::{BridgeError, ErrorView};

verus! {

/// A compiled regular expression.
#[verifier::external_type_specification]
#[verifier::external_body]
pub struct ExRegex(Regex);

/// Why a pattern could not be compiled.
#[verifier::external_type_specification]
#[verifier::external_body]
pub struct ExRegexError(regex::Error);

/// Forty hexadecimal digits and nothing else.
pub const FINGERPRINT_PATTERN: &'static str = "^[a-fA-F0-9]{40}$";

/// The pattern text that a compiled expression was made from.
pub uninterp spec fn pattern_source(expression: Regex) -> Seq<char>;

/// Whether `regex` compiles the pattern text `pattern`.
pub uninterp spec fn pattern_compiles(pattern: Seq<char>) -> bool;

/// The digits `0`-`9` and the letters `a`-`f` in either case.
pub open spec fn is_hex_digit(c: char) -> bool {
    let u = c as u32;
    0x30 <= u <= 0x39 || 0x41 <= u <= 0x46 || 0x61 <= u <= 0x66
}

/// Whether `s` is a fingerprint: exactly forty hexadecimal digits.
pub open spec fn is_fingerprint(s: Seq<char>) -> bool {
    s.len() == 40 && forall|i: int| 0 <= i < s.len() ==> is_hex_digit(#[trigger] s[i])
}

/// `Regex::new`: whether it succeeds depends on the pattern text alone, and
/// on success the expression stands for the pattern given.
#[verifier::external_body]
fn compile(pattern: &str) -> (outcome: Result<Regex, regex::Error>)
    ensures
        outcome is Ok <==> pattern_compiles(pattern@),
        outcome matches Ok(expression) ==> pattern_source(expression) == pattern@,
{
    Regex::new(pattern)
}

/// `Regex::is_match`. For the fingerprint pattern, which anchors one class
/// of hexadecimal digits repeated forty times between the start and the end
/// of the text, a match means that the text is forty such digits.
#[verifier::external_body]
fn is_match(expression: &Regex, text: &str) -> (found: bool)
    ensures
        pattern_source(*expression) == FINGERPRINT_PATTERN@ ==> found == is_fingerprint(text@),
{
    expression.is_match(text)
}

/// The fingerprint pattern, compiled once and used for every line.
pub struct FingerprintPattern {
    expression: Regex,
}

impl FingerprintPattern {
    #[verifier::type_invariant]
    spec fn compiled_from_pattern(self) -> bool {
        pattern_source(self.expression) == FINGERPRINT_PATTERN@
    }

    /// Compiles the fingerprint pattern. A failure of the compiler is
    /// reported as a parse error.
    pub fn new() -> (outcome: Result<FingerprintPattern, BridgeError>)
        ensures
            outcome is Ok <==> pattern_compiles(FINGERPRINT_PATTERN@),
            outcome matches Err(e) ==> e@ == ErrorView::Parse("invalid fingerprint pattern"@),
    {
        match compile(FINGERPRINT_PATTERN) {
            Ok(expression) => Ok(FingerprintPattern { expression }),
            Err(_) => Err(BridgeError::Parse(String::from_str("invalid fingerprint pattern"))),
        }
    }

    /// Whether `text` is a fingerprint.
    pub fn matches(&self, text: &str) -> (found: bool)
        ensures
            found == is_fingerprint(text@),
    {
        proof {
            use_type_invariant(self);
        }
        is_match(&self.expression, text)
    }
}

} // verus!
