//! The decimal notation of a ratio.
//!
//! A ratio is kept as the text it was written in. This module decides which
//! texts denote a number: an optional sign, then `inf`, `infinity` or `nan`
//! in any mix of upper and lower case, or digits with an optional point and
//! an optional exponent, with at least one digit before the exponent.

use vstd::prelude::*;
use crate::helper::text::{lemma_run_len_unique, run_len, to_chars};

verus! {

/// The decimal digits `0` to `9`.
pub open spec fn is_digit(c: char) -> bool {
    0x30 <= c as u32 <= 0x39
}

/// The predicate "is no decimal digit", as a value.
pub open spec fn non_digit() -> spec_fn(char) -> bool {
    |c: char| !is_digit(c)
}

/// The signs `+` and `-`.
pub open spec fn is_sign(c: char) -> bool {
    c == '+' || c == '-'
}

/// `s` without its leading sign, if it has one.
pub open spec fn unsigned_part(s: Seq<char>) -> Seq<char> {
    if s.len() > 0 && is_sign(s[0]) {
        s.drop_first()
    } else {
        s
    }
}

/// Whether `c` is the lower-case letter `lower` or its upper-case form.
pub open spec fn same_letter(c: char, lower: char) -> bool {
    c == lower || (0x41 <= c as u32 <= 0x5A && c as u32 + 32 == lower as u32)
}

/// Whether `s` spells the lower-case word `word` in any mix of cases.
pub open spec fn spells(s: Seq<char>, word: Seq<char>) -> bool {
    s.len() == word.len() && forall|i: int| 0 <= i < s.len() ==> same_letter(s[i], #[trigger] word[i])
}

/// One or more digits and nothing else.
pub open spec fn all_digits(s: Seq<char>) -> bool {
    s.len() >= 1 && run_len(s, non_digit()) == s.len()
}

/// An exponent: `e` or `E`, an optional sign, one or more digits.
pub open spec fn is_exponent(s: Seq<char>) -> bool {
    s.len() >= 1 && (s[0] == 'e' || s[0] == 'E') && all_digits(unsigned_part(s.drop_first()))
}

/// Digits with an optional point among them and an optional exponent after
/// them; at least one digit stands before the exponent.
pub open spec fn is_decimal_number(s: Seq<char>) -> bool {
    let whole = run_len(s, non_digit()) as int;
    let has_point = whole < s.len() && s[whole] == '.';
    let after_point = if has_point {
        whole + 1
    } else {
        whole
    };
    let fraction = if has_point {
        run_len(s.skip(after_point), non_digit()) as int
    } else {
        0
    };
    let rest = s.skip(after_point + fraction);
    whole + fraction >= 1 && (rest.len() == 0 || is_exponent(rest))
}

/// One of the three names of a value that is no finite number.
pub open spec fn is_special_name(s: Seq<char>) -> bool {
    spells(s, "inf"@) || spells(s, "infinity"@) || spells(s, "nan"@)
}

/// Whether `s` is the decimal notation of a ratio.
pub open spec fn is_float_text(s: Seq<char>) -> bool {
    is_special_name(unsigned_part(s)) || is_decimal_number(unsigned_part(s))
}

fn char_is_digit(c: char) -> (b: bool)
    ensures
        b == is_digit(c),
{
    let u = c as u32;
    0x30 <= u && u <= 0x39
}

fn char_is_sign(c: char) -> (b: bool)
    ensures
        b == is_sign(c),
{
    c == '+' || c == '-'
}

fn char_same_letter(c: char, lower: char) -> (b: bool)
    ensures
        b == same_letter(c, lower),
{
    let u = c as u32;
    c == lower || (0x41 <= u && u <= 0x5A && u + 32 == lower as u32)
}

/// The end of the run of digits that starts at `from`.
fn scan_digits(chars: &Vec<char>, from: usize) -> (to: usize)
    requires
        from <= chars.len(),
    ensures
        from <= to <= chars.len(),
        to == from + run_len(chars@.skip(from as int), non_digit()),
{
    let mut to: usize = from;
    while to < chars.len() && char_is_digit(chars[to])
        invariant
            from <= to <= chars.len(),
            forall|k: int| from <= k < to ==> is_digit(chars@[k]),
        decreases chars.len() - to,
    {
        to += 1;
    }
    proof {
        let rest = chars@.skip(from as int);
        assert forall|k: int| 0 <= k < to - from implies !(non_digit())(#[trigger] rest[k]) by {
            assert(rest[k] == chars@[from + k]);
        }
        lemma_run_len_unique(rest, non_digit(), to - from);
    }
    to
}

/// Whether `chars[from..]` spells `word` in any mix of cases.
fn spells_from(chars: &Vec<char>, from: usize, word: &str) -> (b: bool)
    requires
        from <= chars.len(),
    ensures
        b == spells(chars@.skip(from as int), word@),
{
    let letters = to_chars(word);
    let ghost rest = chars@.skip(from as int);
    if chars.len() - from != letters.len() {
        return false;
    }
    let mut i: usize = 0;
    while i < letters.len()
        invariant
            from <= chars.len(),
            chars.len() - from == letters.len(),
            i <= letters.len(),
            letters@ == word@,
            rest == chars@.skip(from as int),
            forall|k: int| 0 <= k < i ==> same_letter(rest[k], #[trigger] letters@[k]),
        decreases letters.len() - i,
    {
        if !char_same_letter(chars[from + i], letters[i]) {
            assert(rest[i as int] == chars@[from + i]);
            return false;
        }
        assert(rest[i as int] == chars@[from + i]);
        i += 1;
    }
    true
}

/// Whether `chars[from..]` is one or more digits and nothing else.
fn all_digits_from(chars: &Vec<char>, from: usize) -> (b: bool)
    requires
        from <= chars.len(),
    ensures
        b == all_digits(chars@.skip(from as int)),
{
    let end = scan_digits(chars, from);
    from < chars.len() && end == chars.len()
}

/// Whether `chars[from..]` is an exponent.
fn is_exponent_from(chars: &Vec<char>, from: usize) -> (b: bool)
    requires
        from <= chars.len(),
    ensures
        b == is_exponent(chars@.skip(from as int)),
{
    let n = chars.len();
    let ghost rest = chars@.skip(from as int);
    if from >= n {
        return false;
    }
    assert(rest[0] == chars@[from as int]);
    if chars[from] != 'e' && chars[from] != 'E' {
        return false;
    }
    assert(rest.drop_first() == chars@.skip(from + 1));
    if from + 1 < n && char_is_sign(chars[from + 1]) {
        assert(chars@.skip(from + 1)[0] == chars@[from + 1]);
        assert(chars@.skip(from + 1).drop_first() == chars@.skip(from + 2));
        all_digits_from(chars, from + 2)
    } else {
        if from + 1 < n {
            assert(chars@.skip(from + 1)[0] == chars@[from + 1]);
        }
        all_digits_from(chars, from + 1)
    }
}

/// Whether `chars[from..]` is a decimal number.
fn is_decimal_number_from(chars: &Vec<char>, from: usize) -> (b: bool)
    requires
        from <= chars.len(),
    ensures
        b == is_decimal_number(chars@.skip(from as int)),
{
    let n = chars.len();
    let ghost s = chars@.skip(from as int);
    let whole_end = scan_digits(chars, from);
    let mut digits: usize = whole_end - from;
    let mut pos: usize = whole_end;
    if whole_end < n {
        assert(s[whole_end - from] == chars@[whole_end as int]);
    }
    if whole_end < n && chars[whole_end] == '.' {
        assert(s.skip(whole_end - from + 1) == chars@.skip(whole_end + 1));
        let fraction_end = scan_digits(chars, whole_end + 1);
        digits = digits + (fraction_end - (whole_end + 1));
        pos = fraction_end;
    }
    assert(s.skip(pos - from) == chars@.skip(pos as int));
    if digits == 0 {
        return false;
    }
    if pos == n {
        return true;
    }
    is_exponent_from(chars, pos)
}

/// Whether `token` is the decimal notation of a ratio.
pub fn is_float_literal(token: &Vec<char>) -> (b: bool)
    ensures
        b == is_float_text(token@),
{
    let start: usize = if token.len() > 0 && char_is_sign(token[0]) {
        1
    } else {
        0
    };
    assert(unsigned_part(token@) == token@.skip(start as int));
    spells_from(token, start, "inf") || spells_from(token, start, "infinity") || spells_from(
        token,
        start,
        "nan",
    ) || is_decimal_number_from(token, start)
}

} // verus!
