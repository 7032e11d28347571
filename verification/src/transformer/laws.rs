//! What holds of every line and of every report.

use vstd::prelude::*;
use vstd::utf8::{encode_utf8, encode_utf8_decode_utf8};
use crate::collector::fetch::RawFileView;
use crate::error::ErrorView;
use crate::helper::digest::{entry_preimage, lemma_entry_preimage_scoped};
use crate::helper::number::is_float_text;
use crate::helper::pattern::{is_fingerprint, is_hex_digit};
use crate::helper::text::{
    is_char, is_whitespace, key_value, lemma_run_len_unique, whitespace, words,
};
use crate::transformer::parser::{
    blank_entry, kept_entries, kept_entry, line_entry, parsed_report, with_attribute,
    with_tokens, LineEntryView,
};

verus! {

/// A word: one character or more, none of them white space.
pub open spec fn is_word(s: Seq<char>) -> bool {
    s.len() > 0 && forall|i: int| 0 <= i < s.len() ==> !is_whitespace(#[trigger] s[i])
}

/// A key or a value: no white space and no `=`.
pub open spec fn is_plain(s: Seq<char>) -> bool {
    forall|i: int| 0 <= i < s.len() ==> !is_whitespace(#[trigger] s[i]) && s[i] != '='
}

/// The token `key=value` of an attribute.
pub open spec fn attribute_token(pair: (Seq<char>, Seq<char>)) -> Seq<char> {
    pair.0 + seq!['='] + pair.1
}

/// The tokens of a sequence of attributes.
pub open spec fn attribute_tokens(pairs: Seq<(Seq<char>, Seq<char>)>) -> Seq<Seq<char>> {
    Seq::new(pairs.len(), |i: int| attribute_token(pairs[i]))
}

/// The attributes as they stand in a line: a space before each token.
pub open spec fn attributes_text(pairs: Seq<(Seq<char>, Seq<char>)>) -> Seq<char>
    decreases pairs.len(),
{
    if pairs.len() == 0 {
        Seq::empty()
    } else {
        seq![' '] + attribute_token(pairs[0]) + attributes_text(pairs.drop_first())
    }
}

/// The line of a report for a bridge: fingerprint, method and attributes,
/// with one space between them.
pub open spec fn report_line(
    fingerprint: Seq<char>,
    method: Seq<char>,
    pairs: Seq<(Seq<char>, Seq<char>)>,
) -> Seq<char> {
    fingerprint + seq![' '] + method + attributes_text(pairs)
}

/// The value of the last attribute among `pairs` that has the key `key`.
pub open spec fn last_value(pairs: Seq<(Seq<char>, Seq<char>)>, key: Seq<char>) -> Option<
    Seq<char>,
>
    decreases pairs.len(),
{
    if pairs.len() == 0 {
        None
    } else if pairs.last().0 == key {
        Some(pairs.last().1)
    } else {
        last_value(pairs.drop_last(), key)
    }
}

/// The entry that a line with these attributes stands for: each known key
/// gives its field the value written last.
pub open spec fn entry_of_pairs(
    fingerprint: Seq<char>,
    method: Seq<char>,
    pairs: Seq<(Seq<char>, Seq<char>)>,
) -> LineEntryView {
    LineEntryView {
        sha: Seq::empty(),
        fingerprint,
        distribution_method: method,
        transport: last_value(pairs, "transport"@),
        ip: last_value(pairs, "ip"@),
        blocklist: last_value(pairs, "blocklist"@),
        distributed: match last_value(pairs, "distributed"@) {
            Some(value) => Some(value == "true"@),
            None => None,
        },
        state: last_value(pairs, "state"@),
        bandwidth: last_value(pairs, "bandwidth"@),
        ratio: match last_value(pairs, "ratio"@) {
            Some(value) => if is_float_text(value) {
                Some(value)
            } else {
                None
            },
            None => None,
        },
    }
}

/// A word followed by nothing or by white space is the first word.
pub proof fn lemma_words_after_word(word: Seq<char>, rest: Seq<char>)
    requires
        is_word(word),
        rest.len() == 0 || is_whitespace(rest[0]),
    ensures
        words(word + rest) == seq![word] + words(rest),
{
    let s = word + rest;
    assert(s[0] == word[0]);
    assert forall|k: int| 0 <= k < word.len() implies !(whitespace())(#[trigger] s[k]) by {
        assert(s[k] == word[k]);
    }
    if word.len() < s.len() {
        assert(s[word.len() as int] == rest[0]);
    }
    lemma_run_len_unique(s, whitespace(), word.len() as int);
    assert(s.take(word.len() as int) == word);
    assert(s.skip(word.len() as int) == rest);
}

/// A space at the start adds no word.
pub proof fn lemma_words_after_space(rest: Seq<char>)
    ensures
        words(seq![' '] + rest) == words(rest),
{
    let s = seq![' '] + rest;
    assert(s[0] == ' ');
    assert(s.drop_first() == rest);
}

/// The words of the attributes of a line are their tokens.
pub proof fn lemma_words_of_attributes(pairs: Seq<(Seq<char>, Seq<char>)>)
    requires
        forall|i: int| 0 <= i < pairs.len() ==> is_plain(#[trigger] pairs[i].0) && is_plain(pairs[i].1),
    ensures
        words(attributes_text(pairs)) == attribute_tokens(pairs),
        attributes_text(pairs).len() == 0 || is_whitespace(attributes_text(pairs)[0]),
    decreases pairs.len(),
{
    if pairs.len() == 0 {
        assert(attribute_tokens(pairs) =~= Seq::empty());
    } else {
        let token = attribute_token(pairs[0]);
        let rest = pairs.drop_first();
        let tail = attributes_text(rest);
        assert forall|i: int| 0 <= i < rest.len() implies is_plain(#[trigger] rest[i].0) && is_plain(
            rest[i].1,
        ) by {
            assert(rest[i] == pairs[i + 1]);
        }
        lemma_words_of_attributes(rest);
        assert(is_word(token)) by {
            let key = pairs[0].0;
            let value = pairs[0].1;
            assert forall|i: int| 0 <= i < token.len() implies !is_whitespace(#[trigger] token[i]) by {
                if i < key.len() {
                    assert(token[i] == key[i]);
                } else if i == key.len() {
                    assert(token[i] == '=');
                } else {
                    assert(token[i] == value[i - key.len() - 1]);
                }
            }
        }
        assert(attributes_text(pairs) == seq![' '] + (token + tail));
        lemma_words_after_space(token + tail);
        lemma_words_after_word(token, tail);
        assert(attribute_tokens(pairs) =~= seq![token] + attribute_tokens(rest));
        assert(attributes_text(pairs)[0] == ' ');
    }
}

/// The token of an attribute splits into its key and its value.
pub proof fn lemma_token_splits(pair: (Seq<char>, Seq<char>))
    requires
        is_plain(pair.0),
        is_plain(pair.1),
    ensures
        key_value(attribute_token(pair)) == Some(pair),
{
    let key = pair.0;
    let value = pair.1;
    let token = attribute_token(pair);
    assert forall|k: int| 0 <= k < key.len() implies !(is_char('='))(#[trigger] token[k]) by {
        assert(token[k] == key[k]);
    }
    assert(token[key.len() as int] == '=');
    lemma_run_len_unique(token, is_char('='), key.len() as int);
    let after = token.skip(key.len() as int + 1);
    assert(after == value);
    assert forall|k: int| 0 <= k < value.len() implies !(is_char('='))(#[trigger] value[k]) by {}
    lemma_run_len_unique(value, is_char('='), value.len() as int);
    assert(token.take(key.len() as int) == key);
}

/// The seven known keys are seven different texts.
pub proof fn lemma_keys_differ()
    ensures
        "transport"@ != "ip"@,
        "transport"@ != "blocklist"@,
        "transport"@ != "distributed"@,
        "transport"@ != "state"@,
        "transport"@ != "bandwidth"@,
        "transport"@ != "ratio"@,
        "ip"@ != "blocklist"@,
        "ip"@ != "distributed"@,
        "ip"@ != "state"@,
        "ip"@ != "bandwidth"@,
        "ip"@ != "ratio"@,
        "blocklist"@ != "distributed"@,
        "blocklist"@ != "state"@,
        "blocklist"@ != "bandwidth"@,
        "blocklist"@ != "ratio"@,
        "distributed"@ != "state"@,
        "distributed"@ != "bandwidth"@,
        "distributed"@ != "ratio"@,
        "state"@ != "bandwidth"@,
        "state"@ != "ratio"@,
        "bandwidth"@ != "ratio"@,
{
    reveal_strlit("transport");
    reveal_strlit("ip");
    reveal_strlit("blocklist");
    reveal_strlit("distributed");
    reveal_strlit("state");
    reveal_strlit("bandwidth");
    reveal_strlit("ratio");
    assert("transport"@.len() == 9 && "ip"@.len() == 2 && "blocklist"@.len() == 9);
    assert("distributed"@.len() == 11 && "state"@.len() == 5 && "bandwidth"@.len() == 9);
    assert("ratio"@.len() == 5);
    assert("transport"@[0] == 't' && "blocklist"@[0] == 'b' && "bandwidth"@[0] == 'b');
    assert("blocklist"@[1] == 'l' && "bandwidth"@[1] == 'a');
    assert("state"@[0] == 's' && "ratio"@[0] == 'r');
}

/// Reading the tokens of a sequence of attributes gives each known key the
/// value written last.
pub proof fn lemma_tokens_give_last_values(
    fingerprint: Seq<char>,
    method: Seq<char>,
    pairs: Seq<(Seq<char>, Seq<char>)>,
)
    requires
        forall|i: int| 0 <= i < pairs.len() ==> is_plain(#[trigger] pairs[i].0) && is_plain(pairs[i].1),
    ensures
        with_tokens(blank_entry(fingerprint, method), attribute_tokens(pairs)) == entry_of_pairs(
            fingerprint,
            method,
            pairs,
        ),
    decreases pairs.len(),
{
    let start = blank_entry(fingerprint, method);
    if pairs.len() == 0 {
        assert(attribute_tokens(pairs) =~= Seq::empty());
    } else {
        let before = pairs.drop_last();
        let last = pairs.last();
        assert forall|i: int| 0 <= i < before.len() implies is_plain(#[trigger] before[i].0)
            && is_plain(before[i].1) by {
            assert(before[i] == pairs[i]);
        }
        lemma_tokens_give_last_values(fingerprint, method, before);
        lemma_token_splits(last);
        lemma_keys_differ();
        let tokens = attribute_tokens(pairs);
        assert(tokens.drop_last() =~= attribute_tokens(before));
        assert(tokens.last() == attribute_token(last));
        let earlier = entry_of_pairs(fingerprint, method, before);
        assert(with_tokens(start, tokens) == with_attribute(earlier, last.0, last.1));
    }
}

/// Every line made of a fingerprint, a method and attributes `key=value`,
/// with one space between them, reads as an entry; the entry has that
/// fingerprint and method, and each known key gives its field the value
/// written last. Keys that are not known change nothing.
pub proof fn lemma_valid_line_round_trips(
    fingerprint: Seq<char>,
    method: Seq<char>,
    pairs: Seq<(Seq<char>, Seq<char>)>,
)
    requires
        is_fingerprint(fingerprint),
        is_word(method),
        forall|i: int| 0 <= i < pairs.len() ==> is_plain(#[trigger] pairs[i].0) && is_plain(pairs[i].1),
    ensures
        line_entry(report_line(fingerprint, method, pairs)) == Ok::<LineEntryView, ErrorView>(
            entry_of_pairs(fingerprint, method, pairs),
        ),
{
    let tail = attributes_text(pairs);
    lemma_words_of_attributes(pairs);
    assert(is_word(fingerprint)) by {
        assert forall|i: int| 0 <= i < fingerprint.len() implies !is_whitespace(
            #[trigger] fingerprint[i],
        ) by {
            assert(is_hex_digit(fingerprint[i]));
        }
    }
    let line = report_line(fingerprint, method, pairs);
    assert(line == fingerprint + (seq![' '] + (method + tail)));
    assert((seq![' '] + (method + tail))[0] == ' ');
    lemma_words_after_word(fingerprint, seq![' '] + (method + tail));
    lemma_words_after_space(method + tail);
    lemma_words_after_word(method, tail);
    let parts = words(line);
    assert(parts =~= seq![fingerprint, method] + attribute_tokens(pairs));
    assert(parts.skip(2) =~= attribute_tokens(pairs));
    lemma_tokens_give_last_values(fingerprint, method, pairs);
}

/// A line whose first word is not forty characters long, and a line of
/// fewer than two words, is no entry: reading it fails with an invalid-line
/// error.
pub proof fn lemma_wrong_length_rejected(line: Seq<char>)
    requires
        words(line).len() < 2 || words(line)[0].len() != 40,
    ensures
        line_entry(line) matches Err(ErrorView::InvalidLine(_)),
{
}

/// Reading tokens leaves the fingerprint alone and sets no ratio that is
/// not a number.
pub proof fn lemma_tokens_keep_fingerprint(start: LineEntryView, tokens: Seq<Seq<char>>)
    requires
        start.ratio matches Some(text) ==> is_float_text(text),
    ensures
        with_tokens(start, tokens).fingerprint == start.fingerprint,
        with_tokens(start, tokens).ratio matches Some(text) ==> is_float_text(text),
    decreases tokens.len(),
{
    if tokens.len() > 0 {
        lemma_tokens_keep_fingerprint(start, tokens.drop_last());
    }
}

/// A line whose first word is not forty hexadecimal digits gives its file
/// no entry, whether or not the line reads as one.
pub proof fn lemma_non_fingerprint_dropped(line: Seq<char>, file_sha: Seq<char>)
    requires
        words(line).len() >= 1 ==> !is_fingerprint(words(line)[0]),
    ensures
        kept_entry(line, file_sha).is_none(),
{
    let parts = words(line);
    if parts.len() >= 2 && parts[0].len() == 40 {
        lemma_tokens_keep_fingerprint(blank_entry(parts[0], parts[1]), parts.skip(2));
    }
}

/// Every entry of a parsed report is well formed: its fingerprint is forty
/// hexadecimal digits, and its ratio, if it has one, is a number.
pub proof fn lemma_kept_entries_well_formed(ls: Seq<Seq<char>>, file_sha: Seq<char>)
    ensures
        forall|i: int|
            0 <= i < kept_entries(ls, file_sha).len() ==> (#[trigger] kept_entries(
                ls,
                file_sha,
            )[i]).well_formed(),
    decreases ls.len(),
{
    if ls.len() > 0 {
        let rest = kept_entries(ls.drop_last(), file_sha);
        let all = kept_entries(ls, file_sha);
        lemma_kept_entries_well_formed(ls.drop_last(), file_sha);
        let parts = words(ls.last());
        if parts.len() >= 2 && parts[0].len() == 40 {
            lemma_tokens_keep_fingerprint(blank_entry(parts[0], parts[1]), parts.skip(2));
        }
        assert forall|i: int| 0 <= i < all.len() implies (#[trigger] all[i]).well_formed() by {
            if i < rest.len() {
                assert(all[i] == rest[i]);
            } else {
                assert(kept_entry(ls.last(), file_sha) == Some(all[i]));
            }
        }
    }
}

/// The digest of a file depends on its bytes alone: two files with the
/// same bytes have the same digest, whatever their paths and times.
pub proof fn lemma_file_sha_deterministic(a: RawFileView, b: RawFileView)
    requires
        a.raw == b.raw,
    ensures
        parsed_report(a).file_sha == parsed_report(b).file_sha,
{
}

/// The digest of an entry is taken over its file as well as its line: the
/// same line under two different file digests is hashed from two different
/// byte strings.
pub proof fn lemma_entry_digest_scoped(line: Seq<char>, file_a: Seq<char>, file_b: Seq<char>)
    requires
        file_a != file_b,
    ensures
        entry_preimage(encode_utf8(line), encode_utf8(file_a)) != entry_preimage(
            encode_utf8(line),
            encode_utf8(file_b),
        ),
{
    encode_utf8_decode_utf8(file_a);
    encode_utf8_decode_utf8(file_b);
    lemma_entry_preimage_scoped(encode_utf8(line), encode_utf8(file_a), encode_utf8(file_b));
}

} // verus!
