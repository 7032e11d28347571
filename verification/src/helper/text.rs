//! Text as sequences of characters: white space, words, lines and prefixes.
//!
//! Every function here works on `Vec<char>` so that positions are character
//! positions and each step is a constant-time index.

use vstd::prelude::*;

verus! {

/// `String::push` of the standard library: the character is appended at the
/// end of the string and nothing else changes.
pub assume_specification[ String::push ](s: &mut String, c: char)
    ensures
        final(s)@ == old(s)@.push(c),
;

/// The characters with the Unicode property `White_Space`.
pub open spec fn is_whitespace(c: char) -> bool {
    let u = c as u32;
    ||| 0x09 <= u <= 0x0D
    ||| u == 0x20
    ||| u == 0x85
    ||| u == 0xA0
    ||| u == 0x1680
    ||| 0x2000 <= u <= 0x200A
    ||| u == 0x2028
    ||| u == 0x2029
    ||| u == 0x202F
    ||| u == 0x205F
    ||| u == 0x3000
}

/// The predicate "is white space", as a value.
pub open spec fn whitespace() -> spec_fn(char) -> bool {
    |c: char| is_whitespace(c)
}

/// The predicate "is the character `d`", as a value.
pub open spec fn is_char(d: char) -> spec_fn(char) -> bool {
    |c: char| c == d
}

/// The views of a sequence of character vectors.
pub open spec fn texts(v: Seq<Vec<char>>) -> Seq<Seq<char>> {
    Seq::new(v.len(), |i: int| v[i]@)
}

/// The texts of a sequence of strings.
pub open spec fn string_views(v: Seq<String>) -> Seq<Seq<char>> {
    Seq::new(v.len(), |i: int| v[i]@)
}

/// The text of an optional string.
pub open spec fn optional_text(field: Option<String>) -> Option<Seq<char>> {
    match field {
        Some(text) => Some(text@),
        None => None,
    }
}

/// The number of leading items of `s` before the first one at which `stop`
/// holds; the whole length where it holds nowhere.
pub open spec fn run_len<T>(s: Seq<T>, stop: spec_fn(T) -> bool) -> nat
    decreases s.len(),
{
    if s.len() == 0 || stop(s[0]) {
        0
    } else {
        1 + run_len(s.drop_first(), stop)
    }
}

/// `run_len` stays inside the sequence, passes only items at which `stop`
/// fails, and ends on one at which it holds or at the end.
pub proof fn lemma_run_len<T>(s: Seq<T>, stop: spec_fn(T) -> bool)
    ensures
        run_len(s, stop) <= s.len(),
        forall|k: int| 0 <= k < run_len(s, stop) ==> !stop(#[trigger] s[k]),
        run_len(s, stop) < s.len() ==> stop(s[run_len(s, stop) as int]),
    decreases s.len(),
{
    if s.len() == 0 || stop(s[0]) {
    } else {
        let t = s.drop_first();
        lemma_run_len(t, stop);
        assert forall|k: int| 0 <= k < run_len(s, stop) implies !stop(#[trigger] s[k]) by {
            if k > 0 {
                assert(s[k] == t[k - 1]);
            }
        }
        if run_len(s, stop) < s.len() {
            assert(s[run_len(s, stop) as int] == t[run_len(t, stop) as int]);
        }
    }
}

/// The position described by [`lemma_run_len`] is the only one of its kind.
pub proof fn lemma_run_len_unique<T>(s: Seq<T>, stop: spec_fn(T) -> bool, n: int)
    requires
        0 <= n <= s.len(),
        forall|k: int| 0 <= k < n ==> !stop(#[trigger] s[k]),
        n < s.len() ==> stop(s[n]),
    ensures
        run_len(s, stop) == n,
    decreases s.len(),
{
    if s.len() == 0 || stop(s[0]) {
        if n > 0 {
            assert(!stop(s[0]));
        }
    } else {
        let t = s.drop_first();
        assert forall|k: int| 0 <= k < n - 1 implies !stop(#[trigger] t[k]) by {
            assert(t[k] == s[k + 1]);
        }
        if n - 1 < t.len() {
            assert(t[n - 1] == s[n]);
        }
        lemma_run_len_unique(t, stop, n - 1);
    }
}

/// The words of `s`: its maximal runs of characters that are not white
/// space, from left to right.
pub open spec fn words(s: Seq<char>) -> Seq<Seq<char>>
    decreases s.len(),
{
    if s.len() == 0 {
        Seq::empty()
    } else if is_whitespace(s[0]) {
        words(s.drop_first())
    } else {
        let n = run_len(s, whitespace()) as int;
        proof {
            lemma_run_len(s, whitespace());
        }
        seq![s.take(n)] + words(s.skip(n))
    }
}

/// `line` without one trailing carriage return, if it has one.
pub open spec fn strip_cr(line: Seq<char>) -> Seq<char> {
    if line.len() > 0 && line.last() == '\r' {
        line.drop_last()
    } else {
        line
    }
}

/// The lines of `s`. A line ends at a line feed; a carriage return directly
/// before that line feed belongs to the line ending. The last line needs no
/// line ending, and keeps a trailing carriage return if it has none.
pub open spec fn lines(s: Seq<char>) -> Seq<Seq<char>>
    decreases s.len(),
{
    if s.len() == 0 {
        Seq::empty()
    } else {
        let n = run_len(s, is_char('\n')) as int;
        proof {
            lemma_run_len(s, is_char('\n'));
        }
        if n == s.len() {
            seq![s]
        } else {
            seq![strip_cr(s.take(n))] + lines(s.skip(n + 1))
        }
    }
}

/// Splits a token at its only `=`: the part before and the part after.
/// A token with no `=`, or with more than one, has no such split.
pub open spec fn key_value(token: Seq<char>) -> Option<(Seq<char>, Seq<char>)> {
    let i = run_len(token, is_char('=')) as int;
    if i < token.len() && run_len(token.skip(i + 1), is_char('=')) == token.len() - i - 1 {
        Some((token.take(i), token.skip(i + 1)))
    } else {
        None
    }
}

/// The parts of `s` between the occurrences of `c`. There is always at
/// least one part; a part may be empty.
pub open spec fn split_on(s: Seq<char>, c: char) -> Seq<Seq<char>>
    decreases s.len(),
{
    let n = run_len(s, is_char(c)) as int;
    proof {
        lemma_run_len(s, is_char(c));
    }
    if n >= s.len() {
        seq![s]
    } else {
        seq![s.take(n)] + split_on(s.skip(n + 1), c)
    }
}

/// `s` without the occurrences of `c` at its start.
pub open spec fn trim_start(s: Seq<char>, c: char) -> Seq<char>
    decreases s.len(),
{
    if s.len() > 0 && s[0] == c {
        trim_start(s.drop_first(), c)
    } else {
        s
    }
}

/// `s` without the occurrences of `c` at its end.
pub open spec fn trim_end(s: Seq<char>, c: char) -> Seq<char>
    decreases s.len(),
{
    if s.len() > 0 && s.last() == c {
        trim_end(s.drop_last(), c)
    } else {
        s
    }
}

/// `s` without the occurrences of `c` at its start and at its end.
pub open spec fn trim(s: Seq<char>, c: char) -> Seq<char> {
    trim_end(trim_start(s, c), c)
}

/// A copy of an optional string.
pub fn copy_optional(field: &Option<String>) -> (copy: Option<String>)
    ensures
        optional_text(copy) == optional_text(*field),
{
    match field {
        Some(text) => Some(text.clone()),
        None => None,
    }
}

/// The characters of a string slice, in order.
pub fn to_chars(s: &str) -> (v: Vec<char>)
    ensures
        v@ == s@,
{
    let mut v: Vec<char> = Vec::new();
    for c in it: s.chars()
        invariant
            v@ == it.seq().take(it.index() as int),
            it.seq() == s@,
    {
        v.push(c);
    }
    v
}

/// The string made of the characters `chars[from..to]`.
pub fn string_of_range(chars: &Vec<char>, from: usize, to: usize) -> (s: String)
    requires
        from <= to <= chars.len(),
    ensures
        s@ == chars@.subrange(from as int, to as int),
{
    let mut s = String::new();
    let mut i: usize = from;
    while i < to
        invariant
            from <= i <= to <= chars.len(),
            s@ == chars@.subrange(from as int, i as int),
        decreases to - i,
    {
        s.push(chars[i]);
        i += 1;
    }
    s
}

/// The string made of all the characters of `chars`.
pub fn string_of(chars: &Vec<char>) -> (s: String)
    ensures
        s@ == chars@,
{
    let s = string_of_range(chars, 0, chars.len());
    assert(chars@.subrange(0, chars@.len() as int) == chars@);
    s
}

/// A copy of `chars[from..to]`.
pub fn copy_range(chars: &Vec<char>, from: usize, to: usize) -> (part: Vec<char>)
    requires
        from <= to <= chars.len(),
    ensures
        part@ == chars@.subrange(from as int, to as int),
{
    let mut part: Vec<char> = Vec::new();
    let mut i: usize = from;
    while i < to
        invariant
            from <= i <= to <= chars.len(),
            part@ == chars@.subrange(from as int, i as int),
        decreases to - i,
    {
        part.push(chars[i]);
        i += 1;
    }
    part
}

/// Whether two character vectors hold the same text.
pub fn chars_equal(a: &Vec<char>, b: &Vec<char>) -> (same: bool)
    ensures
        same == (a@ == b@),
{
    if a.len() != b.len() {
        return false;
    }
    let mut i: usize = 0;
    while i < a.len()
        invariant
            i <= a.len() == b.len(),
            a@.take(i as int) == b@.take(i as int),
        decreases a.len() - i,
    {
        if a[i] != b[i] {
            return false;
        }
        assert(a@.take(i + 1) == a@.take(i as int).push(a@[i as int]));
        assert(b@.take(i + 1) == b@.take(i as int).push(b@[i as int]));
        i += 1;
    }
    assert(a@ == a@.take(a@.len() as int));
    assert(b@ == b@.take(b@.len() as int));
    true
}

/// Whether `chars` holds exactly the text of `literal`.
pub fn chars_are(chars: &Vec<char>, literal: &str) -> (same: bool)
    ensures
        same == (chars@ == literal@),
{
    let other = to_chars(literal);
    chars_equal(chars, &other)
}

/// Whether `chars` begins with `prefix`.
pub fn starts_with(chars: &Vec<char>, prefix: &Vec<char>) -> (found: bool)
    ensures
        found == prefix@.is_prefix_of(chars@),
{
    if prefix.len() > chars.len() {
        return false;
    }
    let mut i: usize = 0;
    while i < prefix.len()
        invariant
            i <= prefix.len() <= chars.len(),
            forall|k: int| 0 <= k < i ==> chars@[k] == prefix@[k],
        decreases prefix.len() - i,
    {
        if chars[i] != prefix[i] {
            assert(chars@.subrange(0, prefix@.len() as int)[i as int] != prefix@[i as int]);
            return false;
        }
        i += 1;
    }
    assert(chars@.subrange(0, prefix@.len() as int) =~= prefix@);
    true
}

/// Whether `c` has the Unicode property `White_Space`.
pub fn char_is_whitespace(c: char) -> (b: bool)
    ensures
        b == is_whitespace(c),
{
    let u = c as u32;
    (0x09 <= u && u <= 0x0D) || u == 0x20 || u == 0x85 || u == 0xA0 || u == 0x1680 || (0x2000 <= u
        && u <= 0x200A) || u == 0x2028 || u == 0x2029 || u == 0x202F || u == 0x205F || u == 0x3000
}

/// The end of the run of characters that starts at `from` and holds no
/// white space.
pub fn scan_word(chars: &Vec<char>, from: usize) -> (to: usize)
    requires
        from <= chars.len(),
    ensures
        from <= to <= chars.len(),
        to == from + run_len(chars@.skip(from as int), whitespace()),
{
    let mut to: usize = from;
    while to < chars.len() && !char_is_whitespace(chars[to])
        invariant
            from <= to <= chars.len(),
            forall|k: int| from <= k < to ==> !is_whitespace(chars@[k]),
        decreases chars.len() - to,
    {
        to += 1;
    }
    proof {
        let rest = chars@.skip(from as int);
        assert forall|k: int| 0 <= k < to - from implies !(whitespace())(#[trigger] rest[k]) by {
            assert(rest[k] == chars@[from + k]);
        }
        lemma_run_len_unique(rest, whitespace(), to - from);
    }
    to
}

/// The position of the first `stop` at or after `from`, or the length of
/// `chars` where there is none.
pub fn scan_to_char(chars: &Vec<char>, from: usize, stop: char) -> (to: usize)
    requires
        from <= chars.len(),
    ensures
        from <= to <= chars.len(),
        to == from + run_len(chars@.skip(from as int), is_char(stop)),
{
    let mut to: usize = from;
    while to < chars.len() && chars[to] != stop
        invariant
            from <= to <= chars.len(),
            forall|k: int| from <= k < to ==> chars@[k] != stop,
        decreases chars.len() - to,
    {
        to += 1;
    }
    proof {
        let rest = chars@.skip(from as int);
        assert forall|k: int| 0 <= k < to - from implies !(is_char(stop))(#[trigger] rest[k]) by {
            assert(rest[k] == chars@[from + k]);
        }
        lemma_run_len_unique(rest, is_char(stop), to - from);
    }
    to
}

/// The words of `chars`, each as a vector of its own.
pub fn split_words(chars: &Vec<char>) -> (out: Vec<Vec<char>>)
    ensures
        texts(out@) == words(chars@),
{
    let mut out: Vec<Vec<char>> = Vec::new();
    let n = chars.len();
    let mut i: usize = 0;
    assert(chars@.skip(0) == chars@);
    assert(texts(out@) + words(chars@) == words(chars@));
    while i < n
        invariant
            i <= n == chars@.len(),
            texts(out@) + words(chars@.skip(i as int)) == words(chars@),
        decreases n - i,
    {
        let ghost rest = chars@.skip(i as int);
        if char_is_whitespace(chars[i]) {
            assert(rest.drop_first() == chars@.skip(i + 1));
            i += 1;
        } else {
            let end = scan_word(chars, i);
            let word = copy_range(chars, i, end);
            proof {
                let len = run_len(rest, whitespace()) as int;
                assert(rest.take(len) == chars@.subrange(i as int, end as int));
                assert(rest.skip(len) == chars@.skip(end as int));
                assert(texts(out@.push(word)) == texts(out@).push(word@));
                assert(texts(out@).push(word@) + words(chars@.skip(end as int)) == texts(out@) + (
                seq![word@] + words(chars@.skip(end as int))));
            }
            out.push(word);
            i = end;
        }
    }
    assert(chars@.skip(n as int).len() == 0);
    assert(texts(out@) + Seq::<Seq<char>>::empty() == texts(out@));
    out
}

/// The lines of `chars`, each as a vector of its own.
pub fn split_lines(chars: &Vec<char>) -> (out: Vec<Vec<char>>)
    ensures
        texts(out@) == lines(chars@),
{
    let mut out: Vec<Vec<char>> = Vec::new();
    let n = chars.len();
    let mut i: usize = 0;
    assert(chars@.skip(0) == chars@);
    assert(texts(out@) + lines(chars@) == lines(chars@));
    while i < n
        invariant
            i <= n == chars@.len(),
            texts(out@) + lines(chars@.skip(i as int)) == lines(chars@),
        decreases n - i,
    {
        let ghost rest = chars@.skip(i as int);
        let end = scan_to_char(chars, i, '\n');
        if end == n {
            let line = copy_range(chars, i, n);
            proof {
                assert(rest == chars@.subrange(i as int, n as int));
                assert(texts(out@.push(line)) == texts(out@).push(line@));
                assert(chars@.skip(n as int).len() == 0);
                assert(texts(out@).push(line@) + lines(chars@.skip(n as int)) == texts(out@)
                    + seq![rest]);
            }
            out.push(line);
            i = n;
        } else {
            let stop = if end > i && chars[end - 1] == '\r' {
                end - 1
            } else {
                end
            };
            let line = copy_range(chars, i, stop);
            proof {
                let len = end - i;
                let raw = rest.take(len);
                assert(raw == chars@.subrange(i as int, end as int));
                assert(rest.skip(len + 1) == chars@.skip(end + 1));
                assert(strip_cr(raw) == chars@.subrange(i as int, stop as int));
                assert(texts(out@.push(line)) == texts(out@).push(line@));
                assert(texts(out@).push(line@) + lines(chars@.skip(end + 1)) == texts(out@) + (
                seq![line@] + lines(chars@.skip(end + 1))));
            }
            out.push(line);
            i = end + 1;
        }
    }
    assert(chars@.skip(n as int).len() == 0);
    assert(texts(out@) + Seq::<Seq<char>>::empty() == texts(out@));
    out
}

/// Splits `token` at its only `=`, if it has exactly one.
pub fn split_key_value(token: &Vec<char>) -> (parts: Option<(Vec<char>, Vec<char>)>)
    ensures
        match parts {
            Some((key, value)) => key_value(token@) == Some((key@, value@)),
            None => key_value(token@).is_none(),
        },
{
    let n = token.len();
    let first = scan_to_char(token, 0, '=');
    assert(token@.skip(0) == token@);
    if first >= n {
        return None;
    }
    let second = scan_to_char(token, first + 1, '=');
    if second < n {
        return None;
    }
    let key = copy_range(token, 0, first);
    let value = copy_range(token, first + 1, n);
    assert(token@.take(first as int) == token@.subrange(0, first as int));
    assert(token@.skip(first + 1) == token@.subrange(first + 1, n as int));
    Some((key, value))
}

/// The parts of `chars` between the occurrences of `c`.
pub fn split_chars(chars: &Vec<char>, c: char) -> (out: Vec<Vec<char>>)
    ensures
        texts(out@) == split_on(chars@, c),
{
    let mut out: Vec<Vec<char>> = Vec::new();
    let n = chars.len();
    let mut i: usize = 0;
    assert(chars@.skip(0) == chars@);
    assert(texts(out@) + split_on(chars@, c) == split_on(chars@, c));
    loop
        invariant
            i <= n == chars@.len(),
            texts(out@) + split_on(chars@.skip(i as int), c) == split_on(chars@, c),
        decreases n - i,
    {
        let ghost rest = chars@.skip(i as int);
        let end = scan_to_char(chars, i, c);
        let part = copy_range(chars, i, end);
        proof {
            assert(rest.take(end - i) == chars@.subrange(i as int, end as int));
            assert(texts(out@.push(part)) == texts(out@).push(part@));
        }
        if end == n {
            proof {
                assert(rest == chars@.subrange(i as int, n as int));
                assert(texts(out@).push(part@) == texts(out@) + seq![rest]);
            }
            out.push(part);
            return out;
        }
        proof {
            assert(rest.skip(end - i + 1) == chars@.skip(end + 1));
            assert(texts(out@).push(part@) + split_on(chars@.skip(end + 1), c) == texts(out@) + (
            seq![part@] + split_on(chars@.skip(end + 1), c)));
        }
        out.push(part);
        i = end + 1;
    }
}

/// `chars` without the occurrences of `c` at its end.
pub fn trim_end_chars(chars: &Vec<char>, c: char) -> (out: Vec<char>)
    ensures
        out@ == trim_end(chars@, c),
{
    let mut b: usize = chars.len();
    assert(chars@.take(b as int) == chars@);
    while b > 0 && chars[b - 1] == c
        invariant
            b <= chars.len(),
            trim_end(chars@, c) == trim_end(chars@.take(b as int), c),
        decreases b,
    {
        assert(chars@.take(b as int).drop_last() == chars@.take(b - 1));
        b -= 1;
    }
    if b > 0 {
        assert(chars@.take(b as int).last() == chars@[b - 1]);
    }
    assert(chars@.take(b as int) == chars@.subrange(0, b as int));
    copy_range(chars, 0, b)
}

/// `chars` without the occurrences of `c` at its start and at its end.
pub fn trim_chars(chars: &Vec<char>, c: char) -> (out: Vec<char>)
    ensures
        out@ == trim(chars@, c),
{
    let n = chars.len();
    let mut a: usize = 0;
    assert(chars@.skip(0) == chars@);
    while a < n && chars[a] == c
        invariant
            a <= n == chars@.len(),
            trim_start(chars@, c) == trim_start(chars@.skip(a as int), c),
        decreases n - a,
    {
        assert(chars@.skip(a as int).drop_first() == chars@.skip(a + 1));
        a += 1;
    }
    if a < n {
        assert(chars@.skip(a as int)[0] == chars@[a as int]);
    }
    let front = copy_range(chars, a, n);
    assert(front@ == chars@.skip(a as int));
    trim_end_chars(&front, c)
}

} // verus!
