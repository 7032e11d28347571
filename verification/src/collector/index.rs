//! The directory index: a tree of directories, each with a list of files,
//! and the search for the newest files under a path.

use vstd::prelude::*;
use crate::error::{BridgeError, ErrorView};
use crate::helper::clock::{datetime_millis, parse_datetime_millis};
use crate::helper::text::{
    lemma_run_len, lemma_run_len_unique, run_len, split_chars, split_on, string_of, texts, to_chars,
    trim, trim_chars, trim_end, trim_end_chars,
};

verus! {

/// How the time of the last change of a file is written in the index.
pub const MODIFIED_FORMAT: &'static str = "%Y-%m-%d %H:%M";

/// A JSON value. A number is kept as the text it was written in; an object
/// is kept as its members in order.
#[derive(Debug)]
pub enum Json {
    Null,
    Bool(bool),
    Number(String),
    Text(String),
    Array(Vec<Json>),
    Object(Vec<(String, Json)>),
}

/// The value of the member `key` among `members`; the last one where the
/// key occurs more than once, and `Null` where it does not occur.
pub open spec fn lookup(members: Seq<(String, Json)>, key: Seq<char>) -> Json
    decreases members.len(),
{
    if members.len() == 0 {
        Json::Null
    } else if members.last().0@ == key {
        members.last().1
    } else {
        lookup(members.drop_last(), key)
    }
}

/// The member `key` of `value`; `Null` where `value` is no object or has no
/// such member.
pub open spec fn json_member(value: Json, key: Seq<char>) -> Json {
    match value {
        Json::Object(members) => lookup(members@, key),
        _ => Json::Null,
    }
}

/// The items of `value`, where it is an array.
pub open spec fn json_array(value: Json) -> Option<Seq<Json>> {
    match value {
        Json::Array(items) => Some(items@),
        _ => None,
    }
}

/// The text of `value`, where it is a string.
pub open spec fn json_text(value: Json) -> Option<Seq<char>> {
    match value {
        Json::Text(text) => Some(text@),
        _ => None,
    }
}

/// Whether `entry` is the directory called `name`: its member `path` is
/// that text.
pub open spec fn is_directory_named(entry: Json, name: Seq<char>) -> bool {
    json_text(json_member(entry, "path"@)) == Some(name)
}

/// The first of `entries` that is the directory called `name`.
pub open spec fn find_directory(entries: Seq<Json>, name: Seq<char>) -> Option<Json>
    decreases entries.len(),
{
    if entries.len() == 0 {
        None
    } else if is_directory_named(entries[0], name) {
        Some(entries[0])
    } else {
        find_directory(entries.drop_first(), name)
    }
}

/// The error of a directory that is not listed.
pub open spec fn directory_missing(name: Seq<char>) -> ErrorView {
    ErrorView::Parse("Directory '"@ + name + "' not found"@)
}

/// The directory reached from `listing`, a list of directories, by going
/// down one segment at a time.
pub open spec fn descend(listing: Json, segments: Seq<Seq<char>>) -> Result<Json, ErrorView>
    decreases segments.len(),
{
    if segments.len() == 0 {
        Ok(listing)
    } else {
        match json_array(listing) {
            None => Err(ErrorView::Parse("Expected array while traversing index.json"@)),
            Some(entries) => match find_directory(entries, segments[0]) {
                None => Err(directory_missing(segments[0])),
                Some(entry) => if segments.len() == 1 {
                    Ok(entry)
                } else {
                    descend(json_member(entry, "directories"@), segments.drop_first())
                },
            },
        }
    }
}

/// The time of the last change that a file of the index gives, in
/// milliseconds since the epoch. A time that is absent or cannot be read
/// counts as the epoch.
pub open spec fn modified_millis(file: Json) -> i64 {
    match json_text(json_member(file, "last_modified"@)) {
        Some(text) => match datetime_millis(text, MODIFIED_FORMAT@) {
            Some(millis) => millis,
            None => 0,
        },
        None => 0,
    }
}

/// The path and the time of the last change of each of `files`, the path
/// with `prefix` and a slash before it; or the error of the first file
/// that has no path.
pub open spec fn listed_files(files: Seq<Json>, prefix: Seq<char>) -> Result<
    Seq<(Seq<char>, i64)>,
    ErrorView,
>
    decreases files.len(),
{
    if files.len() == 0 {
        Ok(Seq::empty())
    } else {
        match listed_files(files.drop_last(), prefix) {
            Err(e) => Err(e),
            Ok(before) => match json_text(json_member(files.last(), "path"@)) {
                None => Err(ErrorView::Parse("file missing 'path'"@)),
                Some(path) => Ok(
                    before.push((prefix + seq!['/'] + path, modified_millis(files.last()))),
                ),
            },
        }
    }
}

/// The predicate "was changed before `millis`", as a value.
pub open spec fn older_than(millis: i64) -> spec_fn((Seq<char>, i64)) -> bool {
    |entry: (Seq<char>, i64)| entry.1 < millis
}

/// `entries` ordered from the newest to the oldest. Entries of the same
/// time keep the order in which they were listed.
pub open spec fn newest_first(entries: Seq<(Seq<char>, i64)>) -> Seq<(Seq<char>, i64)>
    decreases entries.len(),
{
    if entries.len() == 0 {
        Seq::empty()
    } else {
        let sorted = newest_first(entries.drop_last());
        let added = entries.last();
        sorted.insert(run_len(sorted, older_than(added.1)) as int, added)
    }
}

/// The first `limit` of `entries`, or all of them where there are fewer.
pub open spec fn at_most(entries: Seq<(Seq<char>, i64)>, limit: nat) -> Seq<(Seq<char>, i64)> {
    if limit < entries.len() {
        entries.take(limit as int)
    } else {
        entries
    }
}

/// The newest files under `target` in `index`: up to `limit` of them, each
/// with its path from the root and the time of its last change, the newest
/// first.
pub open spec fn latest_entries(index: Json, target: Seq<char>, limit: nat) -> Result<
    Seq<(Seq<char>, i64)>,
    ErrorView,
> {
    match descend(json_member(index, "directories"@), split_on(trim(target, '/'), '/')) {
        Err(e) => Err(e),
        Ok(directory) => match json_array(json_member(directory, "files"@)) {
            None => Err(ErrorView::Parse("Final segment missing 'files' array"@)),
            Some(files) => match listed_files(files, trim_end(target, '/')) {
                Err(e) => Err(e),
                Ok(listed) => Ok(at_most(newest_first(listed), limit)),
            },
        },
    }
}

/// The values of a sequence of paths with their times.
pub open spec fn entry_pairs(entries: Seq<(String, i64)>) -> Seq<(Seq<char>, i64)> {
    Seq::new(entries.len(), |i: int| (entries[i].0@, entries[i].1))
}

/// The value of the outcome of a search of the index.
pub open spec fn entries_outcome_view(outcome: Result<Vec<(String, i64)>, BridgeError>) -> Result<
    Seq<(Seq<char>, i64)>,
    ErrorView,
> {
    match outcome {
        Ok(entries) => Ok(entry_pairs(entries@)),
        Err(e) => Err(e@),
    }
}

/// The newest-first order is an order: no entry stands before a newer one.
pub proof fn lemma_newest_first_sorted(entries: Seq<(Seq<char>, i64)>)
    ensures
        newest_first(entries).len() == entries.len(),
        forall|i: int, j: int|
            0 <= i <= j < entries.len() ==> (#[trigger] newest_first(entries)[i]).1 >= (
            #[trigger] newest_first(entries)[j]).1,
    decreases entries.len(),
{
    if entries.len() > 0 {
        let sorted = newest_first(entries.drop_last());
        let added = entries.last();
        let at = run_len(sorted, older_than(added.1)) as int;
        lemma_newest_first_sorted(entries.drop_last());
        lemma_run_len(sorted, older_than(added.1));
        let result = sorted.insert(at, added);
        assert(result == newest_first(entries));
        assert forall|i: int, j: int| 0 <= i <= j < entries.len() implies (#[trigger] result[i]).1 >= (
        #[trigger] result[j]).1 by {
            if j < at {
                assert(result[i] == sorted[i] && result[j] == sorted[j]);
            } else if j == at {
                if i < at {
                    assert(result[i] == sorted[i]);
                    assert(!(older_than(added.1))(sorted[i]));
                }
            } else {
                assert(result[j] == sorted[j - 1]);
                assert((older_than(added.1))(sorted[at]));
                assert(sorted[at].1 >= sorted[j - 1].1);
                if i < at {
                    assert(result[i] == sorted[i]);
                } else if i > at {
                    assert(result[i] == sorted[i - 1]);
                }
            }
        }
    }
}

/// The newest-first order keeps every entry, as often as it was listed.
pub proof fn lemma_newest_first_permutes(entries: Seq<(Seq<char>, i64)>)
    ensures
        newest_first(entries).to_multiset() == entries.to_multiset(),
    decreases entries.len(),
{
    broadcast use vstd::seq_lib::group_to_multiset_ensures;

    if entries.len() > 0 {
        let rest = entries.drop_last();
        let sorted = newest_first(rest);
        let added = entries.last();
        let at = run_len(sorted, older_than(added.1)) as int;
        lemma_newest_first_permutes(rest);
        lemma_run_len(sorted, older_than(added.1));
        let result = sorted.insert(at, added);
        assert(result.remove(at) =~= sorted);
        assert(result[at] == added);
        vstd::seq_lib::to_multiset_remove(result, at);
        assert(result.contains(added));
        assert(result.to_multiset().count(added) > 0);
        assert(result.to_multiset() =~= sorted.to_multiset().insert(added));
        assert(entries == rest.push(added));
        assert(rest.push(added).to_multiset() =~= rest.to_multiset().insert(added));
    }
}

/// The predicate "was changed at `millis`", as a value.
pub open spec fn changed_at(millis: i64) -> spec_fn((Seq<char>, i64)) -> bool {
    |entry: (Seq<char>, i64)| entry.1 == millis
}

/// Where no item passes, nothing is left.
proof fn lemma_nothing_passes(entries: Seq<(Seq<char>, i64)>, pass: spec_fn((Seq<char>, i64)) -> bool)
    requires
        forall|i: int| 0 <= i < entries.len() ==> !pass(#[trigger] entries[i]),
    ensures
        entries.filter(pass) == Seq::<(Seq<char>, i64)>::empty(),
    decreases entries.len(),
{
    reveal(Seq::filter);
    if entries.len() > 0 {
        let before = entries.drop_last();
        assert forall|i: int| 0 <= i < before.len() implies !pass(#[trigger] before[i]) by {
            assert(before[i] == entries[i]);
        }
        lemma_nothing_passes(before, pass);
    }
}

/// The newest-first order is stable: the entries of any one time stand in
/// the order in which they were listed.
pub proof fn lemma_newest_first_stable(entries: Seq<(Seq<char>, i64)>, millis: i64)
    ensures
        newest_first(entries).filter(changed_at(millis)) == entries.filter(changed_at(millis)),
    decreases entries.len(),
{
    let pass = changed_at(millis);
    reveal(Seq::filter);
    if entries.len() > 0 {
        let rest = entries.drop_last();
        let sorted = newest_first(rest);
        let added = entries.last();
        let at = run_len(sorted, older_than(added.1)) as int;
        lemma_newest_first_stable(rest, millis);
        lemma_newest_first_sorted(rest);
        lemma_run_len(sorted, older_than(added.1));
        let head = sorted.take(at);
        let tail = sorted.skip(at);
        let result = sorted.insert(at, added);
        assert(result == newest_first(entries));
        assert(result =~= head + seq![added] + tail);
        assert(sorted =~= head + tail);
        Seq::filter_distributes_over_add(head + seq![added], tail, pass);
        Seq::filter_distributes_over_add(head, seq![added], pass);
        Seq::filter_distributes_over_add(head, tail, pass);
        assert(seq![added].drop_last() == Seq::<(Seq<char>, i64)>::empty());
        if added.1 == millis {
            assert forall|i: int| 0 <= i < tail.len() implies !pass(#[trigger] tail[i]) by {
                assert(tail[i] == sorted[at + i]);
                assert((older_than(added.1))(sorted[at]));
                assert(sorted[at].1 >= sorted[at + i].1);
            }
            lemma_nothing_passes(tail, pass);
            assert(seq![added].filter(pass) == seq![added]);
            assert(result.filter(pass) =~= sorted.filter(pass).push(added));
        } else {
            assert(seq![added].filter(pass) == Seq::<(Seq<char>, i64)>::empty()) by {
                assert(seq![added][0] == added);
                lemma_nothing_passes(seq![added], pass);
            }
            assert(result.filter(pass) =~= sorted.filter(pass));
        }
    }
}

impl Json {
    /// The member `key` of this value, if it is an object that has one.
    pub fn member(&self, key: &str) -> (found: Option<&Json>)
        ensures
            match found {
                Some(value) => *value == json_member(*self, key@),
                None => json_member(*self, key@) == Json::Null,
            },
    {
        match self {
            Json::Object(members) => {
                let wanted = String::from_str(key);
                let mut i: usize = members.len();
                assert(members@.take(i as int) == members@);
                while i > 0
                    invariant
                        i <= members.len(),
                        wanted@ == key@,
                        json_member(*self, key@) == lookup(members@, key@),
                        lookup(members@, key@) == lookup(members@.take(i as int), key@),
                    decreases i,
                {
                    assert(members@.take(i as int).last() == members@[i - 1]);
                    assert(members@.take(i as int).drop_last() == members@.take(i - 1));
                    let member = &members[i - 1];
                    if member.0 == wanted {
                        assert(lookup(members@.take(i as int), key@) == member.1);
                        return Some(&member.1);
                    }
                    i -= 1;
                }
                None
            },
            _ => None,
        }
    }

    /// The items of this value, if it is an array.
    pub fn as_array(&self) -> (items: Option<&Vec<Json>>)
        ensures
            match items {
                Some(list) => json_array(*self) == Some(list@),
                None => json_array(*self).is_none(),
            },
    {
        match self {
            Json::Array(items) => Some(items),
            _ => None,
        }
    }

    /// The text of this value, if it is a string.
    pub fn as_text(&self) -> (text: Option<&String>)
        ensures
            match text {
                Some(s) => json_text(*self) == Some(s@),
                None => json_text(*self).is_none(),
            },
    {
        match self {
            Json::Text(text) => Some(text),
            _ => None,
        }
    }

    /// The text of the member `key`, if this value has that member and it is
    /// a string.
    pub fn member_text(&self, key: &str) -> (text: Option<&String>)
        ensures
            match text {
                Some(s) => json_text(json_member(*self, key@)) == Some(s@),
                None => json_text(json_member(*self, key@)).is_none(),
            },
    {
        match self.member(key) {
            Some(value) => value.as_text(),
            None => None,
        }
    }
}

/// The first of `entries` that is the directory called `name`.
fn find_entry<'a>(entries: &'a Vec<Json>, name: &String) -> (found: Option<&'a Json>)
    ensures
        match found {
            Some(entry) => find_directory(entries@, name@) == Some(*entry),
            None => find_directory(entries@, name@).is_none(),
        },
{
    let mut i: usize = 0;
    assert(entries@.skip(0) == entries@);
    while i < entries.len()
        invariant
            i <= entries.len(),
            find_directory(entries@, name@) == find_directory(entries@.skip(i as int), name@),
        decreases entries.len() - i,
    {
        assert(entries@.skip(i as int)[0] == entries@[i as int]);
        assert(entries@.skip(i as int).drop_first() == entries@.skip(i + 1));
        let named = match entries[i].member_text("path") {
            Some(path) => *path == *name,
            None => false,
        };
        if named {
            return Some(&entries[i]);
        }
        i += 1;
    }
    None
}

/// The time of the last change that `file` gives, or the epoch.
fn modified_of(file: &Json) -> (millis: i64)
    ensures
        millis == modified_millis(*file),
{
    match file.member_text("last_modified") {
        Some(text) => match parse_datetime_millis(text.as_str(), MODIFIED_FORMAT) {
            Ok(millis) => millis,
            Err(_) => 0,
        },
        None => 0,
    }
}

/// Puts `added` into `sorted` behind every entry that is not older.
fn insert_newest_first(sorted: &mut Vec<(String, i64)>, added: (String, i64))
    ensures
        entry_pairs(final(sorted)@) == entry_pairs(old(sorted)@).insert(
            run_len(entry_pairs(old(sorted)@), older_than(added.1)) as int,
            (added.0@, added.1),
        ),
{
    let ghost before = entry_pairs(sorted@);
    let mut at: usize = 0;
    while at < sorted.len() && sorted[at].1 >= added.1
        invariant
            at <= sorted.len(),
            before == entry_pairs(sorted@),
            forall|k: int| 0 <= k < at ==> !(older_than(added.1))(#[trigger] before[k]),
        decreases sorted.len() - at,
    {
        at += 1;
    }
    proof {
        lemma_run_len_unique(before, older_than(added.1), at as int);
    }
    let ghost pair = (added.0@, added.1);
    let ghost items = sorted@;
    sorted.insert(at, added);
    assert(entry_pairs(items.insert(at as int, added)) =~= before.insert(at as int, pair));
}

/// The value of the outcome of a walk down the index.
pub open spec fn directory_outcome_view(outcome: Result<&Json, BridgeError>) -> Result<
    Json,
    ErrorView,
> {
    match outcome {
        Ok(directory) => Ok(*directory),
        Err(e) => Err(e@),
    }
}

/// The directory reached from the member `directories` of `index` by going
/// down `segments`, one at a time.
fn find_target<'a>(index: &'a Json, segments: &Vec<Vec<char>>) -> (outcome: Result<
    &'a Json,
    BridgeError,
>)
    requires
        segments.len() >= 1,
    ensures
        directory_outcome_view(outcome) == descend(
            json_member(*index, "directories"@),
            texts(segments@),
        ),
{
    let ghost names = texts(segments@);
    let ghost top = json_member(*index, "directories"@);
    let mut listing: Option<&Json> = index.member("directories");
    let mut directory: &Json = index;
    let mut i: usize = 0;
    assert(names.skip(0) == names);
    while i < segments.len()
        invariant
            i <= segments.len(),
            segments.len() >= 1,
            names == texts(segments@),
            top == json_member(*index, "directories"@),
            i < segments.len() ==> descend(top, names) == descend(
                match listing {
                    Some(value) => *value,
                    None => Json::Null,
                },
                names.skip(i as int),
            ),
            i == segments.len() ==> descend(top, names) == Ok::<Json, ErrorView>(*directory),
        decreases segments.len() - i,
    {
        let ghost rest = names.skip(i as int);
        assert(rest[0] == segments@[i as int]@);
        assert(rest.drop_first() == names.skip(i + 1));
        let entries = match listing {
            Some(value) => match value.as_array() {
                Some(list) => list,
                None => {
                    return Err(
                        BridgeError::Parse(
                            String::from_str("Expected array while traversing index.json"),
                        ),
                    );
                },
            },
            None => {
                return Err(
                    BridgeError::Parse(String::from_str("Expected array while traversing index.json")),
                );
            },
        };
        let name = string_of(&segments[i]);
        match find_entry(entries, &name) {
            Some(entry) => {
                directory = entry;
                listing = entry.member("directories");
            },
            None => {
                let mut detail = String::from_str("Directory '");
                detail.append(name.as_str());
                detail.append("' not found");
                return Err(BridgeError::Parse(detail));
            },
        }
        i += 1;
    }
    Ok(directory)
}

/// The files of a directory, each with its path behind `prefix` and the
/// time of its last change, from the newest to the oldest.
fn list_newest_first(files: &Vec<Json>, prefix: &Vec<char>) -> (outcome: Result<
    Vec<(String, i64)>,
    BridgeError,
>)
    ensures
        match outcome {
            Ok(sorted) => listed_files(files@, prefix@) matches Ok(listed) && entry_pairs(sorted@)
                == newest_first(listed),
            Err(e) => listed_files(files@, prefix@) == Err::<Seq<(Seq<char>, i64)>, ErrorView>(e@),
        },
{
    let mut sorted: Vec<(String, i64)> = Vec::new();
    let mut k: usize = 0;
    assert(files@.take(0) == Seq::<Json>::empty());
    assert(entry_pairs(sorted@) =~= newest_first(Seq::empty()));
    while k < files.len()
        invariant
            k <= files.len(),
            listed_files(files@.take(k as int), prefix@) matches Ok(seen) && entry_pairs(sorted@)
                == newest_first(seen),
        decreases files.len() - k,
    {
        proof {
            assert(files@.take(k + 1).drop_last() == files@.take(k as int));
            assert(files@.take(k + 1).last() == files@[k as int]);
        }
        let ghost seen = listed_files(files@.take(k as int), prefix@)->Ok_0;
        let path = match files[k].member_text("path") {
            Some(text) => text,
            None => {
                proof {
                    lemma_listing_fails(files@, prefix@, k + 1);
                }
                return Err(BridgeError::Parse(String::from_str("file missing 'path'")));
            },
        };
        let millis = modified_of(&files[k]);
        let mut full = string_of(prefix);
        full.push('/');
        full.append(path.as_str());
        proof {
            let pair = (prefix@ + seq!['/'] + path@, millis);
            assert(full@ == pair.0);
            assert(seen.push(pair).drop_last() == seen);
        }
        insert_newest_first(&mut sorted, (full, millis));
        k += 1;
    }
    assert(files@.take(files@.len() as int) == files@);
    Ok(sorted)
}

/// The newest files under `target_dir` in `index`: up to `limit` of them,
/// each with its path from the root and the time of its last change in
/// milliseconds since the epoch, the newest first.
///
/// The path is followed from the member `directories` of `index`, one
/// segment at a time. A segment that is not listed, a list that is missing
/// on the way, a directory without a list of files and a file without a
/// path each fail the search.
pub fn extract_latest_entries(index: &Json, target_dir: &str, limit: usize) -> (outcome: Result<
    Vec<(String, i64)>,
    BridgeError,
>)
    ensures
        entries_outcome_view(outcome) == latest_entries(*index, target_dir@, limit as nat),
{
    let target = to_chars(target_dir);
    let segments = split_chars(&trim_chars(&target, '/'), '/');
    proof {
        lemma_run_len(trim(target@, '/'), crate::helper::text::is_char('/'));
    }
    let directory = match find_target(index, &segments) {
        Ok(found) => found,
        Err(e) => {
            return Err(e);
        },
    };
    let files = match directory.member("files") {
        Some(value) => match value.as_array() {
            Some(list) => list,
            None => {
                return Err(BridgeError::Parse(String::from_str("Final segment missing 'files' array")));
            },
        },
        None => {
            return Err(BridgeError::Parse(String::from_str("Final segment missing 'files' array")));
        },
    };
    let prefix = trim_end_chars(&target, '/');
    let mut sorted = match list_newest_first(files, &prefix) {
        Ok(list) => list,
        Err(e) => {
            return Err(e);
        },
    };
    if limit < sorted.len() {
        let ghost all = entry_pairs(sorted@);
        sorted.truncate(limit);
        assert(entry_pairs(sorted@) =~= all.take(limit as int));
    }
    Ok(sorted)
}

/// Once a file without a path is among the first `n` files, the listing
/// fails whatever follows.
pub proof fn lemma_listing_fails(files: Seq<Json>, prefix: Seq<char>, n: int)
    requires
        0 <= n <= files.len(),
        listed_files(files.take(n), prefix) == Err::<Seq<(Seq<char>, i64)>, ErrorView>(
            ErrorView::Parse("file missing 'path'"@),
        ),
    ensures
        listed_files(files, prefix) == Err::<Seq<(Seq<char>, i64)>, ErrorView>(
            ErrorView::Parse("file missing 'path'"@),
        ),
    decreases files.len() - n,
{
    if n == files.len() {
        assert(files.take(n) == files);
    } else {
        assert(files.take(n + 1).drop_last() == files.take(n));
        lemma_listing_fails(files, prefix, n + 1);
    }
}

} // verus!
