//! Reading a bridge pool assignment report: the header with its publication
//! time, then one entry for each line that names a bridge.

use vstd::prelude::*;
use vstd::utf8::encode_utf8;
use crate::collector::fetch::{raw_file_views, BridgeRawFile, RawFileView};
use crate::error::{BridgeError, ErrorView};
use crate::helper::clock::{datetime_millis, describe_parse_error, parse_datetime_millis};
use crate::helper::digest::{entry_preimage, hex_text, sha256, Digest, Sha256Digest};
use crate::helper::number::{is_float_literal, is_float_text};
use crate::helper::pattern::{
    is_fingerprint, pattern_compiles, FingerprintPattern, FINGERPRINT_PATTERN,
};
use crate::helper::text::{
    chars_are, copy_optional, key_value, lemma_run_len_unique, lines, optional_text, run_len,
    split_key_value, split_lines, split_words, starts_with, string_of,
    texts, to_chars, words,
};

verus! {

/// The word that a header line begins with.
pub const HEADER_TOKEN: &'static str = "bridge-pool-assignment";

/// How the date and the time of a header line are written.
pub const HEADER_TIME_FORMAT: &'static str = "%Y-%m-%d %H:%M:%S";

/// One bridge's distribution record.
///
/// `ratio` holds the decimal notation of the ratio as the line gave it.
#[derive(Debug, Clone)]
pub struct BridgeLineEntry {
    pub sha: String,
    pub fingerprint: String,
    pub distribution_method: String,
    pub transport: Option<String>,
    pub ip: Option<String>,
    pub blocklist: Option<String>,
    pub distributed: Option<bool>,
    pub state: Option<String>,
    pub bandwidth: Option<String>,
    pub ratio: Option<String>,
}

/// One parsed report: its digest, its publication time in milliseconds
/// since the epoch, its header line and its entries.
#[derive(Debug, Clone)]
pub struct BridgeParsedAssignment {
    pub file_sha: String,
    pub published: i64,
    pub header: String,
    pub lines: Vec<BridgeLineEntry>,
}

/// The mathematical value of a [`BridgeLineEntry`].
pub struct LineEntryView {
    pub sha: Seq<char>,
    pub fingerprint: Seq<char>,
    pub distribution_method: Seq<char>,
    pub transport: Option<Seq<char>>,
    pub ip: Option<Seq<char>>,
    pub blocklist: Option<Seq<char>>,
    pub distributed: Option<bool>,
    pub state: Option<Seq<char>>,
    pub bandwidth: Option<Seq<char>>,
    pub ratio: Option<Seq<char>>,
}

/// The mathematical value of a [`BridgeParsedAssignment`].
pub struct AssignmentView {
    pub file_sha: Seq<char>,
    pub published: i64,
    pub header: Seq<char>,
    pub lines: Seq<LineEntryView>,
}

impl View for BridgeLineEntry {
    type V = LineEntryView;

    open spec fn view(&self) -> LineEntryView {
        LineEntryView {
            sha: self.sha@,
            fingerprint: self.fingerprint@,
            distribution_method: self.distribution_method@,
            transport: optional_text(self.transport),
            ip: optional_text(self.ip),
            blocklist: optional_text(self.blocklist),
            distributed: self.distributed,
            state: optional_text(self.state),
            bandwidth: optional_text(self.bandwidth),
            ratio: optional_text(self.ratio),
        }
    }
}

/// The values of a sequence of entries.
pub open spec fn entry_views(entries: Seq<BridgeLineEntry>) -> Seq<LineEntryView> {
    Seq::new(entries.len(), |i: int| entries[i]@)
}

impl View for BridgeParsedAssignment {
    type V = AssignmentView;

    open spec fn view(&self) -> AssignmentView {
        AssignmentView {
            file_sha: self.file_sha@,
            published: self.published,
            header: self.header@,
            lines: entry_views(self.lines@),
        }
    }
}

/// The values of a sequence of assignments.
pub open spec fn assignment_views(items: Seq<BridgeParsedAssignment>) -> Seq<AssignmentView> {
    Seq::new(items.len(), |i: int| items[i]@)
}

impl BridgeLineEntry {
    /// A copy of the entry.
    pub fn duplicate(&self) -> (copy: BridgeLineEntry)
        ensures
            copy@ == self@,
    {
        BridgeLineEntry {
            sha: self.sha.clone(),
            fingerprint: self.fingerprint.clone(),
            distribution_method: self.distribution_method.clone(),
            transport: copy_optional(&self.transport),
            ip: copy_optional(&self.ip),
            blocklist: copy_optional(&self.blocklist),
            distributed: self.distributed,
            state: copy_optional(&self.state),
            bandwidth: copy_optional(&self.bandwidth),
            ratio: copy_optional(&self.ratio),
        }
    }
}

impl LineEntryView {
    /// Whether the entry is what a report may hold: a fingerprint of forty
    /// hexadecimal digits, and a ratio in decimal notation if it has one.
    pub open spec fn well_formed(self) -> bool {
        &&& is_fingerprint(self.fingerprint)
        &&& self.ratio matches Some(text) ==> is_float_text(text)
    }
}

/// An entry with its fingerprint and distribution method and nothing else.
pub open spec fn blank_entry(fingerprint: Seq<char>, method: Seq<char>) -> LineEntryView {
    LineEntryView {
        sha: Seq::empty(),
        fingerprint,
        distribution_method: method,
        transport: None,
        ip: None,
        blocklist: None,
        distributed: None,
        state: None,
        bandwidth: None,
        ratio: None,
    }
}

/// `entry` after the attribute `key=value`. A key that is not known leaves
/// the entry as it is. `distributed` is true for the value `true` and false
/// for any other; a `ratio` that is no number leaves the ratio unset.
pub open spec fn with_attribute(entry: LineEntryView, key: Seq<char>, value: Seq<char>)
    -> LineEntryView {
    if key == "transport"@ {
        LineEntryView { transport: Some(value), ..entry }
    } else if key == "ip"@ {
        LineEntryView { ip: Some(value), ..entry }
    } else if key == "blocklist"@ {
        LineEntryView { blocklist: Some(value), ..entry }
    } else if key == "distributed"@ {
        LineEntryView { distributed: Some(value == "true"@), ..entry }
    } else if key == "state"@ {
        LineEntryView { state: Some(value), ..entry }
    } else if key == "bandwidth"@ {
        LineEntryView { bandwidth: Some(value), ..entry }
    } else if key == "ratio"@ {
        LineEntryView {
            ratio: if is_float_text(value) {
                Some(value)
            } else {
                None
            },
            ..entry
        }
    } else {
        entry
    }
}

/// `entry` after one token of a line: a token that splits at a single `=`
/// is an attribute, any other token changes nothing.
pub open spec fn with_token(entry: LineEntryView, token: Seq<char>) -> LineEntryView {
    match key_value(token) {
        Some((key, value)) => with_attribute(entry, key, value),
        None => entry,
    }
}

/// `entry` after each of `tokens`, from left to right.
pub open spec fn with_tokens(entry: LineEntryView, tokens: Seq<Seq<char>>) -> LineEntryView
    decreases tokens.len(),
{
    if tokens.len() == 0 {
        entry
    } else {
        with_token(with_tokens(entry, tokens.drop_last()), tokens.last())
    }
}

/// What a line of a report says: the entry, or why the line is none. The
/// digest of the entry is left empty; it depends on the file.
pub open spec fn line_entry(line: Seq<char>) -> Result<LineEntryView, ErrorView> {
    let parts = words(line);
    if parts.len() < 2 {
        Err(ErrorView::InvalidLine("Insufficient parts"@))
    } else if parts[0].len() != 40 {
        Err(ErrorView::InvalidLine("Invalid fingerprint length"@))
    } else {
        Ok(with_tokens(blank_entry(parts[0], parts[1]), parts.skip(2)))
    }
}

/// The value of the outcome of reading a line.
pub open spec fn line_outcome_view(outcome: Result<BridgeLineEntry, BridgeError>) -> Result<
    LineEntryView,
    ErrorView,
> {
    match outcome {
        Ok(entry) => Ok(entry@),
        Err(e) => Err(e@),
    }
}

/// Reads one line of a report, given as characters.
pub fn parse_line_chars(line: &Vec<char>) -> (outcome: Result<BridgeLineEntry, BridgeError>)
    ensures
        line_outcome_view(outcome) == line_entry(line@),
{
    let parts = split_words(line);
    let ghost tokens = texts(parts@);
    if parts.len() < 2 {
        return Err(BridgeError::InvalidLine(String::from_str("Insufficient parts")));
    }
    if parts[0].len() != 40 {
        assert(tokens[0] == parts@[0]@);
        return Err(BridgeError::InvalidLine(String::from_str("Invalid fingerprint length")));
    }
    let mut entry = BridgeLineEntry {
        sha: String::new(),
        fingerprint: string_of(&parts[0]),
        distribution_method: string_of(&parts[1]),
        transport: None,
        ip: None,
        blocklist: None,
        distributed: None,
        state: None,
        bandwidth: None,
        ratio: None,
    };
    let ghost start = blank_entry(tokens[0], tokens[1]);
    assert(tokens[0] == parts@[0]@ && tokens[1] == parts@[1]@);
    assert(entry@ == start);
    assert(tokens.subrange(2, 2) == Seq::<Seq<char>>::empty());
    let mut i: usize = 2;
    while i < parts.len()
        invariant
            2 <= i <= parts.len(),
            tokens == texts(parts@),
            entry@ == with_tokens(start, tokens.subrange(2, i as int)),
        decreases parts.len() - i,
    {
        proof {
            assert(tokens.subrange(2, i + 1).drop_last() == tokens.subrange(2, i as int));
            assert(tokens.subrange(2, i + 1).last() == parts@[i as int]@);
        }
        match split_key_value(&parts[i]) {
            Some((key, value)) => {
                if chars_are(&key, "transport") {
                    entry.transport = Some(string_of(&value));
                } else if chars_are(&key, "ip") {
                    entry.ip = Some(string_of(&value));
                } else if chars_are(&key, "blocklist") {
                    entry.blocklist = Some(string_of(&value));
                } else if chars_are(&key, "distributed") {
                    entry.distributed = Some(chars_are(&value, "true"));
                } else if chars_are(&key, "state") {
                    entry.state = Some(string_of(&value));
                } else if chars_are(&key, "bandwidth") {
                    entry.bandwidth = Some(string_of(&value));
                } else if chars_are(&key, "ratio") {
                    if is_float_literal(&value) {
                        entry.ratio = Some(string_of(&value));
                    } else {
                        entry.ratio = None;
                    }
                }
            },
            None => {},
        }
        i += 1;
    }
    assert(tokens.subrange(2, parts@.len() as int) == tokens.skip(2));
    Ok(entry)
}

/// Reads one line of a report: a fingerprint of forty characters, a
/// distribution method, then any number of `key=value` attributes, all
/// separated by white space.
pub fn parse_line(line: &str) -> (outcome: Result<BridgeLineEntry, BridgeError>)
    ensures
        line_outcome_view(outcome) == line_entry(line@),
{
    let chars = to_chars(line);
    parse_line_chars(&chars)
}

/// Whether a line is a header line.
pub open spec fn is_header(line: Seq<char>) -> bool {
    HEADER_TOKEN@.is_prefix_of(line)
}

/// The predicate "is a header line", as a value.
pub open spec fn header_line() -> spec_fn(Seq<char>) -> bool {
    |line: Seq<char>| is_header(line)
}

/// The place of the first header line among `ls`; their number where there
/// is none.
pub open spec fn header_index(ls: Seq<Seq<char>>) -> nat {
    run_len(ls, header_line())
}

/// The first header line among `ls`, if there is one.
pub open spec fn first_header(ls: Seq<Seq<char>>) -> Option<Seq<char>> {
    if header_index(ls) < ls.len() {
        Some(ls[header_index(ls) as int])
    } else {
        None
    }
}

/// The lines of a report that may name a bridge: all of `ls` but the first
/// header line.
pub open spec fn entry_lines(ls: Seq<Seq<char>>) -> Seq<Seq<char>> {
    ls.take(header_index(ls) as int) + ls.skip(header_index(ls) as int + 1)
}

/// Of the first `i` of `ls`, those that are not the line at `h`.
pub open spec fn entry_lines_before(ls: Seq<Seq<char>>, h: int, i: int) -> Seq<Seq<char>> {
    if i <= h {
        ls.take(i)
    } else {
        ls.take(h) + ls.subrange(h + 1, i)
    }
}

/// The text that the publication time of a header is read from: its second
/// and third word with one space between them.
pub open spec fn header_time_text(header: Seq<char>) -> Seq<char> {
    words(header)[1] + seq![' '] + words(header)[2]
}

/// The publication time that a header line gives, in milliseconds since the
/// epoch. There is one where the line has three words and the last two are
/// a date and a time.
pub open spec fn header_time(header: Seq<char>) -> Option<i64> {
    if words(header).len() == 3 {
        datetime_millis(header_time_text(header), HEADER_TIME_FORMAT@)
    } else {
        None
    }
}

/// What is wrong with a report as a whole.
pub enum HeaderFault {
    /// No line begins with the header word.
    Missing,
    /// The header line does not have three words.
    Shape,
    /// The date and time of the header line cannot be read.
    Time,
}

impl HeaderFault {
    /// Whether `e` is the error that reports this fault.
    pub open spec fn reported_as(self, e: ErrorView) -> bool {
        match self {
            HeaderFault::Missing => e == ErrorView::Parse("missing header line"@),
            HeaderFault::Shape => e == ErrorView::Parse("invalid header timestamp format"@),
            HeaderFault::Time => e matches ErrorView::Parse(detail) && "Invalid timestamp: "@.is_prefix_of(
                detail,
            ),
        }
    }
}

/// The fault of a header line, if it has one.
pub open spec fn header_line_fault(header: Seq<char>) -> Option<HeaderFault> {
    if words(header).len() != 3 {
        Some(HeaderFault::Shape)
    } else if header_time(header).is_none() {
        Some(HeaderFault::Time)
    } else {
        None
    }
}

/// The fault of a report with the text `content`, if it has one.
pub open spec fn report_fault(content: Seq<char>) -> Option<HeaderFault> {
    match first_header(lines(content)) {
        None => Some(HeaderFault::Missing),
        Some(header) => header_line_fault(header),
    }
}

/// The digest text of an entry: SHA-256 over the bytes of its line followed
/// by the bytes of the digest text of its file.
pub open spec fn entry_sha(line: Seq<char>, file_sha: Seq<char>) -> Seq<char> {
    hex_text(sha256(entry_preimage(encode_utf8(line), encode_utf8(file_sha))))
}

/// The entry that a line contributes to its file: the line has to read as
/// an entry and its fingerprint has to be forty hexadecimal digits.
pub open spec fn kept_entry(line: Seq<char>, file_sha: Seq<char>) -> Option<LineEntryView> {
    match line_entry(line) {
        Ok(entry) => if is_fingerprint(entry.fingerprint) {
            Some(LineEntryView { sha: entry_sha(line, file_sha), ..entry })
        } else {
            None
        },
        Err(_) => None,
    }
}

/// The entries that `ls` contribute, in the order of the lines.
pub open spec fn kept_entries(ls: Seq<Seq<char>>, file_sha: Seq<char>) -> Seq<LineEntryView>
    decreases ls.len(),
{
    if ls.len() == 0 {
        Seq::empty()
    } else {
        match kept_entry(ls.last(), file_sha) {
            Some(entry) => kept_entries(ls.drop_last(), file_sha).push(entry),
            None => kept_entries(ls.drop_last(), file_sha),
        }
    }
}

/// The digest text of a file: SHA-256 over its raw bytes.
pub open spec fn file_digest(raw: Seq<u8>) -> Seq<char> {
    hex_text(sha256(raw))
}

/// The assignment that a report without fault parses to. Its entries come
/// from every line but the header line, those before it as well as those
/// after it.
pub open spec fn parsed_report(file: RawFileView) -> AssignmentView {
    let ls = lines(file.content);
    let header = first_header(ls)->Some_0;
    AssignmentView {
        file_sha: file_digest(file.raw),
        published: header_time(header)->Some_0,
        header,
        lines: kept_entries(entry_lines(ls), file_digest(file.raw)),
    }
}

/// The fault of the first report among `files` that has one.
pub open spec fn batch_fault(files: Seq<RawFileView>) -> Option<HeaderFault>
    decreases files.len(),
{
    if files.len() == 0 {
        None
    } else {
        match report_fault(files[0].content) {
            Some(fault) => Some(fault),
            None => batch_fault(files.drop_first()),
        }
    }
}

/// The assignments that a batch of reports parses to.
pub open spec fn parsed_reports(files: Seq<RawFileView>) -> Seq<AssignmentView> {
    Seq::new(files.len(), |i: int| parsed_report(files[i]))
}

/// Turns the outcome of reading the date and time of a header into the
/// publication time, or into the error that reports the failure.
pub fn publication_time(outcome: Result<i64, chrono::ParseError>) -> (time: Result<i64, BridgeError>)
    ensures
        match outcome {
            Ok(millis) => time == Ok::<i64, BridgeError>(millis),
            Err(_) => time matches Err(e) && HeaderFault::Time.reported_as(e@),
        },
{
    match outcome {
        Ok(millis) => Ok(millis),
        Err(failure) => {
            let mut detail = String::from_str("Invalid timestamp: ");
            let reason = describe_parse_error(&failure);
            let ghost prefix = detail@;
            detail.append(reason.as_str());
            assert(detail@.subrange(0, prefix.len() as int) == prefix);
            Err(BridgeError::Parse(detail))
        },
    }
}

/// The publication time of a header line, in milliseconds since the epoch.
pub fn extract_time_chars(line: &Vec<char>) -> (time: Result<i64, BridgeError>)
    ensures
        match time {
            Ok(millis) => header_time(line@) == Some(millis),
            Err(e) => header_line_fault(line@) matches Some(fault) && fault.reported_as(e@),
        },
{
    let parts = split_words(line);
    if parts.len() != 3 {
        return Err(BridgeError::Parse(String::from_str("invalid header timestamp format")));
    }
    let mut text = string_of(&parts[1]);
    text.push(' ');
    text.append(string_of(&parts[2]).as_str());
    assert(texts(parts@)[1] == parts@[1]@ && texts(parts@)[2] == parts@[2]@);
    assert(text@ == header_time_text(line@));
    publication_time(parse_datetime_millis(text.as_str(), HEADER_TIME_FORMAT))
}

/// The publication time of a header line, in milliseconds since the epoch.
/// The line has to have three words, the second a date as `YYYY-MM-DD` and
/// the third a time as `HH:MM:SS`.
pub fn extract_time(line: &str) -> (time: Result<i64, BridgeError>)
    ensures
        match time {
            Ok(millis) => header_time(line@) == Some(millis),
            Err(e) => header_line_fault(line@) matches Some(fault) && fault.reported_as(e@),
        },
{
    let chars = to_chars(line);
    extract_time_chars(&chars)
}

/// Parses one report.
pub fn parse_file(pattern: &FingerprintPattern, file: &BridgeRawFile) -> (outcome: Result<
    BridgeParsedAssignment,
    BridgeError,
>)
    ensures
        match outcome {
            Ok(parsed) => report_fault(file@.content).is_none() && parsed@ == parsed_report(file@),
            Err(e) => report_fault(file@.content) matches Some(fault) && fault.reported_as(e@),
        },
{
    let content = to_chars(file.content.as_str());
    let ls = split_lines(&content);
    let ghost all = texts(ls@);
    let token = to_chars(HEADER_TOKEN);
    let mut h: usize = 0;
    while h < ls.len() && !starts_with(&ls[h], &token)
        invariant
            h <= ls.len(),
            all == texts(ls@),
            token@ == HEADER_TOKEN@,
            forall|k: int| 0 <= k < h ==> !(header_line())(#[trigger] all[k]),
        decreases ls.len() - h,
    {
        assert(all[h as int] == ls@[h as int]@);
        h += 1;
    }
    proof {
        if h < ls.len() {
            assert(all[h as int] == ls@[h as int]@);
        }
        lemma_run_len_unique(all, header_line(), h as int);
    }
    if h >= ls.len() {
        return Err(BridgeError::Parse(String::from_str("missing header line")));
    }
    let time = extract_time_chars(&ls[h]);
    let published = match time {
        Ok(millis) => millis,
        Err(e) => {
            return Err(e);
        },
    };
    let hasher = Sha256Digest;
    let sha_file = hasher.hash_bytes(file.raw.as_slice());
    let mut entries: Vec<BridgeLineEntry> = Vec::new();
    let mut i: usize = 0;
    assert(all.take(0) == Seq::<Seq<char>>::empty());
    while i < ls.len()
        invariant
            i <= ls.len(),
            h < ls.len(),
            all == texts(ls@),
            sha_file@ == file_digest(file@.raw),
            entry_views(entries@) == kept_entries(
                entry_lines_before(all, h as int, i as int),
                sha_file@,
            ),
        decreases ls.len() - i,
    {
        let ghost seen = entry_lines_before(all, h as int, i as int);
        let ghost next = entry_lines_before(all, h as int, i + 1);
        if i == h {
            assert(next == seen);
        } else {
            proof {
                assert(next.drop_last() == seen);
                assert(next.last() == ls@[i as int]@);
            }
            match parse_line_chars(&ls[i]) {
                Ok(found) => {
                    if pattern.matches(found.fingerprint.as_str()) {
                        let text = string_of(&ls[i]);
                        let mut entry = found;
                        entry.sha = hasher.hash_entry(text.as_str().as_bytes(), sha_file.as_str());
                        assert(entry_views(entries@.push(entry)) == entry_views(entries@).push(
                            entry@,
                        ));
                        entries.push(entry);
                    }
                },
                Err(_) => {},
            }
        }
        i += 1;
    }
    assert(entry_lines_before(all, h as int, ls@.len() as int) == entry_lines(all));
    Ok(
        BridgeParsedAssignment {
            file_sha: sha_file,
            published,
            header: string_of(&ls[h]),
            lines: entries,
        },
    )
}

/// Parses a batch of reports with a compiled fingerprint pattern. The
/// reports are parsed in order, and the first one at fault fails the batch.
pub fn parse_files_with(pattern: &FingerprintPattern, raw_files: Vec<BridgeRawFile>) -> (outcome:
    Result<Vec<BridgeParsedAssignment>, BridgeError>)
    ensures
        match outcome {
            Ok(parsed) => batch_fault(raw_file_views(raw_files@)).is_none() && assignment_views(
                parsed@,
            ) == parsed_reports(raw_file_views(raw_files@)),
            Err(e) => batch_fault(raw_file_views(raw_files@)) matches Some(fault)
                && fault.reported_as(e@),
        },
{
    let ghost files = raw_file_views(raw_files@);
    let mut parsed: Vec<BridgeParsedAssignment> = Vec::new();
    let mut i: usize = 0;
    assert(files.skip(0) == files);
    while i < raw_files.len()
        invariant
            i <= raw_files.len(),
            files == raw_file_views(raw_files@),
            batch_fault(files) == batch_fault(files.skip(i as int)),
            assignment_views(parsed@) == parsed_reports(files.take(i as int)),
        decreases raw_files.len() - i,
    {
        assert(files.skip(i as int)[0] == raw_files@[i as int]@);
        assert(files.skip(i as int).drop_first() == files.skip(i + 1));
        match parse_file(pattern, &raw_files[i]) {
            Ok(assignment) => {
                assert(assignment_views(parsed@.push(assignment)) == assignment_views(parsed@).push(
                    assignment@,
                ));
                assert(parsed_reports(files.take(i + 1)) == parsed_reports(files.take(i as int)).push(
                    parsed_report(files[i as int]),
                ));
                parsed.push(assignment);
            },
            Err(e) => {
                return Err(e);
            },
        }
        i += 1;
    }
    assert(files.skip(i as int).len() == 0);
    assert(files.take(i as int) == files);
    Ok(parsed)
}

/// Parses a batch of reports. The reports are parsed in order, and the
/// first one at fault fails the batch. Where the fingerprint pattern does
/// not compile, the batch fails with a parse error before any report is
/// read; where it compiles, the batch succeeds unless a report is at fault.
pub fn parse_files(raw_files: Vec<BridgeRawFile>) -> (outcome: Result<
    Vec<BridgeParsedAssignment>,
    BridgeError,
>)
    ensures
        match outcome {
            Ok(parsed) => pattern_compiles(FINGERPRINT_PATTERN@) && batch_fault(
                raw_file_views(raw_files@),
            ).is_none() && assignment_views(parsed@) == parsed_reports(raw_file_views(raw_files@)),
            Err(e) => if pattern_compiles(FINGERPRINT_PATTERN@) {
                batch_fault(raw_file_views(raw_files@)) matches Some(fault) && fault.reported_as(e@)
            } else {
                e@ == ErrorView::Parse("invalid fingerprint pattern"@)
            },
        },
{
    match FingerprintPattern::new() {
        Ok(pattern) => parse_files_with(&pattern, raw_files),
        Err(e) => Err(e),
    }
}

} // verus!
