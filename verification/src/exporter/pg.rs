//! The relational sink: the statements of one export, in the order in which
//! one transaction runs them.
//!
//! Every insert leaves a row that is already there untouched, so an export
//! can be run again over the same assignments.

use vstd::prelude::*;
use crate::error::{BridgeError, ErrorView};
use crate::exporter::Exporter;
use crate::helper::clock::{utc_timestamp_exists, utc_timestamp_is_valid, LAST_COMMON_SECOND};
use crate::transformer::parser::{
    assignment_views, entry_views, AssignmentView, BridgeLineEntry, BridgeParsedAssignment,
    LineEntryView,
};

verus! {

/// Creates the table of files, keyed by the digest of the file.
pub const CREATE_FILE_TABLE: &'static str =
    "CREATE TABLE IF NOT EXISTS bridge_file (
            sha TEXT PRIMARY KEY,
            header TEXT NOT NULL,
            published TIMESTAMP NOT NULL
        )";

/// Creates the table of entries, keyed by the digest of the entry, each
/// entry pointing at its file.
pub const CREATE_ENTRY_TABLE: &'static str =
    "CREATE TABLE IF NOT EXISTS bridge_entry (
            sha TEXT PRIMARY KEY,
            fingerprint TEXT NOT NULL,
            method TEXT NOT NULL,
            file_sha TEXT REFERENCES bridge_file(sha),
            transport TEXT,
            ip TEXT,
            block TEXT,
            distributed BOOLEAN,
            state TEXT,
            bandwidth TEXT,
            ratio REAL,
            published TIMESTAMP NOT NULL
        )";

/// Empties both tables.
pub const TRUNCATE_TABLES: &'static str = "TRUNCATE TABLE bridge_entry, bridge_file";

/// Adds the row of a file unless a row with its digest is there.
pub const INSERT_FILE: &'static str =
    "INSERT INTO bridge_file (sha, header, published)
         VALUES ($1, $2, $3) ON CONFLICT DO NOTHING";

/// Adds the row of an entry unless a row with its digest is there.
pub const INSERT_ENTRY: &'static str =
    "INSERT INTO bridge_entry (
                sha, fingerprint, method, file_sha,
                transport, ip, block, distributed,
                state, bandwidth, ratio, published
            ) VALUES (
                $1,$2,$3,$4,$5,$6,$7,$8,$9,$10,$11,$12
            ) ON CONFLICT DO NOTHING";

/// A date and time in UTC: whole seconds since the epoch and the
/// nanoseconds after them.
#[derive(Debug, Clone, Copy, PartialEq, Eq, Structural)]
pub struct UtcTimestamp {
    pub secs: i64,
    pub nanos: u32,
}

/// The whole seconds of `ms` milliseconds: the last full second at or
/// before that moment, also for a moment before the epoch.
pub open spec fn whole_seconds(ms: i64) -> int {
    ms as int / 1000
}

/// The nanoseconds by which the moment `ms` lies after its whole second:
/// from 0 to 999 milliseconds.
pub open spec fn nanos_beyond(ms: i64) -> int {
    (ms as int % 1000) * 1_000_000
}

/// The last millisecond of the year 9999, in milliseconds since the epoch.
pub open spec fn last_common_millisecond() -> int {
    LAST_COMMON_SECOND * 1000 + 999
}

/// The UTC date and time of `ms` milliseconds since the epoch, where there
/// is one.
pub open spec fn utc_of(ms: i64) -> Option<UtcTimestamp> {
    let secs = whole_seconds(ms) as i64;
    let nanos = nanos_beyond(ms) as u32;
    if utc_timestamp_exists(secs, nanos) {
        Some(UtcTimestamp { secs, nanos })
    } else {
        None
    }
}

/// One step of an export.
#[derive(Debug)]
pub enum PgStep {
    /// Create the table of files if it is missing.
    CreateFileTable,
    /// Create the table of entries if it is missing.
    CreateEntryTable,
    /// Empty both tables.
    Truncate,
    /// Add the row of a file.
    InsertFile { sha: String, header: String, published: UtcTimestamp },
    /// Add the row of an entry.
    InsertEntry { entry: BridgeLineEntry, file_sha: String, published: UtcTimestamp },
    /// Make everything done so far permanent.
    Commit,
    /// Give the export up with this error; nothing done so far stays.
    Abort(BridgeError),
}

/// The mathematical value of a [`PgStep`].
pub enum StepView {
    CreateFileTable,
    CreateEntryTable,
    Truncate,
    InsertFile { sha: Seq<char>, header: Seq<char>, published: UtcTimestamp },
    InsertEntry { entry: LineEntryView, file_sha: Seq<char>, published: UtcTimestamp },
    Commit,
    Abort(ErrorView),
}

impl View for PgStep {
    type V = StepView;

    open spec fn view(&self) -> StepView {
        match self {
            PgStep::CreateFileTable => StepView::CreateFileTable,
            PgStep::CreateEntryTable => StepView::CreateEntryTable,
            PgStep::Truncate => StepView::Truncate,
            PgStep::InsertFile { sha, header, published } => StepView::InsertFile {
                sha: sha@,
                header: header@,
                published: *published,
            },
            PgStep::InsertEntry { entry, file_sha, published } => StepView::InsertEntry {
                entry: entry@,
                file_sha: file_sha@,
                published: *published,
            },
            PgStep::Commit => StepView::Commit,
            PgStep::Abort(e) => StepView::Abort(e@),
        }
    }
}

/// The values of a sequence of steps.
pub open spec fn step_views(steps: Seq<PgStep>) -> Seq<StepView> {
    Seq::new(steps.len(), |i: int| steps[i]@)
}

/// The error of a timestamp that has no UTC date and time.
pub open spec fn conversion_error() -> ErrorView {
    ErrorView::Export("Invalid timestamp conversion"@)
}

/// The steps that create the two tables.
pub open spec fn schema_steps() -> Seq<StepView> {
    seq![StepView::CreateFileTable, StepView::CreateEntryTable]
}

/// The steps that add the entries `lines` of the file with the digest
/// `file_sha`, published at `published`.
pub open spec fn entry_steps(lines: Seq<LineEntryView>, file_sha: Seq<char>, published: UtcTimestamp)
    -> Seq<StepView> {
    Seq::new(
        lines.len(),
        |j: int| StepView::InsertEntry { entry: lines[j], file_sha, published },
    )
}

/// The steps for one file: its own row, then its entries; or the step that
/// gives up where its publication time has no UTC date and time.
pub open spec fn file_steps(file: AssignmentView) -> Seq<StepView> {
    match utc_of(file.published) {
        Some(published) => seq![
            StepView::InsertFile { sha: file.file_sha, header: file.header, published },
        ] + entry_steps(file.lines, file.file_sha, published),
        None => seq![StepView::Abort(conversion_error())],
    }
}

/// Whether a sequence of steps ends by giving up.
pub open spec fn gives_up(steps: Seq<StepView>) -> bool {
    steps.len() > 0 && steps.last() is Abort
}

/// The steps for the files of `data`, one file after the other, up to the
/// first file that makes the export give up.
pub open spec fn insert_steps(data: Seq<AssignmentView>) -> Seq<StepView>
    decreases data.len(),
{
    if data.len() == 0 {
        Seq::empty()
    } else {
        let before = insert_steps(data.drop_last());
        if gives_up(before) {
            before
        } else {
            before + file_steps(data.last())
        }
    }
}

/// The steps before the first file: the two tables, then emptying them
/// where `truncate` asks for it.
pub open spec fn opening_steps(truncate: bool) -> Seq<StepView> {
    if truncate {
        schema_steps().push(StepView::Truncate)
    } else {
        schema_steps()
    }
}

/// The steps after the last file: the commit, unless the export gave up.
pub open spec fn closing_steps(inserts: Seq<StepView>) -> Seq<StepView> {
    if gives_up(inserts) {
        Seq::empty()
    } else {
        seq![StepView::Commit]
    }
}

/// Whether every assignment of `data` was published between the epoch and
/// the end of the year 9999.
pub open spec fn common_times(data: Seq<AssignmentView>) -> bool {
    forall|i: int|
        0 <= i < data.len() ==> 0 <= (#[trigger] data[i]).published <= last_common_millisecond()
}

/// All the steps of an export of `data`.
pub open spec fn export_plan(data: Seq<AssignmentView>, truncate: bool) -> Seq<StepView> {
    opening_steps(truncate) + insert_steps(data) + closing_steps(insert_steps(data))
}

impl PgStep {
    /// The statement of the step; none for the step that gives up, and none
    /// for the commit, which is no statement.
    pub fn sql(&self) -> (statement: Option<&'static str>)
        ensures
            statement == match self@ {
                StepView::CreateFileTable => Some(CREATE_FILE_TABLE),
                StepView::CreateEntryTable => Some(CREATE_ENTRY_TABLE),
                StepView::Truncate => Some(TRUNCATE_TABLES),
                StepView::InsertFile { .. } => Some(INSERT_FILE),
                StepView::InsertEntry { .. } => Some(INSERT_ENTRY),
                StepView::Commit => None,
                StepView::Abort(_) => None,
            },
    {
        match self {
            PgStep::CreateFileTable => Some(CREATE_FILE_TABLE),
            PgStep::CreateEntryTable => Some(CREATE_ENTRY_TABLE),
            PgStep::Truncate => Some(TRUNCATE_TABLES),
            PgStep::InsertFile { .. } => Some(INSERT_FILE),
            PgStep::InsertEntry { .. } => Some(INSERT_ENTRY),
            PgStep::Commit => None,
            PgStep::Abort(_) => None,
        }
    }

    /// The words that introduce the reason when the database fails at this
    /// step.
    pub fn failure_label(&self) -> (label: &'static str)
        ensures
            label@ == match self@ {
                StepView::CreateFileTable => "Creating bridge_file failed: "@,
                StepView::CreateEntryTable => "Creating bridge_entry failed: "@,
                StepView::Truncate => "Failed to truncate tables: "@,
                StepView::InsertFile { .. } => "Insert into bridge_file failed: "@,
                StepView::InsertEntry { .. } => "Insert into bridge_entry failed: "@,
                StepView::Commit => "Commit failed: "@,
                StepView::Abort(_) => ""@,
            },
    {
        match self {
            PgStep::CreateFileTable => "Creating bridge_file failed: ",
            PgStep::CreateEntryTable => "Creating bridge_entry failed: ",
            PgStep::Truncate => "Failed to truncate tables: ",
            PgStep::InsertFile { .. } => "Insert into bridge_file failed: ",
            PgStep::InsertEntry { .. } => "Insert into bridge_entry failed: ",
            PgStep::Commit => "Commit failed: ",
            PgStep::Abort(_) => "",
        }
    }
}

/// The error of a failure of the database: `label`, then `reason`.
pub fn database_failure(label: &str, reason: &str) -> (e: BridgeError)
    ensures
        e@ == ErrorView::Database(label@ + reason@),
{
    let mut detail = String::from_str(label);
    detail.append(reason);
    BridgeError::Database(detail)
}

/// The UTC date and time of `ms` milliseconds since the epoch: its whole
/// second and the nanoseconds after it. Every moment from the epoch to the
/// end of the year 9999 has one; a moment before the epoch is counted back
/// from it, so that one millisecond before the epoch is the last
/// millisecond of 1969.
pub fn to_naive_utc(ms: i64) -> (outcome: Result<UtcTimestamp, BridgeError>)
    ensures
        match outcome {
            Ok(moment) => utc_of(ms) == Some(moment),
            Err(e) => utc_of(ms).is_none() && e@ == conversion_error(),
        },
        0 <= ms <= last_common_millisecond() ==> outcome is Ok,
{
    let quotient: i64 = ms / 1000;
    let rest: i64 = ms % 1000;
    let (secs, millis): (i64, i64) = if rest < 0 {
        (quotient - 1, rest + 1000)
    } else {
        (quotient, rest)
    };
    let nanos: u32 = (millis * 1_000_000) as u32;
    assert(secs == whole_seconds(ms));
    assert(nanos == nanos_beyond(ms));
    if utc_timestamp_is_valid(secs, nanos) {
        Ok(UtcTimestamp { secs, nanos })
    } else {
        Err(BridgeError::Export(String::from_str("Invalid timestamp conversion")))
    }
}

/// The steps that create the two tables if they are missing.
pub fn prepare_schema() -> (steps: Vec<PgStep>)
    ensures
        step_views(steps@) == schema_steps(),
{
    let mut steps: Vec<PgStep> = Vec::new();
    steps.push(PgStep::CreateFileTable);
    steps.push(PgStep::CreateEntryTable);
    assert(step_views(steps@) =~= schema_steps());
    steps
}

/// The step that adds the row of `file`, or the error of a publication
/// time that has no UTC date and time.
pub fn insert_file(file: &BridgeParsedAssignment) -> (outcome: Result<PgStep, BridgeError>)
    ensures
        match outcome {
            Ok(step) => utc_of(file.published) matches Some(published) && step@
                == (StepView::InsertFile { sha: file@.file_sha, header: file@.header, published }),
            Err(e) => utc_of(file.published).is_none() && e@ == conversion_error(),
        },
        0 <= file.published <= last_common_millisecond() ==> outcome is Ok,
{
    match to_naive_utc(file.published) {
        Ok(published) => Ok(
            PgStep::InsertFile { sha: file.file_sha.clone(), header: file.header.clone(), published },
        ),
        Err(e) => Err(e),
    }
}

/// The steps that add the rows of `lines`, which belong to the file with
/// the digest `file_sha`, published at `millis`; or the error of a
/// publication time that has no UTC date and time.
pub fn insert_lines(file_sha: &str, lines: &[BridgeLineEntry], millis: i64) -> (outcome: Result<
    Vec<PgStep>,
    BridgeError,
>)
    ensures
        match outcome {
            Ok(steps) => utc_of(millis) matches Some(published) && step_views(steps@)
                == entry_steps(entry_views(lines@), file_sha@, published),
            Err(e) => utc_of(millis).is_none() && e@ == conversion_error(),
        },
        0 <= millis <= last_common_millisecond() ==> outcome is Ok,
{
    let published = match to_naive_utc(millis) {
        Ok(moment) => moment,
        Err(e) => {
            return Err(e);
        },
    };
    let mut steps: Vec<PgStep> = Vec::new();
    let mut j: usize = 0;
    while j < lines.len()
        invariant
            j <= lines.len(),
            step_views(steps@) == entry_steps(entry_views(lines@).take(j as int), file_sha@, published),
        decreases lines.len() - j,
    {
        let step = PgStep::InsertEntry {
            entry: lines[j].duplicate(),
            file_sha: String::from_str(file_sha),
            published,
        };
        proof {
            let done = entry_views(lines@).take(j as int);
            let next = entry_views(lines@).take(j + 1);
            assert(next == done.push(lines@[j as int]@));
            assert(step_views(steps@.push(step)) =~= step_views(steps@).push(step@));
            assert(entry_steps(next, file_sha@, published) =~= entry_steps(
                done,
                file_sha@,
                published,
            ).push(step@));
        }
        steps.push(step);
        j += 1;
    }
    assert(entry_views(lines@).take(lines@.len() as int) == entry_views(lines@));
    Ok(steps)
}

/// All the steps of an export of `items`, in the order in which one
/// transaction runs them: the two tables, the emptying of both where
/// `truncate` is set, then each file's row followed by the rows of its
/// entries, then the commit. Where a publication time has no UTC date and
/// time, the steps end there by giving up; that does not happen where
/// every assignment was published between the epoch and the end of the
/// year 9999.
pub fn write_to_postgres(items: &[BridgeParsedAssignment], truncate: bool) -> (steps: Vec<PgStep>)
    ensures
        step_views(steps@) == export_plan(assignment_views(items@), truncate),
        common_times(assignment_views(items@)) ==> step_views(steps@).last() is Commit,
{
    let ghost data = assignment_views(items@);
    let mut steps = prepare_schema();
    if truncate {
        assert(step_views(steps@.push(PgStep::Truncate)) =~= step_views(steps@).push(
            StepView::Truncate,
        ));
        steps.push(PgStep::Truncate);
    }
    let mut i: usize = 0;
    assert(data.take(0) == Seq::<AssignmentView>::empty());
    assert(step_views(steps@) =~= opening_steps(truncate) + insert_steps(data.take(0)));
    while i < items.len()
        invariant
            i <= items.len(),
            data == assignment_views(items@),
            !gives_up(insert_steps(data.take(i as int))),
            step_views(steps@) == opening_steps(truncate) + insert_steps(data.take(i as int)),
        decreases items.len() - i,
    {
        let file = &items[i];
        let ghost before = insert_steps(data.take(i as int));
        proof {
            assert(data.take(i + 1).drop_last() == data.take(i as int));
            assert(data.take(i + 1).last() == file@);
        }
        match insert_file(file) {
            Ok(first) => {
                match insert_lines(file.file_sha.as_str(), file.lines.as_slice(), file.published) {
                    Ok(mut more) => {
                        let ghost head = steps@;
                        let ghost tail = more@;
                        proof {
                            assert(step_views(head.push(first) + tail) =~= step_views(head)
                                + file_steps(file@));
                            assert(opening_steps(truncate) + before + file_steps(file@)
                                =~= opening_steps(truncate) + (before + file_steps(file@)));
                        }
                        steps.push(first);
                        steps.append(&mut more);
                    },
                    Err(e) => {
                        assert(!common_times(data)) by {
                            assert(data[i as int].published == file.published);
                        }
                        return give_up(steps, e, Ghost(data), Ghost(i as int), Ghost(truncate));
                    },
                }
            },
            Err(e) => {
                assert(!common_times(data)) by {
                    assert(data[i as int].published == file.published);
                }
                return give_up(steps, e, Ghost(data), Ghost(i as int), Ghost(truncate));
            },
        }
        i += 1;
    }
    assert(data.take(items@.len() as int) == data);
    assert(step_views(steps@.push(PgStep::Commit)) =~= step_views(steps@) + seq![StepView::Commit]);
    steps.push(PgStep::Commit);
    steps
}

/// Ends the steps at the file at `i`, whose publication time has no UTC
/// date and time.
fn give_up(
    steps: Vec<PgStep>,
    e: BridgeError,
    Ghost(data): Ghost<Seq<AssignmentView>>,
    Ghost(i): Ghost<int>,
    Ghost(truncate): Ghost<bool>,
) -> (ended: Vec<PgStep>)
    requires
        0 <= i < data.len(),
        !gives_up(insert_steps(data.take(i))),
        step_views(steps@) == opening_steps(truncate) + insert_steps(data.take(i)),
        utc_of(data[i].published).is_none(),
        e@ == conversion_error(),
    ensures
        step_views(ended@) == export_plan(data, truncate),
{
    let mut ended = steps;
    proof {
        assert(data.take(i + 1).drop_last() == data.take(i));
        assert(data.take(i + 1).last() == data[i]);
        let before = insert_steps(data.take(i));
        let inserts = before + file_steps(data[i]);
        assert(file_steps(data[i]) == seq![StepView::Abort(conversion_error())]);
        assert(inserts == insert_steps(data.take(i + 1)));
        lemma_given_up_stays(data, i + 1);
        assert(inserts == insert_steps(data));
        assert(inserts.last() is Abort);
        assert(closing_steps(inserts) == Seq::<StepView>::empty());
        assert(step_views(ended@.push(PgStep::Abort(e))) =~= step_views(ended@).push(
            StepView::Abort(e@),
        ));
        assert(step_views(ended@).push(StepView::Abort(e@)) =~= opening_steps(truncate) + inserts
            + closing_steps(inserts));
    }
    ended.push(PgStep::Abort(e));
    ended
}

/// Once the steps for the first `n` files give up, the files after them add
/// nothing.
pub proof fn lemma_given_up_stays(data: Seq<AssignmentView>, n: int)
    requires
        0 <= n <= data.len(),
        gives_up(insert_steps(data.take(n))),
    ensures
        insert_steps(data) == insert_steps(data.take(n)),
    decreases data.len() - n,
{
    if n == data.len() {
        assert(data.take(n) == data);
    } else {
        assert(data.take(n + 1).drop_last() == data.take(n));
        lemma_given_up_stays(data, n + 1);
    }
}

/// The relational sink: where to connect, and whether to empty the tables
/// before writing.
pub struct PostgresExporter {
    pub conn_str: String,
    pub truncate: bool,
}

impl Exporter for PostgresExporter {
    type Output = Vec<PgStep>;

    /// The steps of an export, as [`write_to_postgres`] gives them.
    open spec fn written(&self, data: Seq<AssignmentView>, output: Vec<PgStep>) -> bool {
        step_views(output@) == export_plan(data, self.truncate)
    }

    fn export(&self, data: &[BridgeParsedAssignment]) -> (steps: Vec<PgStep>)
        ensures
            common_times(assignment_views(data@)) ==> step_views(steps@).last() is Commit,
    {
        write_to_postgres(data, self.truncate)
    }
}

} // verus!
