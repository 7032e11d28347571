//! The columnar sink: one batch over the entries of all files, with the
//! digest and the publication time of the file repeated on every row.

use vstd::prelude::*;
use std::path::PathBuf;
use crate::exporter::{
    flat_rows, file_rows, lemma_rows_next_file, lemma_rows_step, Exporter, RowView,
};
use crate::helper::text::{copy_optional, optional_text};
use crate::transformer::parser::{
    assignment_views, AssignmentView, BridgeLineEntry, BridgeParsedAssignment, LineEntryView,
};

verus! {

/// What a column holds.
#[derive(Debug, Clone, Copy, PartialEq, Eq, Structural)]
pub enum ColumnKind {
    Text,
    Integer,
    Boolean,
    Decimal,
}

/// A column of the batch: its name, what it holds, and whether a row may
/// leave it unset.
#[derive(Debug, Clone, Copy)]
pub struct Column {
    pub name: &'static str,
    pub kind: ColumnKind,
    pub nullable: bool,
}

/// The columns of a batch, one vector for each. `ratio` holds the decimal
/// notation of each ratio.
#[derive(Debug)]
pub struct ColumnBatch {
    pub file_sha: Vec<String>,
    pub published_timestamp: Vec<i64>,
    pub entry_sha: Vec<String>,
    pub fingerprint: Vec<String>,
    pub distribution_method: Vec<String>,
    pub transport: Vec<Option<String>>,
    pub ip: Vec<Option<String>>,
    pub blocklist: Vec<Option<String>>,
    pub distributed: Vec<Option<bool>>,
    pub state: Vec<Option<String>>,
    pub bandwidth: Vec<Option<String>>,
    pub ratio: Vec<Option<String>>,
}

impl ColumnBatch {
    /// The number of rows.
    pub open spec fn height(&self) -> nat {
        self.file_sha@.len()
    }

    /// Whether every column has one value for each row.
    pub open spec fn well_formed(&self) -> bool {
        &&& self.published_timestamp@.len() == self.height()
        &&& self.entry_sha@.len() == self.height()
        &&& self.fingerprint@.len() == self.height()
        &&& self.distribution_method@.len() == self.height()
        &&& self.transport@.len() == self.height()
        &&& self.ip@.len() == self.height()
        &&& self.blocklist@.len() == self.height()
        &&& self.distributed@.len() == self.height()
        &&& self.state@.len() == self.height()
        &&& self.bandwidth@.len() == self.height()
        &&& self.ratio@.len() == self.height()
    }

    /// The row at `i`, read across the columns.
    pub open spec fn row(&self, i: int) -> RowView {
        RowView {
            file_sha: self.file_sha@[i]@,
            published: self.published_timestamp@[i],
            entry: LineEntryView {
                sha: self.entry_sha@[i]@,
                fingerprint: self.fingerprint@[i]@,
                distribution_method: self.distribution_method@[i]@,
                transport: optional_text(self.transport@[i]),
                ip: optional_text(self.ip@[i]),
                blocklist: optional_text(self.blocklist@[i]),
                distributed: self.distributed@[i],
                state: optional_text(self.state@[i]),
                bandwidth: optional_text(self.bandwidth@[i]),
                ratio: optional_text(self.ratio@[i]),
            },
        }
    }

    /// The rows of the batch, from the first to the last.
    pub open spec fn rows(&self) -> Seq<RowView> {
        Seq::new(self.height(), |i: int| self.row(i))
    }

    /// A batch without rows.
    pub fn new() -> (batch: ColumnBatch)
        ensures
            batch.well_formed(),
            batch.rows() == Seq::<RowView>::empty(),
    {
        ColumnBatch {
            file_sha: Vec::new(),
            published_timestamp: Vec::new(),
            entry_sha: Vec::new(),
            fingerprint: Vec::new(),
            distribution_method: Vec::new(),
            transport: Vec::new(),
            ip: Vec::new(),
            blocklist: Vec::new(),
            distributed: Vec::new(),
            state: Vec::new(),
            bandwidth: Vec::new(),
            ratio: Vec::new(),
        }
    }

    /// The number of rows.
    pub fn num_rows(&self) -> (n: usize)
        ensures
            n == self.height(),
    {
        self.file_sha.len()
    }

    /// Adds one row at the end: `entry` with the digest and the publication
    /// time of its file.
    pub fn push_row(&mut self, file_sha: &String, published: i64, entry: &BridgeLineEntry)
        requires
            old(self).well_formed(),
        ensures
            final(self).well_formed(),
            final(self).rows() == old(self).rows().push(
                RowView { file_sha: file_sha@, published, entry: entry@ },
            ),
    {
        let ghost before = *self;
        self.file_sha.push(file_sha.clone());
        self.published_timestamp.push(published);
        self.entry_sha.push(entry.sha.clone());
        self.fingerprint.push(entry.fingerprint.clone());
        self.distribution_method.push(entry.distribution_method.clone());
        self.transport.push(copy_optional(&entry.transport));
        self.ip.push(copy_optional(&entry.ip));
        self.blocklist.push(copy_optional(&entry.blocklist));
        self.distributed.push(entry.distributed);
        self.state.push(copy_optional(&entry.state));
        self.bandwidth.push(copy_optional(&entry.bandwidth));
        self.ratio.push(copy_optional(&entry.ratio));
        proof {
            let added = RowView { file_sha: file_sha@, published, entry: entry@ };
            assert forall|i: int| 0 <= i < self.height() implies self.row(i) == before.rows().push(
                added,
            )[i] by {
                if i < before.height() {
                    assert(self.row(i) == before.row(i));
                }
            }
            assert(self.rows() =~= before.rows().push(added));
        }
    }
}

/// The columns of a batch, in order.
pub fn columnar_schema() -> (columns: Vec<Column>)
    ensures
        columns@.len() == 12,
        columns@[0].name@ == "file_sha"@ && columns@[0].kind == ColumnKind::Text
            && !columns@[0].nullable,
        columns@[1].name@ == "published_timestamp"@ && columns@[1].kind == ColumnKind::Integer
            && !columns@[1].nullable,
        columns@[2].name@ == "entry_sha"@ && columns@[2].kind == ColumnKind::Text
            && !columns@[2].nullable,
        columns@[3].name@ == "fingerprint"@ && columns@[3].kind == ColumnKind::Text
            && !columns@[3].nullable,
        columns@[4].name@ == "distribution_method"@ && columns@[4].kind == ColumnKind::Text
            && !columns@[4].nullable,
        columns@[5].name@ == "transport"@ && columns@[5].kind == ColumnKind::Text
            && columns@[5].nullable,
        columns@[6].name@ == "ip"@ && columns@[6].kind == ColumnKind::Text && columns@[6].nullable,
        columns@[7].name@ == "blocklist"@ && columns@[7].kind == ColumnKind::Text
            && columns@[7].nullable,
        columns@[8].name@ == "distributed"@ && columns@[8].kind == ColumnKind::Boolean
            && columns@[8].nullable,
        columns@[9].name@ == "state"@ && columns@[9].kind == ColumnKind::Text
            && columns@[9].nullable,
        columns@[10].name@ == "bandwidth"@ && columns@[10].kind == ColumnKind::Text
            && columns@[10].nullable,
        columns@[11].name@ == "ratio"@ && columns@[11].kind == ColumnKind::Decimal
            && columns@[11].nullable,
{
    let mut columns: Vec<Column> = Vec::new();
    columns.push(Column { name: "file_sha", kind: ColumnKind::Text, nullable: false });
    columns.push(Column { name: "published_timestamp", kind: ColumnKind::Integer, nullable: false });
    columns.push(Column { name: "entry_sha", kind: ColumnKind::Text, nullable: false });
    columns.push(Column { name: "fingerprint", kind: ColumnKind::Text, nullable: false });
    columns.push(Column { name: "distribution_method", kind: ColumnKind::Text, nullable: false });
    columns.push(Column { name: "transport", kind: ColumnKind::Text, nullable: true });
    columns.push(Column { name: "ip", kind: ColumnKind::Text, nullable: true });
    columns.push(Column { name: "blocklist", kind: ColumnKind::Text, nullable: true });
    columns.push(Column { name: "distributed", kind: ColumnKind::Boolean, nullable: true });
    columns.push(Column { name: "state", kind: ColumnKind::Text, nullable: true });
    columns.push(Column { name: "bandwidth", kind: ColumnKind::Text, nullable: true });
    columns.push(Column { name: "ratio", kind: ColumnKind::Decimal, nullable: true });
    columns
}

/// The batch over the entries of all of `data`: one row for each entry, in
/// the order of the files and of the entries within each file.
pub fn columnar_batch(data: &[BridgeParsedAssignment]) -> (batch: ColumnBatch)
    ensures
        batch.well_formed(),
        batch.rows() == flat_rows(assignment_views(data@)),
{
    let ghost files = assignment_views(data@);
    let mut batch = ColumnBatch::new();
    let mut i: usize = 0;
    assert(files.take(0) == Seq::<AssignmentView>::empty());
    while i < data.len()
        invariant
            i <= data.len(),
            files == assignment_views(data@),
            batch.well_formed(),
            batch.rows() == flat_rows(files.take(i as int)),
        decreases data.len() - i,
    {
        let file = &data[i];
        assert(files[i as int] == file@);
        proof {
            lemma_rows_next_file(files, i as int);
        }
        let mut j: usize = 0;
        while j < file.lines.len()
            invariant
                i < data.len(),
                j <= file.lines.len(),
                files == assignment_views(data@),
                files[i as int] == file@,
                batch.well_formed(),
                batch.rows() == flat_rows(files.take(i as int)) + file_rows(file@).take(j as int),
            decreases file.lines.len() - j,
        {
            proof {
                lemma_rows_step(files, i as int, j as int);
                assert(file@.lines[j as int] == file.lines@[j as int]@);
            }
            batch.push_row(&file.file_sha, file.published, &file.lines[j]);
            j += 1;
        }
        i += 1;
    }
    assert(files.take(data@.len() as int) == files);
    batch
}

/// The columnar sink, which writes one file.
pub struct ParquetExporter {
    pub output_path: PathBuf,
}

impl Exporter for ParquetExporter {
    type Output = Option<ColumnBatch>;

    /// What an export writes: nothing where there are no assignments, else
    /// one batch over all their entries.
    open spec fn written(&self, data: Seq<AssignmentView>, output: Option<ColumnBatch>) -> bool {
        &&& output is None <==> data.len() == 0
        &&& output matches Some(batch) ==> batch.well_formed() && batch.rows() == flat_rows(data)
    }

    fn export(&self, data: &[BridgeParsedAssignment]) -> (output: Option<ColumnBatch>) {
        if data.len() == 0 {
            None
        } else {
            Some(columnar_batch(data))
        }
    }
}

} // verus!
