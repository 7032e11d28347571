//! Laying parsed assignments out for the sinks: the statements of the
//! relational sink, the records of the tabular sink and the columns of the
//! columnar sink.

pub mod backend;
pub mod csv;
pub mod laws;
pub mod parquet;
pub mod pg;

pub use backend::{select_backend, ExportBackend, ExportSettings};
pub use csv::CsvExporter;
pub use parquet::ParquetExporter;
pub use pg::PostgresExporter;

use vstd::prelude::*;
use crate::transformer::parser::{
    assignment_views, AssignmentView, BridgeParsedAssignment, LineEntryView,
};

verus! {

/// A place in the file system.
#[verifier::external_type_specification]
#[verifier::external_body]
pub struct ExPathBuf(std::path::PathBuf);

/// A sink for parsed assignments. An export lays the assignments out as the
/// sink stores them and hands the result to whoever writes it.
pub trait Exporter {
    /// What the sink is handed to write.
    type Output;

    /// Whether `output` is what an export of `data` hands on.
    spec fn written(&self, data: Seq<AssignmentView>, output: Self::Output) -> bool;

    /// Lays `data` out for the sink. An export of no assignments is in
    /// order and adds no row.
    fn export(&self, data: &[BridgeParsedAssignment]) -> (output: Self::Output)
        ensures
            self.written(assignment_views(data@), output),
    ;
}

/// One entry together with the digest and the publication time of its file.
pub struct RowView {
    pub file_sha: Seq<char>,
    pub published: i64,
    pub entry: LineEntryView,
}

/// The rows of one assignment: one for each of its entries, in order.
pub open spec fn file_rows(file: AssignmentView) -> Seq<RowView> {
    Seq::new(
        file.lines.len(),
        |i: int| RowView { file_sha: file.file_sha, published: file.published, entry: file.lines[i] },
    )
}

/// The rows of a sequence of assignments: those of the first assignment,
/// then those of the second, and so on.
pub open spec fn flat_rows(data: Seq<AssignmentView>) -> Seq<RowView>
    decreases data.len(),
{
    if data.len() == 0 {
        Seq::empty()
    } else {
        flat_rows(data.drop_last()) + file_rows(data.last())
    }
}

/// One more entry of the assignment at `i` extends the rows by one.
pub proof fn lemma_rows_step(data: Seq<AssignmentView>, i: int, j: int)
    requires
        0 <= i < data.len(),
        0 <= j < data[i].lines.len(),
    ensures
        flat_rows(data.take(i)) + file_rows(data[i]).take(j + 1) == (flat_rows(data.take(i))
            + file_rows(data[i]).take(j)).push(file_rows(data[i])[j]),
{
    let rows = file_rows(data[i]);
    assert(rows.take(j + 1) == rows.take(j).push(rows[j]));
}

/// The rows up to and including the assignment at `i`.
pub proof fn lemma_rows_next_file(data: Seq<AssignmentView>, i: int)
    requires
        0 <= i < data.len(),
    ensures
        flat_rows(data.take(i + 1)) == flat_rows(data.take(i)) + file_rows(data[i]),
        flat_rows(data.take(i)) + file_rows(data[i]).take(0) == flat_rows(data.take(i)),
        file_rows(data[i]).take(data[i].lines.len() as int) == file_rows(data[i]),
{
    assert(data.take(i + 1).drop_last() == data.take(i));
    assert(data.take(i + 1).last() == data[i]);
}

} // verus!
