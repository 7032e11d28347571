//! The tabular sink: a header record, then one record for each entry.

use vstd::prelude::*;
use std::path::PathBuf;
use crate::exporter::{
    flat_rows, file_rows, lemma_rows_next_file, lemma_rows_step, Exporter, RowView,
};
use crate::helper::text::string_views;
use crate::transformer::parser::{
    assignment_views, AssignmentView, BridgeLineEntry, BridgeParsedAssignment, LineEntryView,
};

verus! {

/// The names of the columns, which make up the header record.
pub open spec fn csv_columns() -> Seq<Seq<char>> {
    seq![
        "entry_sha"@,
        "fingerprint"@,
        "distribution_method"@,
        "transport"@,
        "ip"@,
        "blocklist"@,
        "distributed"@,
        "state"@,
        "bandwidth"@,
        "ratio"@,
    ]
}

/// The text of an optional field: empty where the field is unset.
pub open spec fn text_or_empty(field: Option<Seq<char>>) -> Seq<char> {
    match field {
        Some(text) => text,
        None => Seq::empty(),
    }
}

/// The text of an optional truth value: `true`, `false`, or empty where it
/// is unset.
pub open spec fn truth_or_empty(field: Option<bool>) -> Seq<char> {
    match field {
        Some(true) => "true"@,
        Some(false) => "false"@,
        None => Seq::empty(),
    }
}

/// The fields of the record of an entry.
pub open spec fn csv_fields(entry: LineEntryView) -> Seq<Seq<char>> {
    seq![
        entry.sha,
        entry.fingerprint,
        entry.distribution_method,
        text_or_empty(entry.transport),
        text_or_empty(entry.ip),
        text_or_empty(entry.blocklist),
        truth_or_empty(entry.distributed),
        text_or_empty(entry.state),
        text_or_empty(entry.bandwidth),
        text_or_empty(entry.ratio),
    ]
}

/// The records of an export: the header record, then the record of each
/// row.
pub open spec fn csv_records(rows: Seq<RowView>) -> Seq<Seq<Seq<char>>> {
    Seq::new(
        rows.len() + 1,
        |i: int|
            if i == 0 {
                csv_columns()
            } else {
                csv_fields(rows[i - 1].entry)
            },
    )
}

/// The texts of a sequence of records.
pub open spec fn record_views(records: Seq<Vec<String>>) -> Seq<Seq<Seq<char>>> {
    Seq::new(records.len(), |i: int| string_views(records[i]@))
}

fn text_or_empty_of(field: &Option<String>) -> (text: String)
    ensures
        text@ == text_or_empty(crate::helper::text::optional_text(*field)),
{
    match field {
        Some(text) => text.clone(),
        None => String::new(),
    }
}

fn truth_or_empty_of(field: Option<bool>) -> (text: String)
    ensures
        text@ == truth_or_empty(field),
{
    match field {
        Some(true) => String::from_str("true"),
        Some(false) => String::from_str("false"),
        None => String::new(),
    }
}

/// The header record.
pub fn csv_header() -> (record: Vec<String>)
    ensures
        string_views(record@) == csv_columns(),
{
    let mut record: Vec<String> = Vec::new();
    record.push(String::from_str("entry_sha"));
    record.push(String::from_str("fingerprint"));
    record.push(String::from_str("distribution_method"));
    record.push(String::from_str("transport"));
    record.push(String::from_str("ip"));
    record.push(String::from_str("blocklist"));
    record.push(String::from_str("distributed"));
    record.push(String::from_str("state"));
    record.push(String::from_str("bandwidth"));
    record.push(String::from_str("ratio"));
    assert(string_views(record@) =~= csv_columns());
    record
}

/// The record of an entry.
pub fn csv_record(entry: &BridgeLineEntry) -> (record: Vec<String>)
    ensures
        string_views(record@) == csv_fields(entry@),
{
    let mut record: Vec<String> = Vec::new();
    record.push(entry.sha.clone());
    record.push(entry.fingerprint.clone());
    record.push(entry.distribution_method.clone());
    record.push(text_or_empty_of(&entry.transport));
    record.push(text_or_empty_of(&entry.ip));
    record.push(text_or_empty_of(&entry.blocklist));
    record.push(truth_or_empty_of(entry.distributed));
    record.push(text_or_empty_of(&entry.state));
    record.push(text_or_empty_of(&entry.bandwidth));
    record.push(text_or_empty_of(&entry.ratio));
    assert(string_views(record@) =~= csv_fields(entry@));
    record
}

/// The tabular sink, which writes one file and replaces what was there.
pub struct CsvExporter {
    pub output_path: PathBuf,
}

impl Exporter for CsvExporter {
    type Output = Vec<Vec<String>>;

    /// The records that an export writes: the header record, then one record
    /// for each entry, in the order of the files and of the entries within
    /// each file.
    open spec fn written(&self, data: Seq<AssignmentView>, output: Vec<Vec<String>>) -> bool {
        record_views(output@) == csv_records(flat_rows(data))
    }

    fn export(&self, data: &[BridgeParsedAssignment]) -> (records: Vec<Vec<String>>) {
        let ghost files = assignment_views(data@);
        let mut records: Vec<Vec<String>> = Vec::new();
        let header = csv_header();
        records.push(header);
        let mut i: usize = 0;
        assert(files.take(0) == Seq::<AssignmentView>::empty());
        assert(record_views(records@) =~= csv_records(flat_rows(files.take(0))));
        while i < data.len()
            invariant
                i <= data.len(),
                files == assignment_views(data@),
                record_views(records@) == csv_records(flat_rows(files.take(i as int))),
            decreases data.len() - i,
        {
            let file = &data[i];
            assert(files[i as int] == file@);
            proof {
                lemma_rows_next_file(files, i as int);
            }
            let mut j: usize = 0;
            while j < file.lines.len()
                invariant
                    i < data.len(),
                    j <= file.lines.len(),
                    files == assignment_views(data@),
                    files[i as int] == file@,
                    record_views(records@) == csv_records(
                        flat_rows(files.take(i as int)) + file_rows(file@).take(j as int),
                    ),
                decreases file.lines.len() - j,
            {
                let record = csv_record(&file.lines[j]);
                proof {
                    lemma_rows_step(files, i as int, j as int);
                    assert(file@.lines[j as int] == file.lines@[j as int]@);
                    let rows = flat_rows(files.take(i as int)) + file_rows(file@).take(j as int);
                    let row = file_rows(file@)[j as int];
                    assert(row.entry == file.lines@[j as int]@);
                    assert(record_views(records@.push(record)) =~= record_views(records@).push(
                        string_views(record@),
                    ));
                    assert(csv_records(rows.push(row)) =~= csv_records(rows).push(
                        csv_fields(row.entry),
                    ));
                }
                records.push(record);
                j += 1;
            }
            i += 1;
        }
        assert(files.take(data@.len() as int) == files);
        records
    }
}

} // verus!
