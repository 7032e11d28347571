//! Choosing the sink of a run.

use vstd::prelude::*;
use std::path::PathBuf;
use crate::error::{BridgeError, ErrorView};
use crate::exporter::csv::CsvExporter;
use crate::exporter::parquet::ParquetExporter;
use crate::exporter::pg::PostgresExporter;
use crate::helper::text::{chars_are, to_chars};

verus! {

/// The sinks there are. One is chosen by its name when a run is set up.
pub enum ExportBackend {
    Postgres(PostgresExporter),
    Csv(CsvExporter),
    Parquet(ParquetExporter),
}

/// What a run was asked to write to: the name of the sink and the settings
/// of each sink.
pub struct ExportSettings {
    /// The name of the sink: `postgres`, `csv` or `parquet`.
    pub format: String,
    /// Where the relational sink connects.
    pub db: String,
    /// Whether the relational sink empties its tables first.
    pub clear: bool,
    /// The file of the tabular sink.
    pub csv_output: PathBuf,
    /// The file of the columnar sink.
    pub parquet_output: PathBuf,
    /// Whether the columnar sink is there at all.
    pub parquet_available: bool,
}

/// The error of a columnar sink that is not there.
pub open spec fn parquet_missing() -> ErrorView {
    ErrorView::Export("Parquet export support not enabled. Compile with --features parquet_export"@)
}

/// The error of a name that is no sink.
pub open spec fn unsupported_format(format: Seq<char>) -> ErrorView {
    ErrorView::Export(
        "Unsupported format: '"@ + format + "'. Use --format=postgres|csv|parquet"@,
    )
}

/// The sink that `settings` name, with its settings; an error where the
/// name is no sink, or names the columnar sink while that is not there.
pub fn select_backend(settings: ExportSettings) -> (chosen: Result<ExportBackend, BridgeError>)
    ensures
        settings.format@ == "postgres"@ ==> (chosen matches Ok(ExportBackend::Postgres(sink))
            && sink.conn_str@ == settings.db@ && sink.truncate == settings.clear),
        settings.format@ == "csv"@ ==> (chosen matches Ok(ExportBackend::Csv(sink))
            && sink.output_path == settings.csv_output),
        settings.format@ == "parquet"@ && settings.parquet_available ==> (chosen matches Ok(
            ExportBackend::Parquet(sink),
        ) && sink.output_path == settings.parquet_output),
        settings.format@ == "parquet"@ && !settings.parquet_available ==> (chosen matches Err(e)
            && e@ == parquet_missing()),
        settings.format@ != "postgres"@ && settings.format@ != "csv"@ && settings.format@
            != "parquet"@ ==> (chosen matches Err(e) && e@ == unsupported_format(
            settings.format@,
        )),
{
    proof {
        reveal_strlit("postgres");
        reveal_strlit("csv");
        reveal_strlit("parquet");
        assert("postgres"@.len() == 8 && "csv"@.len() == 3 && "parquet"@.len() == 7);
    }
    let name = to_chars(settings.format.as_str());
    if chars_are(&name, "postgres") {
        Ok(ExportBackend::Postgres(PostgresExporter { conn_str: settings.db, truncate: settings.clear }))
    } else if chars_are(&name, "csv") {
        Ok(ExportBackend::Csv(CsvExporter { output_path: settings.csv_output }))
    } else if chars_are(&name, "parquet") {
        if settings.parquet_available {
            Ok(ExportBackend::Parquet(ParquetExporter { output_path: settings.parquet_output }))
        } else {
            Err(
                BridgeError::Export(
                    String::from_str(
                        "Parquet export support not enabled. Compile with --features parquet_export",
                    ),
                ),
            )
        }
    } else {
        let mut detail = String::from_str("Unsupported format: '");
        detail.append(settings.format.as_str());
        detail.append("'. Use --format=postgres|csv|parquet");
        Err(BridgeError::Export(detail))
    }
}

} // verus!
