//! The three sinks.

use bridge_parser::config::{parse_port, DatabaseConfig, DatabaseVariables};
use bridge_parser::error::BridgeError;
use bridge_parser::exporter::parquet::{columnar_batch, columnar_schema, ColumnKind};
use bridge_parser::exporter::pg::{
    database_failure, insert_file, insert_lines, prepare_schema, to_naive_utc, write_to_postgres,
    PgStep, UtcTimestamp, CREATE_ENTRY_TABLE, CREATE_FILE_TABLE, INSERT_ENTRY, INSERT_FILE,
    TRUNCATE_TABLES,
};
use bridge_parser::exporter::{
    select_backend, CsvExporter, ExportBackend, ExportSettings, Exporter, ParquetExporter,
    PostgresExporter,
};
use bridge_parser::transformer::parser::{parse_line, BridgeLineEntry, BridgeParsedAssignment};
use std::path::PathBuf;

fn entry(sha: &str, line: &str) -> BridgeLineEntry {
    let mut entry = parse_line(line).unwrap();
    entry.sha = sha.to_string();
    entry
}

fn sample() -> Vec<BridgeParsedAssignment> {
    vec![
        BridgeParsedAssignment {
            file_sha: "f1".to_string(),
            published: 1_705_287_600_000,
            header: "bridge-pool-assignment 2024-01-15 03:00:00".to_string(),
            lines: vec![
                entry(
                    "e1",
                    "005fd4d7decbb250055b861579e6fdc79ad17bee email transport=obfs4 ip=4 blocklist=ru distributed=true state=functional bandwidth=accepted ratio=1.902",
                ),
                entry("e2", "1234567890ABCDEF1234567890ABCDEF12345678 vanilla distributed=no"),
            ],
        },
        BridgeParsedAssignment {
            file_sha: "f2".to_string(),
            published: 1_705_374_000_500,
            header: "bridge-pool-assignment 2024-01-16 03:00:00".to_string(),
            lines: vec![],
        },
        BridgeParsedAssignment {
            file_sha: "f3".to_string(),
            published: 0,
            header: "bridge-pool-assignment 1970-01-01 00:00:00".to_string(),
            lines: vec![entry("e3", "1234567890ABCDEF1234567890ABCDEF12345678 moat")],
        },
    ]
}

#[test]
fn tabular_records() {
    let sink = CsvExporter { output_path: PathBuf::from("out.csv") };
    let records = sink.export(&sample());
    assert_eq!(records.len(), 4);
    assert_eq!(
        records[0],
        vec![
            "entry_sha", "fingerprint", "distribution_method", "transport", "ip", "blocklist",
            "distributed", "state", "bandwidth", "ratio"
        ]
    );
    assert_eq!(
        records[1],
        vec![
            "e1", "005fd4d7decbb250055b861579e6fdc79ad17bee", "email", "obfs4", "4", "ru", "true",
            "functional", "accepted", "1.902"
        ]
    );
    assert_eq!(
        records[2],
        vec!["e2", "1234567890ABCDEF1234567890ABCDEF12345678", "vanilla", "", "", "", "false", "", "", ""]
    );
    assert_eq!(records[3][0], "e3");
    assert_eq!(records[3][6], "");
}

#[test]
fn tabular_export_of_nothing_is_the_header_alone() {
    let sink = CsvExporter { output_path: PathBuf::from("out.csv") };
    let records = sink.export(&[]);
    assert_eq!(records.len(), 1);
    assert_eq!(records[0].len(), 10);
}

#[test]
fn columnar_batch_repeats_the_file_on_every_row() {
    let batch = columnar_batch(&sample());
    assert_eq!(batch.num_rows(), 3);
    assert_eq!(batch.file_sha, vec!["f1", "f1", "f3"]);
    assert_eq!(batch.published_timestamp, vec![1_705_287_600_000, 1_705_287_600_000, 0]);
    assert_eq!(batch.entry_sha, vec!["e1", "e2", "e3"]);
    assert_eq!(batch.distribution_method, vec!["email", "vanilla", "moat"]);
    assert_eq!(batch.fingerprint[2], "1234567890ABCDEF1234567890ABCDEF12345678");
    assert_eq!(batch.transport, vec![Some("obfs4".to_string()), None, None]);
    assert_eq!(batch.ip[0], Some("4".to_string()));
    assert_eq!(batch.blocklist[0], Some("ru".to_string()));
    assert_eq!(batch.distributed, vec![Some(true), Some(false), None]);
    assert_eq!(batch.state[0], Some("functional".to_string()));
    assert_eq!(batch.bandwidth[0], Some("accepted".to_string()));
    assert_eq!(batch.ratio, vec![Some("1.902".to_string()), None, None]);
}

#[test]
fn columnar_export_of_nothing_writes_nothing() {
    let sink = ParquetExporter { output_path: PathBuf::from("out.parquet") };
    assert!(sink.export(&[]).is_none());
    let only_header = vec![BridgeParsedAssignment {
        file_sha: "f".to_string(),
        published: 0,
        header: "h".to_string(),
        lines: vec![],
    }];
    let batch = sink.export(&only_header).unwrap();
    assert_eq!(batch.num_rows(), 0);
    assert_eq!(columnar_batch(&[]).num_rows(), 0);
}

#[test]
fn columnar_schema_has_twelve_columns() {
    let columns = columnar_schema();
    let names: Vec<&str> = columns.iter().map(|c| c.name).collect();
    assert_eq!(
        names,
        vec![
            "file_sha", "published_timestamp", "entry_sha", "fingerprint", "distribution_method",
            "transport", "ip", "blocklist", "distributed", "state", "bandwidth", "ratio"
        ]
    );
    assert!(columns[..5].iter().all(|c| !c.nullable));
    assert!(columns[5..].iter().all(|c| c.nullable));
    assert_eq!(columns[1].kind, ColumnKind::Integer);
    assert_eq!(columns[8].kind, ColumnKind::Boolean);
    assert_eq!(columns[11].kind, ColumnKind::Decimal);
    assert_eq!(columns[0].kind, ColumnKind::Text);
}

#[test]
fn milliseconds_become_seconds_and_nanoseconds() {
    assert_eq!(
        to_naive_utc(1_705_287_600_000).unwrap(),
        UtcTimestamp { secs: 1_705_287_600, nanos: 0 }
    );
    assert_eq!(to_naive_utc(1_500).unwrap(), UtcTimestamp { secs: 1, nanos: 500_000_000 });
    assert_eq!(to_naive_utc(0).unwrap(), UtcTimestamp { secs: 0, nanos: 0 });
    assert_eq!(to_naive_utc(-1_000).unwrap(), UtcTimestamp { secs: -1, nanos: 0 });
    assert_eq!(to_naive_utc(-1).unwrap(), UtcTimestamp { secs: -1, nanos: 999_000_000 });
    assert_eq!(to_naive_utc(-1_500).unwrap(), UtcTimestamp { secs: -2, nanos: 500_000_000 });
    assert_eq!(
        to_naive_utc(253_402_300_799_999).unwrap(),
        UtcTimestamp { secs: 253_402_300_799, nanos: 999_000_000 }
    );
    match to_naive_utc(i64::MAX) {
        Err(BridgeError::Export(reason)) => assert_eq!(reason, "Invalid timestamp conversion"),
        _ => panic!("a time beyond every date was converted"),
    }
    assert!(to_naive_utc(i64::MIN).is_err());
}

#[test]
fn relational_steps_in_order() {
    let sink = PostgresExporter { conn_str: "host=localhost".to_string(), truncate: true };
    let steps = sink.export(&sample());
    assert_eq!(steps.len(), 10);
    assert!(matches!(steps[0], PgStep::CreateFileTable));
    assert!(matches!(steps[1], PgStep::CreateEntryTable));
    assert!(matches!(steps[2], PgStep::Truncate));
    assert!(matches!(&steps[3], PgStep::InsertFile { sha, header, published }
        if sha == "f1" && header.starts_with("bridge-pool-assignment")
            && *published == UtcTimestamp { secs: 1_705_287_600, nanos: 0 }));
    assert!(matches!(&steps[4], PgStep::InsertEntry { entry, file_sha, published }
        if entry.sha == "e1" && file_sha == "f1" && published.secs == 1_705_287_600));
    assert!(matches!(&steps[5], PgStep::InsertEntry { entry, .. } if entry.sha == "e2"));
    assert!(matches!(&steps[6], PgStep::InsertFile { sha, published, .. }
        if sha == "f2" && published.nanos == 500_000_000));
    assert!(matches!(&steps[7], PgStep::InsertFile { sha, .. } if sha == "f3"));
    assert!(matches!(&steps[8], PgStep::InsertEntry { entry, file_sha, .. }
        if entry.sha == "e3" && file_sha == "f3"));
    assert!(matches!(steps[9], PgStep::Commit));
    let plain = write_to_postgres(&sample(), false);
    assert_eq!(plain.len(), 9);
    assert!(matches!(plain[2], PgStep::InsertFile { .. }));
}

#[test]
fn relational_export_of_nothing_commits_nothing() {
    let steps = write_to_postgres(&[], false);
    assert_eq!(steps.len(), 3);
    assert!(matches!(steps[2], PgStep::Commit));
    let steps = write_to_postgres(&[], true);
    assert_eq!(steps.len(), 4);
    assert!(matches!(steps[2], PgStep::Truncate));
    assert!(matches!(steps[3], PgStep::Commit));
}

#[test]
fn relational_export_gives_up_on_a_time_out_of_range() {
    let mut data = sample();
    data[1].published = i64::MAX;
    let steps = write_to_postgres(&data, false);
    assert_eq!(steps.len(), 6);
    assert!(matches!(&steps[5], PgStep::Abort(BridgeError::Export(reason))
        if reason == "Invalid timestamp conversion"));
    assert!(insert_file(&data[1]).is_err());
    assert!(insert_lines("f", &data[0].lines, i64::MIN).is_err());
    assert_eq!(insert_lines("f", &data[0].lines, 0).unwrap().len(), 2);
    assert!(matches!(insert_file(&data[0]), Ok(PgStep::InsertFile { .. })));
    assert_eq!(prepare_schema().len(), 2);
}

#[test]
fn relational_statements() {
    assert_eq!(PgStep::CreateFileTable.sql(), Some(CREATE_FILE_TABLE));
    assert_eq!(PgStep::CreateEntryTable.sql(), Some(CREATE_ENTRY_TABLE));
    assert_eq!(PgStep::Truncate.sql(), Some(TRUNCATE_TABLES));
    assert_eq!(PgStep::Commit.sql(), None);
    let steps = write_to_postgres(&sample(), false);
    assert_eq!(steps[2].sql(), Some(INSERT_FILE));
    assert_eq!(steps[3].sql(), Some(INSERT_ENTRY));
    assert!(INSERT_FILE.contains("ON CONFLICT DO NOTHING"));
    assert!(INSERT_ENTRY.contains("ON CONFLICT DO NOTHING"));
    assert!(CREATE_ENTRY_TABLE.contains("file_sha TEXT REFERENCES bridge_file(sha)"));
    assert_eq!(steps[2].failure_label(), "Insert into bridge_file failed: ");
    assert_eq!(steps[3].failure_label(), "Insert into bridge_entry failed: ");
    assert_eq!(PgStep::Commit.failure_label(), "Commit failed: ");
    assert_eq!(PgStep::Truncate.failure_label(), "Failed to truncate tables: ");
    assert_eq!(PgStep::CreateFileTable.failure_label(), "Creating bridge_file failed: ");
    assert_eq!(PgStep::CreateEntryTable.failure_label(), "Creating bridge_entry failed: ");
    match database_failure("Commit failed: ", "gone") {
        BridgeError::Database(reason) => assert_eq!(reason, "Commit failed: gone"),
        _ => panic!("a failure of the database was reported as something else"),
    }
}

fn settings(format: &str, parquet_available: bool) -> ExportSettings {
    ExportSettings {
        format: format.to_string(),
        db: "host=localhost".to_string(),
        clear: true,
        csv_output: PathBuf::from("output.csv"),
        parquet_output: PathBuf::from("output.parquet"),
        parquet_available,
    }
}

#[test]
fn sink_is_chosen_by_name() {
    assert!(matches!(
        select_backend(settings("postgres", false)),
        Ok(ExportBackend::Postgres(sink)) if sink.conn_str == "host=localhost" && sink.truncate
    ));
    assert!(matches!(
        select_backend(settings("csv", false)),
        Ok(ExportBackend::Csv(sink)) if sink.output_path == PathBuf::from("output.csv")
    ));
    assert!(matches!(
        select_backend(settings("parquet", true)),
        Ok(ExportBackend::Parquet(sink)) if sink.output_path == PathBuf::from("output.parquet")
    ));
    match select_backend(settings("parquet", false)) {
        Err(BridgeError::Export(reason)) => assert_eq!(
            reason,
            "Parquet export support not enabled. Compile with --features parquet_export"
        ),
        _ => panic!("a sink that is not there was chosen"),
    }
    match select_backend(settings("xml", true)) {
        Err(BridgeError::Export(reason)) => assert_eq!(
            reason,
            "Unsupported format: 'xml'. Use --format=postgres|csv|parquet"
        ),
        _ => panic!("a name that is no sink was chosen"),
    }
}

#[test]
fn ports() {
    assert_eq!(parse_port("5432"), Some(5432));
    assert_eq!(parse_port("+80"), Some(80));
    assert_eq!(parse_port("0"), Some(0));
    assert_eq!(parse_port("00065535"), Some(65535));
    assert_eq!(parse_port("65536"), None);
    assert_eq!(parse_port("99999999999999999999"), None);
    assert_eq!(parse_port(""), None);
    assert_eq!(parse_port("+"), None);
    assert_eq!(parse_port("-1"), None);
    assert_eq!(parse_port("12a"), None);
    assert_eq!(parse_port(" 12"), None);
    for sample in ["5432", "+80", "65536", "", "+", "-0", "1 ", "0x10", "++1", "655350"] {
        assert_eq!(parse_port(sample), sample.parse::<u16>().ok(), "sample {:?}", sample);
    }
}

fn variables() -> DatabaseVariables {
    DatabaseVariables {
        url: Some("postgres://".to_string()),
        host: None,
        port: None,
        user: None,
        password: Some("secret".to_string()),
        database: None,
    }
}

#[test]
fn database_settings_have_defaults() {
    let config = DatabaseConfig::from_variables(variables()).unwrap();
    assert_eq!(config.host, "localhost");
    assert_eq!(config.port, 5432);
    assert_eq!(config.user, "postgres");
    assert_eq!(config.password, "secret");
    assert_eq!(config.database, "tor_metrics");
    let mut given = variables();
    given.host = Some("db".to_string());
    given.port = Some("6000".to_string());
    given.user = Some("me".to_string());
    given.database = Some("bridges".to_string());
    let config = DatabaseConfig::from_variables(given).unwrap();
    assert_eq!((config.host.as_str(), config.port), ("db", 6000));
    assert_eq!((config.user.as_str(), config.database.as_str()), ("me", "bridges"));
}

#[test]
fn database_settings_that_are_missing() {
    let mut given = variables();
    given.url = None;
    assert!(matches!(
        DatabaseConfig::from_variables(given),
        Err(BridgeError::Parse(reason)) if reason == "DATABASE_URL not set"
    ));
    let mut given = variables();
    given.port = Some("port".to_string());
    assert!(matches!(
        DatabaseConfig::from_variables(given),
        Err(BridgeError::Parse(reason)) if reason == "Invalid DB_PORT"
    ));
    let mut given = variables();
    given.password = None;
    assert!(matches!(
        DatabaseConfig::from_variables(given),
        Err(BridgeError::Parse(reason)) if reason == "DB_PASSWORD required"
    ));
}
