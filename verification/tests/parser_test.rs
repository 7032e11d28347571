//! Lines, headers and whole reports.

use bridge_parser::collector::BridgeRawFile;
use bridge_parser::error::BridgeError;
use bridge_parser::helper::{Digest, Sha256Digest};
use bridge_parser::transformer::convert_to_assignments;
use bridge_parser::transformer::parser::{extract_time, parse_files, parse_line};

const FINGERPRINT: &str = "005fd4d7decbb250055b861579e6fdc79ad17bee";

fn raw_file(text: &str) -> BridgeRawFile {
    BridgeRawFile {
        path: String::from("recent/a"),
        content: text.to_string(),
        raw: text.as_bytes().to_vec(),
        timestamp: 7,
    }
}

#[test]
fn lib_test_parse_line_valid() {
    let valid_line = "1234567890ABCDEF1234567890ABCDEF12345678 vanilla transport=obfs4 ip=4 blocklist=none distributed=true state=functional";
    let result = parse_line(valid_line);
    assert!(result.is_ok());

    if let Ok(entry) = result {
        assert_eq!(entry.fingerprint, "1234567890ABCDEF1234567890ABCDEF12345678");
        assert_eq!(entry.distribution_method, "vanilla");
        assert_eq!(entry.transport, Some("obfs4".to_string()));
    }
}

#[test]
fn parser_test_test_parse_line_valid() {
    let line = "005fd4d7decbb250055b861579e6fdc79ad17bee email transport=obfs4 ip=4 blocklist=ru distributed=true state=functional bandwidth=accepted ratio=1.902";
    let result = parse_line(line);
    assert!(result.is_ok());

    if let Ok(entry) = result {
        assert_eq!(entry.fingerprint, "005fd4d7decbb250055b861579e6fdc79ad17bee");
        assert_eq!(entry.distribution_method, "email");
        assert_eq!(entry.transport, Some("obfs4".to_string()));
    }
}

#[test]
fn test_digest_trait_hash_entry_works() {
    let test_content = "test content\nfor hashing";
    let hasher = Sha256Digest;
    let digest = hasher.hash_bytes(test_content.as_bytes());
    assert_eq!(digest.len(), 64);
}

#[test]
fn test_invalid_fingerprint_rejected_by_regex() {
    let invalid_line = "INVALID12345 vanilla transport=obfs4";
    let result = parse_line(invalid_line);
    assert!(matches!(result, Err(BridgeError::InvalidLine(_))));
}

#[test]
fn test_fallback_version_if_type_missing() {
    let line_no_version = "1234567890ABCDEF1234567890ABCDEF12345678 vanilla";
    let result = parse_line(line_no_version);
    assert!(result.is_ok());

    if let Ok(entry) = result {
        assert_eq!(entry.distribution_method, "vanilla");
        assert_eq!(entry.transport, None);
    }
}

#[test]
fn test_parse_line_invalid() {
    let line = "invalid_fingerprint email";
    let result = parse_line(line);
    assert!(matches!(result, Err(BridgeError::InvalidLine(_))));
}

#[test]
fn line_with_every_attribute() {
    let line = "005fd4d7decbb250055b861579e6fdc79ad17bee email transport=obfs4 ip=4 blocklist=ru distributed=true state=functional bandwidth=accepted ratio=1.902";
    let entry = parse_line(line).unwrap();
    assert_eq!(entry.sha, "");
    assert_eq!(entry.fingerprint, FINGERPRINT);
    assert_eq!(entry.distribution_method, "email");
    assert_eq!(entry.transport, Some("obfs4".to_string()));
    assert_eq!(entry.ip, Some("4".to_string()));
    assert_eq!(entry.blocklist, Some("ru".to_string()));
    assert_eq!(entry.distributed, Some(true));
    assert_eq!(entry.state, Some("functional".to_string()));
    assert_eq!(entry.bandwidth, Some("accepted".to_string()));
    assert_eq!(entry.ratio, Some("1.902".to_string()));
    let ratio: f32 = entry.ratio.unwrap().parse().unwrap();
    assert_eq!(ratio, 1.902f32);
}

#[test]
fn line_errors_carry_their_reason() {
    match parse_line("onlyone") {
        Err(BridgeError::InvalidLine(reason)) => assert_eq!(reason, "Insufficient parts"),
        _ => panic!("a line of one word was accepted"),
    }
    match parse_line("") {
        Err(BridgeError::InvalidLine(reason)) => assert_eq!(reason, "Insufficient parts"),
        _ => panic!("an empty line was accepted"),
    }
    match parse_line("short email") {
        Err(BridgeError::InvalidLine(reason)) => assert_eq!(reason, "Invalid fingerprint length"),
        _ => panic!("a short fingerprint was accepted"),
    }
}

#[test]
fn line_of_forty_other_characters_is_read() {
    let line = "gggggggggggggggggggggggggggggggggggggggg email";
    let entry = parse_line(line).unwrap();
    assert_eq!(entry.fingerprint.len(), 40);
    assert_eq!(entry.distribution_method, "email");
}

#[test]
fn line_attributes_in_odd_shapes() {
    let line = format!(
        "  {}\t vanilla  unknown=1 novalue transport=a=b ip= =x distributed=TRUE ratio=abc state=one state=two ",
        FINGERPRINT
    );
    let entry = parse_line(&line).unwrap();
    assert_eq!(entry.fingerprint, FINGERPRINT);
    assert_eq!(entry.distribution_method, "vanilla");
    assert_eq!(entry.transport, None);
    assert_eq!(entry.ip, Some(String::new()));
    assert_eq!(entry.distributed, Some(false));
    assert_eq!(entry.ratio, None);
    assert_eq!(entry.state, Some("two".to_string()));
    assert_eq!(entry.blocklist, None);
    assert_eq!(entry.bandwidth, None);
}

#[test]
fn ratio_that_is_no_number_unsets_an_earlier_one() {
    let line = format!("{} email ratio=2.5 ratio=many", FINGERPRINT);
    assert_eq!(parse_line(&line).unwrap().ratio, None);
    let line = format!("{} email ratio=many ratio=-.5e3", FINGERPRINT);
    assert_eq!(parse_line(&line).unwrap().ratio, Some("-.5e3".to_string()));
}

#[test]
fn header_gives_publication_time() {
    let time = extract_time("bridge-pool-assignment 2024-01-15 03:00:00").unwrap();
    assert_eq!(time, 1_705_287_600_000);
    assert_eq!(extract_time("bridge-pool-assignment 1970-01-01 00:00:01").unwrap(), 1000);
}

#[test]
fn header_errors() {
    match extract_time("bridge-pool-assignment 2024-01-15") {
        Err(BridgeError::Parse(reason)) => assert_eq!(reason, "invalid header timestamp format"),
        _ => panic!("a header of two words was accepted"),
    }
    match extract_time("bridge-pool-assignment 2024-01-15 03:00:00 extra") {
        Err(BridgeError::Parse(reason)) => assert_eq!(reason, "invalid header timestamp format"),
        _ => panic!("a header of four words was accepted"),
    }
    match extract_time("bridge-pool-assignment 2024-13-45 03:00:00") {
        Err(BridgeError::Parse(reason)) => assert!(reason.starts_with("Invalid timestamp: ")),
        _ => panic!("a month 13 was accepted"),
    }
}

#[test]
fn report_is_parsed_line_by_line() {
    let text = format!(
        "bridge-pool-assignment 2024-01-15 03:00:00\r\n{fp} email transport=obfs4\nnot a line\n{bad} https\n\n{fp} moat ratio=0.5\n",
        fp = FINGERPRINT,
        bad = "zzzzzzzzzzzzzzzzzzzzzzzzzzzzzzzzzzzzzzzz"
    );
    let parsed = parse_files(vec![raw_file(&text)]).unwrap();
    assert_eq!(parsed.len(), 1);
    let report = &parsed[0];
    assert_eq!(report.header, "bridge-pool-assignment 2024-01-15 03:00:00");
    assert_eq!(report.published, 1_705_287_600_000);
    let hasher = Sha256Digest;
    assert_eq!(report.file_sha, hasher.hash_bytes(text.as_bytes()));
    assert_eq!(report.lines.len(), 2);
    assert_eq!(report.lines[0].distribution_method, "email");
    assert_eq!(report.lines[1].distribution_method, "moat");
    assert_eq!(report.lines[1].ratio, Some("0.5".to_string()));
    let first_line = format!("{} email transport=obfs4", FINGERPRINT);
    assert_eq!(report.lines[0].sha, hasher.hash_entry(first_line.as_bytes(), &report.file_sha));
    assert_eq!(report.lines[0].sha.len(), 64);
}

#[test]
fn report_skips_its_header_line_only() {
    let text = "005fd4d7decbb250055b861579e6fdc79ad17bee email\n1234567890ABCDEF1234567890ABCDEF12345678 vanilla\nbridge-pool-assignment 2024-01-15 03:00:00";
    let parsed = parse_files(vec![raw_file(text)]).unwrap();
    assert_eq!(parsed[0].header, "bridge-pool-assignment 2024-01-15 03:00:00");
    let fingerprints: Vec<&str> =
        parsed[0].lines.iter().map(|entry| entry.fingerprint.as_str()).collect();
    assert_eq!(
        fingerprints,
        vec![
            "005fd4d7decbb250055b861579e6fdc79ad17bee",
            "1234567890ABCDEF1234567890ABCDEF12345678"
        ]
    );
}

#[test]
fn report_reads_the_lines_on_both_sides_of_its_header() {
    let text = format!(
        "{fp} first\nbridge-pool-assignment 2024-01-15 03:00:00\n{fp} second\nbridge-pool-assignment 2024-01-16 03:00:00\n{fp} third\n",
        fp = FINGERPRINT
    );
    let parsed = parse_files(vec![raw_file(&text)]).unwrap();
    let methods: Vec<&str> =
        parsed[0].lines.iter().map(|entry| entry.distribution_method.as_str()).collect();
    assert_eq!(methods, vec!["first", "second", "third"]);
    assert_eq!(parsed[0].published, 1_705_287_600_000);
}

#[test]
fn report_without_header_fails_the_batch() {
    let good = "bridge-pool-assignment 2024-01-15 03:00:00\n";
    match parse_files(vec![raw_file(good), raw_file("nothing here\n")]) {
        Err(BridgeError::Parse(reason)) => assert_eq!(reason, "missing header line"),
        _ => panic!("a report without header was accepted"),
    }
    match parse_files(vec![raw_file("")]) {
        Err(BridgeError::Parse(reason)) => assert_eq!(reason, "missing header line"),
        _ => panic!("an empty report was accepted"),
    }
    match parse_files(vec![raw_file("bridge-pool-assignment now\n")]) {
        Err(BridgeError::Parse(reason)) => assert_eq!(reason, "invalid header timestamp format"),
        _ => panic!("a header of two words was accepted"),
    }
}

#[test]
fn empty_batch_parses_to_nothing() {
    let parsed = parse_files(Vec::new()).unwrap();
    assert!(parsed.is_empty());
    assert!(convert_to_assignments(parsed).is_empty());
}

#[test]
fn same_bytes_same_file_digest() {
    let text = "bridge-pool-assignment 2024-01-15 03:00:00\n";
    let mut other = raw_file(text);
    other.path = String::from("elsewhere");
    other.timestamp = 99;
    let parsed = parse_files(vec![raw_file(text), other]).unwrap();
    assert_eq!(parsed[0].file_sha, parsed[1].file_sha);
}

#[test]
fn same_line_in_two_files_has_two_digests() {
    let line = format!("{} email", FINGERPRINT);
    let a = format!("bridge-pool-assignment 2024-01-15 03:00:00\n{}\n", line);
    let b = format!("bridge-pool-assignment 2024-01-16 03:00:00\n{}\n", line);
    let parsed = parse_files(vec![raw_file(&a), raw_file(&b)]).unwrap();
    assert_ne!(parsed[0].file_sha, parsed[1].file_sha);
    assert_ne!(parsed[0].lines[0].sha, parsed[1].lines[0].sha);
}

#[test]
fn digests_are_sha256_in_lower_case_hex() {
    let hasher = Sha256Digest;
    assert_eq!(
        hasher.hash_bytes(b"abc"),
        "ba7816bf8f01cfea414140de5dae2223b00361a396177a9cb410ff61f20015ad"
    );
    assert_eq!(
        hasher.hash_bytes(b""),
        "e3b0c44298fc1c149afbf4c8996fb92427ae41e4649b934ca495991b7852b855"
    );
    assert_eq!(hasher.hash_entry(b"a", "bc"), hasher.hash_bytes(b"abc"));
}

#[test]
fn error_messages() {
    assert_eq!(BridgeError::Parse("x".to_string()).message(), "Parse error: x");
    assert_eq!(BridgeError::Io("x".to_string()).message(), "IO error: x");
    assert_eq!(BridgeError::Database("x".to_string()).message(), "Database error: x");
    assert_eq!(BridgeError::Export("x".to_string()).message(), "Export error: x");
    assert_eq!(BridgeError::Fetch("x".to_string()).message(), "Fetch error: x");
    assert_eq!(BridgeError::HttpError("x".to_string()).message(), "HTTP error: x");
    assert_eq!(BridgeError::InvalidHeader("x".to_string()).message(), "Invalid header: x");
    assert_eq!(BridgeError::InvalidLine("x".to_string()).message(), "Invalid line: x");
    assert_eq!(BridgeError::InvalidTimestamp("x".to_string()).message(), "Invalid timestamp: x");
    assert_eq!(
        BridgeError::InvalidFingerprint("x".to_string()).message(),
        "Invalid fingerprint: x"
    );
    assert_eq!(BridgeError::Csv("x".to_string()).message(), "CSV error: x");
}
