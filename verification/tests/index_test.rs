//! The directory index and the fetch session.

use bridge_parser::collector::document::parse_index;
use bridge_parser::collector::fetch::{
    check_status, fetch_bridge_data, file_url_of, index_url_of, BridgeRawFile, FetchAction,
    FetchEvent, FetchSession,
};
use bridge_parser::collector::index::{extract_latest_entries, Json};
use bridge_parser::collector::local::raw_file_from_bytes;
use bridge_parser::error::BridgeError;

fn text(s: &str) -> Json {
    Json::Text(s.to_string())
}

fn object(members: Vec<(&str, Json)>) -> Json {
    Json::Object(members.into_iter().map(|(k, v)| (k.to_string(), v)).collect())
}

fn file(path: &str, modified: &str) -> Json {
    object(vec![("path", text(path)), ("last_modified", text(modified))])
}

fn three_files() -> Json {
    object(vec![(
        "directories",
        Json::Array(vec![
            object(vec![("path", text("archive"))]),
            object(vec![
                ("path", text("recent")),
                (
                    "directories",
                    Json::Array(vec![object(vec![
                        ("path", text("bridge-pool-assignments")),
                        (
                            "files",
                            Json::Array(vec![
                                file("a", "2024-01-01 00:00"),
                                file("b", "2024-01-03 00:00"),
                                file("c", "2024-01-02 00:00"),
                            ]),
                        ),
                    ])]),
                ),
            ]),
        ]),
    )])
}

const INDEX_TEXT: &str = r#"{"directories":[{"path":"recent","directories":[{"path":"bridge-pool-assignments","files":[
 {"path":"a","last_modified":"2024-01-01 00:00","size":12},
 {"path":"b","last_modified":"2024-01-03 00:00"},
 {"path":"c","last_modified":"2024-01-02 00:00"}]}]}]}"#;

#[test]
fn newest_two_of_three_files() {
    let found = extract_latest_entries(&three_files(), "recent/bridge-pool-assignments", 2).unwrap();
    assert_eq!(
        found,
        vec![
            ("recent/bridge-pool-assignments/b".to_string(), 1_704_240_000_000),
            ("recent/bridge-pool-assignments/c".to_string(), 1_704_153_600_000),
        ]
    );
}

#[test]
fn limits_at_the_edges() {
    let index = three_files();
    assert!(extract_latest_entries(&index, "recent/bridge-pool-assignments", 0).unwrap().is_empty());
    let all = extract_latest_entries(&index, "/recent/bridge-pool-assignments/", 10).unwrap();
    assert_eq!(all.len(), 3);
    assert_eq!(all[0].0, "/recent/bridge-pool-assignments/b");
    assert_eq!(all[2], ("/recent/bridge-pool-assignments/a".to_string(), 1_704_067_200_000));
}

#[test]
fn files_of_the_same_time_keep_their_order() {
    let index = object(vec![(
        "directories",
        Json::Array(vec![object(vec![
            ("path", text("d")),
            (
                "files",
                Json::Array(vec![
                    file("one", "2024-01-01 00:00"),
                    file("two", "not a time"),
                    object(vec![("path", text("three"))]),
                    file("four", "2024-01-01 00:00"),
                    file("five", "2024-01-02 00:00"),
                ]),
            ),
        ])]),
    )]);
    let found = extract_latest_entries(&index, "d", 10).unwrap();
    let names: Vec<&str> = found.iter().map(|entry| entry.0.as_str()).collect();
    assert_eq!(names, vec!["d/five", "d/one", "d/four", "d/two", "d/three"]);
    assert_eq!(found[3].1, 0);
    assert_eq!(found[4].1, 0);
}

#[test]
fn index_errors() {
    let index = three_files();
    match extract_latest_entries(&index, "recent/nowhere", 2) {
        Err(BridgeError::Parse(reason)) => assert_eq!(reason, "Directory 'nowhere' not found"),
        _ => panic!("a missing directory was found"),
    }
    match extract_latest_entries(&index, "", 2) {
        Err(BridgeError::Parse(reason)) => assert_eq!(reason, "Directory '' not found"),
        _ => panic!("an empty path was found"),
    }
    match extract_latest_entries(&index, "archive/old", 2) {
        Err(BridgeError::Parse(reason)) => {
            assert_eq!(reason, "Expected array while traversing index.json")
        },
        _ => panic!("a directory without list was walked"),
    }
    match extract_latest_entries(&Json::Null, "recent", 2) {
        Err(BridgeError::Parse(reason)) => {
            assert_eq!(reason, "Expected array while traversing index.json")
        },
        _ => panic!("an empty document was walked"),
    }
    match extract_latest_entries(&index, "recent", 2) {
        Err(BridgeError::Parse(reason)) => assert_eq!(reason, "Final segment missing 'files' array"),
        _ => panic!("a directory without files was listed"),
    }
    let nameless = object(vec![(
        "directories",
        Json::Array(vec![object(vec![
            ("path", text("d")),
            ("files", Json::Array(vec![file("a", "2024-01-01 00:00"), object(vec![])])),
        ])]),
    )]);
    match extract_latest_entries(&nameless, "d", 2) {
        Err(BridgeError::Parse(reason)) => assert_eq!(reason, "file missing 'path'"),
        _ => panic!("a file without path was listed"),
    }
}

#[test]
fn index_text_is_read_by_its_members() {
    let index = parse_index(INDEX_TEXT).unwrap();
    let found = extract_latest_entries(&index, "recent/bridge-pool-assignments", 2).unwrap();
    assert_eq!(found[0], ("recent/bridge-pool-assignments/b".to_string(), 1_704_240_000_000));
    assert_eq!(found[1], ("recent/bridge-pool-assignments/c".to_string(), 1_704_153_600_000));
    match parse_index("[1, 2.5, true, null, \"x\", {\"k\": []}]").unwrap() {
        Json::Array(items) => {
            assert_eq!(items.len(), 6);
            assert!(matches!(&items[0], Json::Number(n) if n == "1"));
            assert!(matches!(&items[1], Json::Number(n) if n == "2.5"));
            assert!(matches!(&items[2], Json::Bool(true)));
            assert!(matches!(&items[3], Json::Null));
            assert!(matches!(&items[4], Json::Text(t) if t == "x"));
            assert!(matches!(&items[5], Json::Object(m) if m.len() == 1 && m[0].0 == "k"));
        },
        _ => panic!("an array was read as something else"),
    }
    match parse_index("{\"directories\": ") {
        Err(BridgeError::Parse(reason)) => assert!(reason.starts_with("JSON parse failed: ")),
        _ => panic!("half a document was read"),
    }
}

#[test]
fn members_of_an_object() {
    let value = object(vec![("k", text("first")), ("k", text("last")), ("n", Json::Null)]);
    assert!(matches!(value.member("k"), Some(Json::Text(t)) if t == "last"));
    assert!(matches!(value.member("n"), Some(Json::Null)));
    assert!(value.member("missing").is_none());
    assert!(text("x").member("k").is_none());
    assert_eq!(value.member_text("k"), Some(&"last".to_string()));
    assert_eq!(value.member_text("n"), None);
    assert!(value.as_array().is_none());
    assert_eq!(text("x").as_text(), Some(&"x".to_string()));
}

#[test]
fn addresses() {
    assert_eq!(
        index_url_of("https://collector.torproject.org//"),
        "https://collector.torproject.org/index/index.json"
    );
    assert_eq!(index_url_of("http://h"), "http://h/index/index.json");
    assert_eq!(file_url_of("http://h/", "recent/x/a"), "http://h/recent/x/a");
}

#[test]
fn status_decides() {
    assert!(check_status(200, "200 OK").is_ok());
    assert!(check_status(299, "299").is_ok());
    match check_status(404, "404 Not Found") {
        Err(BridgeError::HttpError(reason)) => assert_eq!(reason, "HTTP error: 404 Not Found"),
        _ => panic!("a 404 passed"),
    }
    assert!(check_status(199, "199").is_err());
    assert!(check_status(300, "300").is_err());
    assert_eq!(fetch_bridge_data(200, "200 OK", vec![1, 2, 3]).unwrap(), vec![1, 2, 3]);
    assert!(matches!(
        fetch_bridge_data(500, "500 Internal Server Error", vec![1]),
        Err(BridgeError::HttpError(_))
    ));
}

fn begin() -> FetchSession {
    let (session, action) =
        FetchSession::new().step(FetchEvent::Started, "http://h/", "recent/bridge-pool-assignments");
    match action {
        FetchAction::GetIndex { url, timeout_secs } => {
            assert_eq!(url, "http://h/index/index.json");
            assert_eq!(timeout_secs, 30);
        },
        _ => panic!("the session did not ask for the index"),
    }
    session
}

fn ok(body: &str) -> FetchEvent {
    FetchEvent::Response {
        status: 200,
        status_line: "200 OK".to_string(),
        body: body.as_bytes().to_vec(),
    }
}

fn step(session: FetchSession, event: FetchEvent) -> (FetchSession, FetchAction) {
    session.step(event, "http://h/", "recent/bridge-pool-assignments")
}

fn expect_file(action: FetchAction, name: &str) {
    match action {
        FetchAction::GetFile { url } => {
            assert_eq!(url, format!("http://h/recent/bridge-pool-assignments/{}", name))
        },
        _ => panic!("the session did not ask for a file"),
    }
}

#[test]
fn session_fetches_the_newest_first() {
    let (session, action) = step(begin(), ok(INDEX_TEXT));
    expect_file(action, "b");
    let (session, action) = step(session, ok("text of b"));
    expect_file(action, "c");
    let (session, action) = step(session, ok("text of c"));
    expect_file(action, "a");
    assert!(!session.is_finished());
    let (session, action) = step(session, ok("täxt of a"));
    assert!(session.is_finished());
    match action {
        FetchAction::Done(files) => {
            let paths: Vec<&str> = files.iter().map(|f: &BridgeRawFile| f.path.as_str()).collect();
            assert_eq!(
                paths,
                vec![
                    "recent/bridge-pool-assignments/b",
                    "recent/bridge-pool-assignments/c",
                    "recent/bridge-pool-assignments/a"
                ]
            );
            assert_eq!(files[0].content, "text of b");
            assert_eq!(files[0].timestamp, 1_704_240_000_000);
            assert_eq!(files[2].raw, "täxt of a".as_bytes().to_vec());
        },
        _ => panic!("the session did not end with files"),
    }
}

#[test]
fn session_tries_a_file_again_five_times() {
    let (mut session, action) = step(begin(), ok(INDEX_TEXT));
    expect_file(action, "b");
    let delays: [u64; 5] = [100, 10_000, 1_000_000, 100_000_000, 10_000_000_000];
    for delay in delays {
        let (next, action) = step(session, FetchEvent::TransportError("down".to_string()));
        match action {
            FetchAction::Wait { millis } => assert_eq!(millis, delay),
            _ => panic!("the session did not wait"),
        }
        let (next, action) = step(next, FetchEvent::Waited);
        expect_file(action, "b");
        session = next;
    }
    let (session, action) = step(session, FetchEvent::TransportError("still down".to_string()));
    assert!(session.is_finished());
    match action {
        FetchAction::Fail(BridgeError::Fetch(reason)) => assert_eq!(reason, "still down"),
        _ => panic!("the session did not give up"),
    }
}

#[test]
fn session_counts_failures_for_each_file_anew() {
    let (session, _) = step(begin(), ok(INDEX_TEXT));
    let (session, _) = step(session, FetchEvent::TransportError("down".to_string()));
    let (session, _) = step(session, FetchEvent::Waited);
    let (session, action) = step(session, ok("b"));
    expect_file(action, "c");
    let (_, action) = step(session, FetchEvent::TransportError("down".to_string()));
    assert!(matches!(action, FetchAction::Wait { millis: 100 }));
}

#[test]
fn session_ends_on_other_failures() {
    let (_, action) = step(begin(), FetchEvent::TransportError("no route".to_string()));
    assert!(matches!(action, FetchAction::Fail(BridgeError::Fetch(reason)) if reason == "no route"));
    let (_, action) = step(
        begin(),
        FetchEvent::Response {
            status: 503,
            status_line: "503 Service Unavailable".to_string(),
            body: Vec::new(),
        },
    );
    assert!(matches!(
        action,
        FetchAction::Fail(BridgeError::HttpError(reason)) if reason == "HTTP error: 503 Service Unavailable"
    ));
    let (_, action) = step(begin(), ok("no json"));
    assert!(matches!(
        action,
        FetchAction::Fail(BridgeError::Parse(reason)) if reason.starts_with("JSON parse failed: ")
    ));
    let (_, action) = step(begin(), ok("{}"));
    assert!(matches!(action, FetchAction::Fail(BridgeError::Parse(_))));
    let (session, _) = step(begin(), ok(INDEX_TEXT));
    let (session, action) = step(session, FetchEvent::BodyError("cut off".to_string()));
    assert!(session.is_finished());
    assert!(matches!(action, FetchAction::Fail(BridgeError::Fetch(reason)) if reason == "cut off"));
    let (session, _) = step(begin(), ok(INDEX_TEXT));
    let (_, action) = step(
        session,
        FetchEvent::Response { status: 404, status_line: "404 Not Found".to_string(), body: Vec::new() },
    );
    assert!(matches!(action, FetchAction::Fail(BridgeError::HttpError(_))));
    let (_, action) = step(begin(), FetchEvent::Waited);
    assert!(matches!(
        action,
        FetchAction::Fail(BridgeError::Fetch(reason)) if reason == "unexpected event"
    ));
}

#[test]
fn session_keeps_the_bytes_as_they_arrived() {
    let (session, _) = step(begin(), ok(INDEX_TEXT));
    let bytes = vec![0xEF, 0xBB, 0xBF, b'h', 0xC3, 0xA9, b'\r', b'\n'];
    let (session, _) = step(
        session,
        FetchEvent::Response { status: 200, status_line: "200 OK".to_string(), body: bytes.clone() },
    );
    let (session, _) = step(session, ok("c"));
    let (_, action) = step(session, ok("a"));
    match action {
        FetchAction::Done(files) => {
            assert_eq!(files[0].raw, bytes);
            assert_eq!(files[0].content, "\u{feff}hé\r\n");
        },
        _ => panic!("the session did not end with files"),
    }
}

#[test]
fn session_ends_on_a_body_that_is_no_text() {
    let (session, _) = step(begin(), ok(INDEX_TEXT));
    let (session, action) = step(
        session,
        FetchEvent::Response { status: 200, status_line: "200 OK".to_string(), body: vec![0xff, 0xfe] },
    );
    assert!(session.is_finished());
    assert!(matches!(action, FetchAction::Fail(BridgeError::Parse(_))));
    let (session, action) = step(
        begin(),
        FetchEvent::Response { status: 200, status_line: "200 OK".to_string(), body: vec![b'{', 0xff, b'}'] },
    );
    assert!(session.is_finished());
    assert!(matches!(
        action,
        FetchAction::Fail(BridgeError::Parse(reason)) if reason.starts_with("JSON parse failed: ")
    ));
}

#[test]
fn session_without_files_is_done_at_once() {
    let empty = r#"{"directories":[{"path":"recent","directories":[{"path":"bridge-pool-assignments","files":[]}]}]}"#;
    let (session, action) = step(begin(), ok(empty));
    assert!(session.is_finished());
    assert!(matches!(action, FetchAction::Done(files) if files.is_empty()));
}

#[test]
fn local_bytes_become_a_raw_file() {
    let file = raw_file_from_bytes("héllo\n".as_bytes().to_vec(), 5).unwrap();
    assert_eq!(file.path, "");
    assert_eq!(file.content, "héllo\n");
    assert_eq!(file.raw, "héllo\n".as_bytes().to_vec());
    assert_eq!(file.timestamp, 5);
    assert!(matches!(raw_file_from_bytes(vec![0xff, 0xfe], 5), Err(BridgeError::Parse(_))));
}
