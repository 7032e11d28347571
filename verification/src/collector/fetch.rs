//! Raw report files and the steps by which they are fetched.
//!
//! The fetch is a session that is told what happened and answers with what
//! to do next. It asks for the index once, then for each of the newest files
//! in turn. A request for a file that fails on the way is tried again after
//! a growing delay, a limited number of times; any other failure ends the
//! session without files.

use vstd::prelude::*;
use vstd::utf8::{decode_utf8, valid_utf8};
use tokio_retry::strategy::ExponentialBackoff;
use crate::collector::document::{json_document, parse_index, reports_bad_json};
use crate::collector::index::{entry_pairs, extract_latest_entries, latest_entries};
use crate::collector::local::{describe_utf8_error, raw_file_from_bytes, text_of_bytes};
use crate::error::{BridgeError, ErrorView};
use crate::helper::text::{string_of, to_chars, trim_end, trim_end_chars};

verus! {

/// Where the index document lies under the base address.
pub const INDEX_PATH: &'static str = "/index/index.json";

/// The seconds after which the request for the index is given up.
pub const INDEX_TIMEOUT_SECS: u64 = 30;

/// How many of the newest files are fetched.
pub const LATEST_LIMIT: usize = 10;

/// The first delay before a request for a file is tried again, in
/// milliseconds, and the factor by which the delay grows.
pub const RETRY_BASE_MILLIS: u64 = 100;

/// How often a request for a file is tried again.
pub const RETRY_LIMIT: usize = 5;

/// One retrieved document: where it was found, its text, its bytes, and the
/// time of its last change in milliseconds since the epoch.
#[derive(Debug)]
pub struct BridgeRawFile {
    pub path: String,
    pub content: String,
    pub raw: Vec<u8>,
    pub timestamp: i64,
}

/// The mathematical value of a [`BridgeRawFile`].
pub struct RawFileView {
    pub path: Seq<char>,
    pub content: Seq<char>,
    pub raw: Seq<u8>,
    pub timestamp: i64,
}

impl View for BridgeRawFile {
    type V = RawFileView;

    open spec fn view(&self) -> RawFileView {
        RawFileView {
            path: self.path@,
            content: self.content@,
            raw: self.raw@,
            timestamp: self.timestamp,
        }
    }
}

/// The values of a sequence of raw files.
pub open spec fn raw_file_views(files: Seq<BridgeRawFile>) -> Seq<RawFileView> {
    Seq::new(files.len(), |i: int| files[i]@)
}

/// The address of the index document under `base`.
pub open spec fn index_url(base: Seq<char>) -> Seq<char> {
    trim_end(base, '/') + INDEX_PATH@
}

/// The address of the file at `path` under `base`.
pub open spec fn file_url(base: Seq<char>, path: Seq<char>) -> Seq<char> {
    trim_end(base, '/') + seq!['/'] + path
}

/// Whether a status code reports success.
pub open spec fn is_success(status: u16) -> bool {
    200 <= status < 300
}

/// The error of a response whose status does not report success.
pub open spec fn status_error(status_line: Seq<char>) -> ErrorView {
    ErrorView::HttpError("HTTP error: "@ + status_line)
}

/// The delay before the try after `failures` failed ones, in milliseconds:
/// the base for the first, then the base times the delay before, held at
/// the largest number of 64 bits.
pub open spec fn backoff_millis(base: u64, failures: nat) -> u64
    decreases failures,
{
    if failures == 0 {
        base
    } else {
        let grown = backoff_millis(base, (failures - 1) as nat) as int * base as int;
        if grown > u64::MAX {
            u64::MAX
        } else {
            grown as u64
        }
    }
}

/// The first `count` delays of `ExponentialBackoff::from_millis(base)` of
/// `tokio_retry`, in milliseconds: each is the one before it times `base`,
/// saturating.
#[verifier::external_body]
fn backoff_delays(base: u64, count: usize) -> (delays: Vec<u64>)
    ensures
        delays@.len() == count,
        forall|i: int| 0 <= i < count ==> #[trigger] delays@[i] == backoff_millis(base, i as nat),
{
    ExponentialBackoff::from_millis(base).take(count).map(|delay| delay.as_millis() as u64).collect()
}

/// The address of the index document under `base_url`.
pub fn index_url_of(base_url: &str) -> (url: String)
    ensures
        url@ == index_url(base_url@),
{
    let mut url = string_of(&trim_end_chars(&to_chars(base_url), '/'));
    url.append(INDEX_PATH);
    url
}

/// The address of the file at `path` under `base_url`.
pub fn file_url_of(base_url: &str, path: &str) -> (url: String)
    ensures
        url@ == file_url(base_url@, path@),
{
    let mut url = string_of(&trim_end_chars(&to_chars(base_url), '/'));
    url.push('/');
    url.append(path);
    url
}

/// Accepts a response by its status: a status from 200 to 299 passes, any
/// other is an error that carries the status line.
pub fn check_status(status: u16, status_line: &str) -> (outcome: Result<(), BridgeError>)
    ensures
        outcome is Ok <==> is_success(status),
        outcome matches Err(e) ==> e@ == status_error(status_line@),
{
    if 200 <= status && status < 300 {
        Ok(())
    } else {
        let mut detail = String::from_str("HTTP error: ");
        detail.append(status_line);
        Err(BridgeError::HttpError(detail))
    }
}

/// What a single request for bridge data yields, given the response that
/// arrived: its body where the status reports success, else an error that
/// carries the status line.
pub fn fetch_bridge_data(status: u16, status_line: &str, body: Vec<u8>) -> (outcome: Result<
    Vec<u8>,
    BridgeError,
>)
    ensures
        match outcome {
            Ok(bytes) => is_success(status) && bytes == body,
            Err(e) => !is_success(status) && e@ == status_error(status_line@),
        },
{
    match check_status(status, status_line) {
        Ok(_) => Ok(body),
        Err(e) => Err(e),
    }
}

/// Where a session stands.
#[derive(Debug, Clone, Copy, PartialEq, Eq, Structural)]
pub enum FetchPhase {
    /// Nothing has been asked for.
    Start,
    /// The index has been asked for.
    AwaitIndex,
    /// A file has been asked for.
    AwaitFile,
    /// A delay runs before a file is asked for again.
    AwaitRetry,
    /// The session is over.
    Finished,
}

/// What happened since the last step.
#[derive(Debug)]
pub enum FetchEvent {
    /// The session begins.
    Started,
    /// A response arrived, with its status and the bytes of its body.
    Response { status: u16, status_line: String, body: Vec<u8> },
    /// The request failed on the way.
    TransportError(String),
    /// The text of a response could not be read.
    BodyError(String),
    /// The delay is over.
    Waited,
}

/// What to do next.
#[derive(Debug)]
pub enum FetchAction {
    /// Ask for the index, and give up after so many seconds.
    GetIndex { url: String, timeout_secs: u64 },
    /// Ask for a file.
    GetFile { url: String },
    /// Let so many milliseconds pass, then report [`FetchEvent::Waited`].
    Wait { millis: u64 },
    /// The session is over: these are the files, the newest first.
    Done(Vec<BridgeRawFile>),
    /// The session is over without files.
    Fail(BridgeError),
}

/// The mathematical value of a [`FetchEvent`].
pub enum EventView {
    Started,
    Response { status: u16, status_line: Seq<char>, body: Seq<u8> },
    TransportError(Seq<char>),
    BodyError(Seq<char>),
    Waited,
}

/// The mathematical value of a [`FetchAction`].
pub enum ActionView {
    GetIndex { url: Seq<char>, timeout_secs: u64 },
    GetFile { url: Seq<char> },
    Wait { millis: u64 },
    Done(Seq<RawFileView>),
    Fail(ErrorView),
}

/// The mathematical value of a [`FetchSession`]: where it stands, the files
/// to fetch, the files fetched, and how often the request under way has
/// failed.
pub struct SessionView {
    pub phase: FetchPhase,
    pub entries: Seq<(Seq<char>, i64)>,
    pub downloads: Seq<RawFileView>,
    pub failures: nat,
}

impl View for FetchEvent {
    type V = EventView;

    open spec fn view(&self) -> EventView {
        match self {
            FetchEvent::Started => EventView::Started,
            FetchEvent::Response { status, status_line, body } => EventView::Response {
                status: *status,
                status_line: status_line@,
                body: body@,
            },
            FetchEvent::TransportError(reason) => EventView::TransportError(reason@),
            FetchEvent::BodyError(reason) => EventView::BodyError(reason@),
            FetchEvent::Waited => EventView::Waited,
        }
    }
}

impl View for FetchAction {
    type V = ActionView;

    open spec fn view(&self) -> ActionView {
        match self {
            FetchAction::GetIndex { url, timeout_secs } => ActionView::GetIndex {
                url: url@,
                timeout_secs: *timeout_secs,
            },
            FetchAction::GetFile { url } => ActionView::GetFile { url: url@ },
            FetchAction::Wait { millis } => ActionView::Wait { millis: *millis },
            FetchAction::Done(files) => ActionView::Done(raw_file_views(files@)),
            FetchAction::Fail(e) => ActionView::Fail(e@),
        }
    }
}

/// The file that the body `body` makes for the entry `entry`: its bytes are
/// the body as it arrived, and its text is what they decode to.
pub open spec fn fetched_file(entry: (Seq<char>, i64), body: Seq<u8>) -> RawFileView {
    RawFileView { path: entry.0, content: decode_utf8(body), raw: body, timestamp: entry.1 }
}

impl SessionView {
    /// A session that is over.
    pub open spec fn finished() -> SessionView {
        SessionView {
            phase: FetchPhase::Finished,
            entries: Seq::empty(),
            downloads: Seq::empty(),
            failures: 0,
        }
    }

    /// Whether the session is in order: while files are fetched, one more is
    /// to come, the request under way has failed no more often than it may be
    /// tried again, and the files fetched are those of the first entries, in
    /// their order.
    pub open spec fn well_formed(self) -> bool {
        &&& self.phase == FetchPhase::AwaitFile || self.phase == FetchPhase::AwaitRetry ==> {
            &&& self.downloads.len() < self.entries.len()
            &&& self.failures <= RETRY_LIMIT
            &&& forall|i: int|
                0 <= i < self.downloads.len() ==> (#[trigger] self.downloads[i]).path
                    == self.entries[i].0 && self.downloads[i].timestamp == self.entries[i].1
                    && valid_utf8(self.downloads[i].raw) && self.downloads[i].content
                    == decode_utf8(self.downloads[i].raw)
        }
        &&& self.phase == FetchPhase::AwaitRetry ==> self.failures >= 1
    }

    /// The entry whose file is fetched next.
    pub open spec fn current(self) -> (Seq<char>, i64) {
        self.entries[self.downloads.len() as int]
    }
}

/// Whether `next` and `action` end a session without files, with an error
/// that meets `reported`.
pub open spec fn ends_with(
    next: SessionView,
    action: ActionView,
    reported: spec_fn(ErrorView) -> bool,
) -> bool {
    next == SessionView::finished() && (action matches ActionView::Fail(e) && reported(e))
}

/// Whether `next` and `action` answer a response to the request for the
/// index. A body that is no UTF-8 text is no JSON.
pub open spec fn answers_index(
    status: u16,
    status_line: Seq<char>,
    body: Seq<u8>,
    base: Seq<char>,
    folder: Seq<char>,
    next: SessionView,
    action: ActionView,
) -> bool {
    if !is_success(status) {
        next == SessionView::finished() && action == ActionView::Fail(status_error(status_line))
    } else if !valid_utf8(body) {
        ends_with(next, action, |e: ErrorView| reports_bad_json(e))
    } else {
        match json_document(decode_utf8(body)) {
            None => ends_with(next, action, |e: ErrorView| reports_bad_json(e)),
            Some(index) => match latest_entries(index, folder, LATEST_LIMIT as nat) {
                Err(e) => next == SessionView::finished() && action == ActionView::Fail(e),
                Ok(entries) => if entries.len() == 0 {
                    next == SessionView::finished() && action == ActionView::Done(Seq::empty())
                } else {
                    next == (SessionView {
                        phase: FetchPhase::AwaitFile,
                        entries,
                        downloads: Seq::empty(),
                        failures: 0,
                    }) && action == (ActionView::GetFile { url: file_url(base, entries[0].0) })
                },
            },
        }
    }
}

/// Whether `next` and `action` answer a response to the request for the
/// file that `s` waits for. A body that is no UTF-8 text ends the session
/// with a parse error.
pub open spec fn answers_file(
    s: SessionView,
    status: u16,
    status_line: Seq<char>,
    body: Seq<u8>,
    base: Seq<char>,
    next: SessionView,
    action: ActionView,
) -> bool {
    if !is_success(status) {
        next == SessionView::finished() && action == ActionView::Fail(status_error(status_line))
    } else if !valid_utf8(body) {
        ends_with(next, action, |e: ErrorView| e is Parse)
    } else {
        let done = s.downloads.push(fetched_file(s.current(), body));
        if done.len() == s.entries.len() {
            next == SessionView::finished() && action == ActionView::Done(done)
        } else {
            next == (SessionView {
                phase: FetchPhase::AwaitFile,
                entries: s.entries,
                downloads: done,
                failures: 0,
            }) && action == (ActionView::GetFile {
                url: file_url(base, s.entries[done.len() as int].0),
            })
        }
    }
}

/// Whether `next` and `action` answer a request for a file that failed on
/// the way: another try after a delay while tries are left, else the end.
pub open spec fn answers_failure(
    s: SessionView,
    reason: Seq<char>,
    next: SessionView,
    action: ActionView,
) -> bool {
    if s.failures < RETRY_LIMIT {
        next == (SessionView { phase: FetchPhase::AwaitRetry, failures: s.failures + 1, ..s })
            && action == (ActionView::Wait {
            millis: backoff_millis(RETRY_BASE_MILLIS, s.failures),
        })
    } else {
        next == SessionView::finished() && action == ActionView::Fail(ErrorView::Fetch(reason))
    }
}

/// Whether the session `s`, told `e`, may go on as `next` and answer
/// `action`. Fetching is from `base`, and the files are those under
/// `folder`.
pub open spec fn steps_to(
    s: SessionView,
    e: EventView,
    base: Seq<char>,
    folder: Seq<char>,
    next: SessionView,
    action: ActionView,
) -> bool {
    match (s.phase, e) {
        (FetchPhase::Start, EventView::Started) => next == (SessionView {
            phase: FetchPhase::AwaitIndex,
            ..SessionView::finished()
        }) && action == (ActionView::GetIndex {
            url: index_url(base),
            timeout_secs: INDEX_TIMEOUT_SECS,
        }),
        (FetchPhase::AwaitIndex, EventView::Response { status, status_line, body }) => answers_index(
            status,
            status_line,
            body,
            base,
            folder,
            next,
            action,
        ),
        (FetchPhase::AwaitIndex, EventView::TransportError(reason)) => next
            == SessionView::finished() && action == ActionView::Fail(ErrorView::Fetch(reason)),
        (FetchPhase::AwaitIndex, EventView::BodyError(reason)) => next == SessionView::finished()
            && action == ActionView::Fail(ErrorView::Fetch(reason)),
        (FetchPhase::AwaitFile, EventView::Response { status, status_line, body }) => answers_file(
            s,
            status,
            status_line,
            body,
            base,
            next,
            action,
        ),
        (FetchPhase::AwaitFile, EventView::TransportError(reason)) => answers_failure(
            s,
            reason,
            next,
            action,
        ),
        (FetchPhase::AwaitFile, EventView::BodyError(reason)) => next == SessionView::finished()
            && action == ActionView::Fail(ErrorView::Fetch(reason)),
        (FetchPhase::AwaitRetry, EventView::Waited) => next == (SessionView {
            phase: FetchPhase::AwaitFile,
            ..s
        }) && action == (ActionView::GetFile { url: file_url(base, s.current().0) }),
        _ => next == SessionView::finished() && action == ActionView::Fail(
            ErrorView::Fetch("unexpected event"@),
        ),
    }
}

/// A step keeps a session in order, and a session that ends with files has
/// one file for each entry, in the order of the entries: the newest first.
pub proof fn lemma_step_keeps_order(
    s: SessionView,
    e: EventView,
    base: Seq<char>,
    folder: Seq<char>,
    next: SessionView,
    action: ActionView,
)
    requires
        s.well_formed(),
        steps_to(s, e, base, folder, next, action),
    ensures
        next.well_formed(),
        action matches ActionView::Done(files) ==> {
            &&& s.phase == FetchPhase::AwaitFile ==> files.len() == s.entries.len()
            &&& s.phase == FetchPhase::AwaitFile ==> forall|i: int|
                0 <= i < files.len() ==> (#[trigger] files[i]).path == s.entries[i].0
                    && files[i].timestamp == s.entries[i].1 && valid_utf8(files[i].raw)
                    && files[i].content == decode_utf8(files[i].raw)
            &&& s.phase != FetchPhase::AwaitFile ==> files.len() == 0
        },
        action matches ActionView::Wait { .. } ==> s.failures < RETRY_LIMIT,
{
}

/// A fetch under way.
pub struct FetchSession {
    phase: FetchPhase,
    entries: Vec<(String, i64)>,
    downloads: Vec<BridgeRawFile>,
    failures: usize,
}

impl View for FetchSession {
    type V = SessionView;

    closed spec fn view(&self) -> SessionView {
        SessionView {
            phase: self.phase,
            entries: entry_pairs(self.entries@),
            downloads: raw_file_views(self.downloads@),
            failures: self.failures as nat,
        }
    }
}

impl FetchSession {
    #[verifier::type_invariant]
    spec fn in_order(self) -> bool {
        self@.well_formed()
    }

    /// A session that has not begun.
    pub fn new() -> (session: FetchSession)
        ensures
            session@ == (SessionView { phase: FetchPhase::Start, ..SessionView::finished() }),
    {
        let session = FetchSession {
            phase: FetchPhase::Start,
            entries: Vec::new(),
            downloads: Vec::new(),
            failures: 0,
        };
        assert(entry_pairs(session.entries@) =~= Seq::empty());
        assert(raw_file_views(session.downloads@) =~= Seq::empty());
        session
    }

    /// Whether the session is over.
    pub fn is_finished(&self) -> (over: bool)
        ensures
            over == (self@.phase == FetchPhase::Finished),
    {
        self.phase == FetchPhase::Finished
    }

    fn ended() -> (session: FetchSession)
        ensures
            session@ == SessionView::finished(),
    {
        let session = FetchSession {
            phase: FetchPhase::Finished,
            entries: Vec::new(),
            downloads: Vec::new(),
            failures: 0,
        };
        assert(entry_pairs(session.entries@) =~= Seq::empty());
        assert(raw_file_views(session.downloads@) =~= Seq::empty());
        session
    }

    fn fail(reason: String) -> (next: (FetchSession, FetchAction))
        ensures
            next.0@ == SessionView::finished(),
            next.1@ == ActionView::Fail(ErrorView::Fetch(reason@)),
    {
        (FetchSession::ended(), FetchAction::Fail(BridgeError::Fetch(reason)))
    }

    /// Takes the session one step on: told what happened, it says what to do
    /// next. Fetching is from `base_url`, and the files are the newest under
    /// `folder`.
    pub fn step(self, event: FetchEvent, base_url: &str, folder: &str) -> (next: (
        FetchSession,
        FetchAction,
    ))
        ensures
            steps_to(self@, event@, base_url@, folder@, next.0@, next.1@),
    {
        proof {
            use_type_invariant(&self);
        }
        let FetchSession { phase, entries, downloads, failures } = self;
        match (phase, event) {
            (FetchPhase::Start, FetchEvent::Started) => {
                let session = FetchSession {
                    phase: FetchPhase::AwaitIndex,
                    entries: Vec::new(),
                    downloads: Vec::new(),
                    failures: 0,
                };
                assert(entry_pairs(session.entries@) =~= Seq::empty());
                assert(raw_file_views(session.downloads@) =~= Seq::empty());
                (
                    session,
                    FetchAction::GetIndex {
                        url: index_url_of(base_url),
                        timeout_secs: INDEX_TIMEOUT_SECS,
                    },
                )
            },
            (FetchPhase::AwaitIndex, FetchEvent::Response { status, status_line, body }) => {
                FetchSession::after_index(status, status_line, body, base_url, folder)
            },
            (FetchPhase::AwaitIndex, FetchEvent::TransportError(reason)) => FetchSession::fail(
                reason,
            ),
            (FetchPhase::AwaitIndex, FetchEvent::BodyError(reason)) => FetchSession::fail(reason),
            (FetchPhase::AwaitFile, FetchEvent::Response { status, status_line, body }) => {
                FetchSession::after_file(
                    entries,
                    downloads,
                    failures,
                    status,
                    status_line,
                    body,
                    base_url,
                )
            },
            (FetchPhase::AwaitFile, FetchEvent::TransportError(reason)) => {
                if failures < RETRY_LIMIT {
                    let delays = backoff_delays(RETRY_BASE_MILLIS, RETRY_LIMIT);
                    let millis = delays[failures];
                    let session = FetchSession {
                        phase: FetchPhase::AwaitRetry,
                        entries,
                        downloads,
                        failures: failures + 1,
                    };
                    (session, FetchAction::Wait { millis })
                } else {
                    FetchSession::fail(reason)
                }
            },
            (FetchPhase::AwaitFile, FetchEvent::BodyError(reason)) => FetchSession::fail(reason),
            (FetchPhase::AwaitRetry, FetchEvent::Waited) => {
                let url = file_url_of(base_url, entries[downloads.len()].0.as_str());
                let session = FetchSession {
                    phase: FetchPhase::AwaitFile,
                    entries,
                    downloads,
                    failures,
                };
                (session, FetchAction::GetFile { url })
            },
            _ => FetchSession::fail(String::from_str("unexpected event")),
        }
    }

    fn after_index(status: u16, status_line: String, body: Vec<u8>, base_url: &str, folder: &str)
        -> (next: (FetchSession, FetchAction))
        ensures
            answers_index(status, status_line@, body@, base_url@, folder@, next.0@, next.1@),
    {
        match check_status(status, status_line.as_str()) {
            Ok(_) => {},
            Err(e) => {
                return (FetchSession::ended(), FetchAction::Fail(e));
            },
        }
        let text = match text_of_bytes(body.as_slice()) {
            Ok(text) => text,
            Err(failure) => {
                let mut detail = String::from_str("JSON parse failed: ");
                let ghost prefix = detail@;
                detail.append(describe_utf8_error(&failure).as_str());
                assert(detail@.subrange(0, prefix.len() as int) == prefix);
                return (FetchSession::ended(), FetchAction::Fail(BridgeError::Parse(detail)));
            },
        };
        let index = match parse_index(text) {
            Ok(index) => index,
            Err(e) => {
                return (FetchSession::ended(), FetchAction::Fail(e));
            },
        };
        let entries = match extract_latest_entries(&index, folder, LATEST_LIMIT) {
            Ok(entries) => entries,
            Err(e) => {
                return (FetchSession::ended(), FetchAction::Fail(e));
            },
        };
        if entries.len() == 0 {
            let files: Vec<BridgeRawFile> = Vec::new();
            assert(raw_file_views(files@) =~= Seq::empty());
            return (FetchSession::ended(), FetchAction::Done(files));
        }
        let url = file_url_of(base_url, entries[0].0.as_str());
        let session = FetchSession {
            phase: FetchPhase::AwaitFile,
            entries,
            downloads: Vec::new(),
            failures: 0,
        };
        assert(raw_file_views(session.downloads@) =~= Seq::empty());
        (session, FetchAction::GetFile { url })
    }

    fn after_file(
        entries: Vec<(String, i64)>,
        downloads: Vec<BridgeRawFile>,
        failures: usize,
        status: u16,
        status_line: String,
        body: Vec<u8>,
        base_url: &str,
    ) -> (next: (FetchSession, FetchAction))
        requires
            (SessionView {
                phase: FetchPhase::AwaitFile,
                entries: entry_pairs(entries@),
                downloads: raw_file_views(downloads@),
                failures: failures as nat,
            }).well_formed(),
        ensures
            answers_file(
                SessionView {
                    phase: FetchPhase::AwaitFile,
                    entries: entry_pairs(entries@),
                    downloads: raw_file_views(downloads@),
                    failures: failures as nat,
                },
                status,
                status_line@,
                body@,
                base_url@,
                next.0@,
                next.1@,
            ),
    {
        match check_status(status, status_line.as_str()) {
            Ok(_) => {},
            Err(e) => {
                return (FetchSession::ended(), FetchAction::Fail(e));
            },
        }
        let ghost before = raw_file_views(downloads@);
        let ghost listed = entry_pairs(entries@);
        let n = downloads.len();
        let ghost bytes = body@;
        let file = match raw_file_from_bytes(body, entries[n].1) {
            Ok(read) => BridgeRawFile {
                path: entries[n].0.clone(),
                content: read.content,
                raw: read.raw,
                timestamp: read.timestamp,
            },
            Err(e) => {
                return (FetchSession::ended(), FetchAction::Fail(e));
            },
        };
        let mut done = downloads;
        assert(file@ == fetched_file(listed[n as int], bytes));
        assert(raw_file_views(done@.push(file)) =~= before.push(file@));
        done.push(file);
        if done.len() == entries.len() {
            return (FetchSession::ended(), FetchAction::Done(done));
        }
        let url = file_url_of(base_url, entries[done.len()].0.as_str());
        let session = FetchSession {
            phase: FetchPhase::AwaitFile,
            entries,
            downloads: done,
            failures: 0,
        };
        (session, FetchAction::GetFile { url })
    }
}

} // verus!
