//! The error type shared by every stage.

use vstd::prelude::*;

verus! {

/// What went wrong, with a human-readable detail.
#[derive(Debug)]
pub enum BridgeError {
    Io(String),
    Parse(String),
    Database(String),
    Export(String),
    Fetch(String),
    HttpError(String),
    InvalidHeader(String),
    InvalidLine(String),
    InvalidTimestamp(String),
    InvalidFingerprint(String),
    Csv(String),
}

/// The mathematical value of a [`BridgeError`]: the variant and its detail as
/// a sequence of characters.
pub enum ErrorView {
    Io(Seq<char>),
    Parse(Seq<char>),
    Database(Seq<char>),
    Export(Seq<char>),
    Fetch(Seq<char>),
    HttpError(Seq<char>),
    InvalidHeader(Seq<char>),
    InvalidLine(Seq<char>),
    InvalidTimestamp(Seq<char>),
    InvalidFingerprint(Seq<char>),
    Csv(Seq<char>),
}

impl View for BridgeError {
    type V = ErrorView;

    open spec fn view(&self) -> ErrorView {
        match self {
            BridgeError::Io(m) => ErrorView::Io(m@),
            BridgeError::Parse(m) => ErrorView::Parse(m@),
            BridgeError::Database(m) => ErrorView::Database(m@),
            BridgeError::Export(m) => ErrorView::Export(m@),
            BridgeError::Fetch(m) => ErrorView::Fetch(m@),
            BridgeError::HttpError(m) => ErrorView::HttpError(m@),
            BridgeError::InvalidHeader(m) => ErrorView::InvalidHeader(m@),
            BridgeError::InvalidLine(m) => ErrorView::InvalidLine(m@),
            BridgeError::InvalidTimestamp(m) => ErrorView::InvalidTimestamp(m@),
            BridgeError::InvalidFingerprint(m) => ErrorView::InvalidFingerprint(m@),
            BridgeError::Csv(m) => ErrorView::Csv(m@),
        }
    }
}

impl ErrorView {
    /// The words that introduce the detail when the error is shown.
    pub open spec fn label(self) -> Seq<char> {
        match self {
            ErrorView::Io(_) => "IO error: "@,
            ErrorView::Parse(_) => "Parse error: "@,
            ErrorView::Database(_) => "Database error: "@,
            ErrorView::Export(_) => "Export error: "@,
            ErrorView::Fetch(_) => "Fetch error: "@,
            ErrorView::HttpError(_) => "HTTP error: "@,
            ErrorView::InvalidHeader(_) => "Invalid header: "@,
            ErrorView::InvalidLine(_) => "Invalid line: "@,
            ErrorView::InvalidTimestamp(_) => "Invalid timestamp: "@,
            ErrorView::InvalidFingerprint(_) => "Invalid fingerprint: "@,
            ErrorView::Csv(_) => "CSV error: "@,
        }
    }

    /// The detail carried by the error.
    pub open spec fn detail(self) -> Seq<char> {
        match self {
            ErrorView::Io(m) => m,
            ErrorView::Parse(m) => m,
            ErrorView::Database(m) => m,
            ErrorView::Export(m) => m,
            ErrorView::Fetch(m) => m,
            ErrorView::HttpError(m) => m,
            ErrorView::InvalidHeader(m) => m,
            ErrorView::InvalidLine(m) => m,
            ErrorView::InvalidTimestamp(m) => m,
            ErrorView::InvalidFingerprint(m) => m,
            ErrorView::Csv(m) => m,
        }
    }

    /// The full line shown for the error: label, then detail.
    pub open spec fn rendered(self) -> Seq<char> {
        self.label() + self.detail()
    }
}

impl BridgeError {
    /// The detail carried by the error.
    pub fn detail(&self) -> (d: &String)
        ensures
            d@ == self@.detail(),
    {
        match self {
            BridgeError::Io(m) => m,
            BridgeError::Parse(m) => m,
            BridgeError::Database(m) => m,
            BridgeError::Export(m) => m,
            BridgeError::Fetch(m) => m,
            BridgeError::HttpError(m) => m,
            BridgeError::InvalidHeader(m) => m,
            BridgeError::InvalidLine(m) => m,
            BridgeError::InvalidTimestamp(m) => m,
            BridgeError::InvalidFingerprint(m) => m,
            BridgeError::Csv(m) => m,
        }
    }

    /// The words that introduce the detail when the error is shown.
    pub fn label(&self) -> (l: &'static str)
        ensures
            l@ == self@.label(),
    {
        match self {
            BridgeError::Io(_) => "IO error: ",
            BridgeError::Parse(_) => "Parse error: ",
            BridgeError::Database(_) => "Database error: ",
            BridgeError::Export(_) => "Export error: ",
            BridgeError::Fetch(_) => "Fetch error: ",
            BridgeError::HttpError(_) => "HTTP error: ",
            BridgeError::InvalidHeader(_) => "Invalid header: ",
            BridgeError::InvalidLine(_) => "Invalid line: ",
            BridgeError::InvalidTimestamp(_) => "Invalid timestamp: ",
            BridgeError::InvalidFingerprint(_) => "Invalid fingerprint: ",
            BridgeError::Csv(_) => "CSV error: ",
        }
    }

    /// The full line shown for the error, such as `Parse error: missing header line`.
    pub fn message(&self) -> (text: String)
        ensures
            text@ == self@.rendered(),
    {
        let mut text = String::from_str(self.label());
        text.append(self.detail().as_str());
        text
    }
}

} // verus!
