//! Finding the newest reports of a directory index and fetching them.

pub mod document;
pub mod fetch;
pub mod index;
pub mod local;

pub use fetch::BridgeRawFile;
pub use index::{extract_latest_entries, Json};
