//! Ingestion of bridge pool assignment reports: resolving the newest files of a
//! directory index, parsing each report into validated, content-addressed
//! records, and laying those records out for the relational, tabular and
//! columnar sinks.

pub mod collector;
pub mod config;
pub mod error;
pub mod exporter;
pub mod helper;
pub mod transformer;

pub use error::BridgeError;
pub use transformer::convert_to_assignments;
pub use transformer::parser::parse_files;
