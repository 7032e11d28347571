//! From raw report files to parsed assignments.

pub mod laws;
pub mod parser;

pub use parser::{parse_files, BridgeLineEntry, BridgeParsedAssignment};

use vstd::prelude::*;

verus! {

/// Hands the parsed assignments on to the export stage as they are.
pub fn convert_to_assignments(input: Vec<BridgeParsedAssignment>) -> (output: Vec<
    BridgeParsedAssignment,
>)
    ensures
        output == input,
{
    input
}

} // verus!
