//! The failures that can abort a relocation pass.

use vstd::prelude::*;

verus! {

/// The external history oracle failed to start or exited with an unexpected
/// status; carries the exit code and the captured error text.
#[derive(Debug, PartialEq)]
pub struct OracleError {
    pub exit_code: i32,
    pub stderr: String,
}

/// A line of trace output did not match the expected structured format;
/// carries the offending raw line for diagnosis.
#[derive(Debug, PartialEq)]
pub struct ParseError {
    pub line: String,
}

/// Everything that can abort a pass: an oracle failure or a parse failure.
#[derive(Debug, PartialEq)]
pub enum RelocError {
    Oracle(OracleError),
    Parse(ParseError),
}

} // verus!
