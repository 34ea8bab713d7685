//! The conditions that end a scan.

use vstd::prelude::*;

verus! {

/// Why a scan stopped before the end of the source. Positions are character indices.
#[derive(Debug, Clone, PartialEq, Eq)]
pub enum ScanError {
    /// The quote at `position` has no matching `delimiter` after it.
    UnterminatedLiteral { delimiter: char, position: usize },
    /// The numeric lexeme `text` at `position` is no 32-bit integer and no decimal number.
    MalformedNumber { text: String, position: usize },
}

/// The mathematical value of a [`ScanError`].
pub ghost enum ScanFailure {
    UnterminatedLiteral { delimiter: char, position: int },
    MalformedNumber { text: Seq<char>, position: int },
}

impl View for ScanError {
    type V = ScanFailure;

    open spec fn view(&self) -> ScanFailure {
        match self {
            ScanError::UnterminatedLiteral { delimiter, position } => ScanFailure::UnterminatedLiteral {
                delimiter: *delimiter,
                position: *position as int,
            },
            ScanError::MalformedNumber { text, position } => ScanFailure::MalformedNumber {
                text: text@,
                position: *position as int,
            },
        }
    }
}

} // verus!
