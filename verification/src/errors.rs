//! Error taxonomy of the codec.
//!
//! Decode errors carry the offending column text (or the column count) for
//! diagnosability; the encode side can only fail on an out-of-range frame
//! value in a hand-built record.

use vstd::prelude::*;

verus! {

/// Mathematical form of a decode error, used by the contracts: each variant
/// carries the offending text as a sequence of characters.
pub enum DecodeErr {
    InvalidScore { text: Seq<char> },
    InvalidStrand { text: Seq<char> },
    InvalidFrame { text: Seq<char> },
    InvalidNumber { text: Seq<char> },
    InvalidColumnCount { expected: int, actual: int },
}

/// Why a raw column text (or a whole line of columns) was rejected.
///
/// `InvalidNumber` reports a generic unsigned-integer column (start or end)
/// whose text is not a decimal number fitting the field; the other variants
/// name the special column whose alphabet was violated.
#[derive(Debug, Clone, PartialEq, Eq)]
pub enum DecodeError {
    InvalidScore { text: String },
    InvalidStrand { text: String },
    InvalidFrame { text: String },
    InvalidNumber { text: String },
    InvalidColumnCount { expected: usize, actual: usize },
}

impl View for DecodeError {
    type V = DecodeErr;

    open spec fn view(&self) -> DecodeErr {
        match self {
            DecodeError::InvalidScore { text } => DecodeErr::InvalidScore { text: text@ },
            DecodeError::InvalidStrand { text } => DecodeErr::InvalidStrand { text: text@ },
            DecodeError::InvalidFrame { text } => DecodeErr::InvalidFrame { text: text@ },
            DecodeError::InvalidNumber { text } => DecodeErr::InvalidNumber { text: text@ },
            DecodeError::InvalidColumnCount { expected, actual } => DecodeErr::InvalidColumnCount {
                expected: *expected as int,
                actual: *actual as int,
            },
        }
    }
}

/// Why a record could not be rendered back to text: the only possibility is a
/// frame value outside `{0, 1, 2}` in a record built directly in memory.
#[derive(Debug, Clone, Copy, PartialEq, Eq, Structural)]
pub enum EncodeError {
    InvalidFrame { value: u8 },
}

} // verus!
