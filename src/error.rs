//! Why a document could not be decoded.
use vstd::prelude::*;

verus! {

/// A decoding failure; either one rejects the whole document.
#[derive(Clone, Copy, Debug, PartialEq, Eq, Structural)]
pub enum DecodeError {
    /// The day of the timestamp cannot be represented on the calendar.
    InvalidTimestamp,
    /// The document does not have the expected structure or field types.
    MalformedDocument,
}

} // verus!
