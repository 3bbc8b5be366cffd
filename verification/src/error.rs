//! The two ways in which a resolution fails.

use vstd::prelude::*;

verus! {

/// Why an identity store gave no raw text.
#[derive(Clone, Copy, Debug, PartialEq, Eq, Structural)]
pub enum AccessError {
    /// The operating system refused the call and gave this error code. The
    /// code is kept as it came.
    Os(i32),
    /// The store was read and what it held cannot serve: it was empty, or it
    /// was no text.
    InvalidData,
    /// The store could not be read and the operating system named no code.
    Unavailable,
}

/// Why no identifier was resolved.
#[derive(Clone, Copy, Debug, PartialEq, Eq, Structural)]
pub enum Error {
    /// A store gave a raw text, and the text spells no identifier. No other
    /// store is tried after that.
    InvalidUuid,
    /// Every store of the platform was tried and none gave a usable text. The
    /// failure is that of the last store.
    IoError(AccessError),
}

} // verus!
