//! The failure taxonomy shared by the record store and the pointer store.

use vstd::prelude::*;

verus! {

/// How an operation on one of the stores fails.
///
/// Every failure is a typed, recoverable value; no store operation panics.
#[derive(Clone, Copy, Debug, PartialEq, Eq, Structural)]
pub enum Error {
    /// The name holds a control or forbidden character, or would resolve
    /// outside the store root.
    Validation,
    /// No file exists at the resolved path.
    NotFound,
    /// Creation was refused because the target file already exists.
    AlreadyExists,
    /// The file's content could not be decoded into a record body.
    Parse,
    /// The file's bytes are not valid UTF-8.
    Encoding,
    /// Any other filesystem failure.
    Io,
}

/// A failure while resolving the currently open record, keeping apart the
/// step that failed: the pointer store (which record is current?) or the
/// record store (what does that record say?).
#[derive(Clone, Copy, Debug, PartialEq, Eq, Structural)]
pub enum CurrentError {
    /// The pointer store could not say which record is current.
    Pointer(Error),
    /// The pointer named a record that could not be read.
    Record(Error),
}

} // verus!
