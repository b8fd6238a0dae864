//! Outcomes of the filesystem operations that the surrounding program
//! performs on the stores' behalf.
//!
//! The store logic in this crate never touches the disk itself: the caller
//! reads or writes a file and reports what happened with one of these values;
//! the verified functions turn the report into the store's typed result.

use vstd::prelude::*;

verus! {

/// What reading one file yielded.
pub enum FileRead {
    /// The file exists and its bytes decode to this UTF-8 text.
    Found(String),
    /// No file exists at the path.
    Missing,
    /// The file exists but its bytes are not valid UTF-8.
    NotUtf8,
    /// Any other filesystem failure while reading.
    Failed,
}

/// What an atomic create-only write yielded.
pub enum WriteOutcome {
    /// The file was written and renamed into place.
    Written,
    /// The write was refused because the target file already exists.
    Exists,
    /// Any other filesystem failure while writing.
    Failed,
}

} // verus!
