use vstd::prelude::*;

verus! {

/// The failures a buffer reports.
#[derive(Debug, Clone, Copy, PartialEq, Eq, Structural)]
pub enum FltkError {
    /// A file was missing or could not be loaded.
    ResourceNotFound,
    /// There was no change to undo, or undo was disabled.
    UndoError,
}

} // verus!
