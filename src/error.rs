//! The errors that the library reports.
use vstd::prelude::*;

verus! {

/// Errors that the core reports to its caller.
#[derive(Debug, PartialEq, Eq, Clone, Copy)]
pub enum KeygenError {
    /// A token of the group specification has a count that is not a
    /// non-negative integer fitting in `usize`.
    InvalidGroupCount,
    /// The operating system's entropy source could not be read.
    EntropyUnavailable,
}

} // verus!
