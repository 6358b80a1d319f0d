//! The error taxonomy of the grid store. Every fallible operation reports
//! exactly one of these conditions to its immediate caller.

use vstd::prelude::*;

verus! {

/// Why a grid operation was refused.
#[derive(Copy, Clone, Debug, PartialEq, Eq, Structural)]
pub enum GridError {
    /// Construction was asked for a width or height that is not strictly
    /// positive.
    NegativeMapLength,
    /// A supplied coordinate or index falls outside the allocated grid.
    OutOfRange,
    /// The operation required an occupied slot but found it empty.
    MissingTarget,
    /// The operation required an empty slot but found it occupied.
    AlreadyOccupied,
    /// The background at the target coordinate disallows content.
    ForbiddenLocation,
}

} // verus!
