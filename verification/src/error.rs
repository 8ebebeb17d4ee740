//! The error domain that handle-table operations report upward.

use vstd::prelude::*;

verus! {

/// Why a handle-table operation was refused.
#[derive(Clone, Copy, Debug, PartialEq, Eq, Structural)]
pub enum Error {
    /// The index is out of range or names an empty slot.
    NotFound,
    /// The source handle may not be transferred, or more rights were asked
    /// for than the source handle grants.
    AccessDenied,
}

} // verus!
