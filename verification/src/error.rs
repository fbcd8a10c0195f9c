//! The one way an operation on a bit vector can fail.

use vstd::prelude::*;

verus! {

/// Why an operation on a [`crate::BitVec`] was rejected.
#[derive(Debug, Clone, Copy, PartialEq, Eq, Structural)]
pub enum Error {
    /// A write named an index at or beyond the vector's length.
    IndexError,
}

} // verus!
