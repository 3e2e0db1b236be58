//! The one way an operation on the container is refused.

use vstd::prelude::*;

verus! {

/// An index that names no position of the container, together with the
/// length the container had when the index was refused.
#[derive(Debug, Clone, Copy, PartialEq, Eq)]
pub struct IndexOutOfBounds {
    pub index: usize,
    pub len: usize,
}

} // verus!
