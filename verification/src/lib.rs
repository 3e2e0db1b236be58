//! A growable, contiguous, owned sequence with an explicit split between
//! capacity and length, amortised doubling growth and a draining iterator
//! that can be consumed from both ends.

pub mod buffer;
pub mod error;
pub mod into_iter;
pub mod laws;
pub mod model;
pub mod vec;

pub use crate::error::IndexOutOfBounds;
pub use crate::into_iter::IntoIter;
pub use crate::model::VecView;
pub use crate::vec::Vec;
