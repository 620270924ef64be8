//! A fixed-capacity, array-backed vector and a UTF-8 string built on it.
//!
//! Capacity is chosen when a value is constructed and never grows: any
//! insertion that would exceed it is refused with a [`CapacityError`]
//! carrying the rejected element, so no data is lost. [`ArrayVec`] is the
//! vector core; [`Drain`] hands out the elements removed from a
//! sub-range; [`ArrayString`] keeps its bytes a valid UTF-8 encoding at
//! every observable point.

mod array_string;
mod array_vec;
mod drain;
mod errors;
mod utf8_scan;

pub use crate::array_string::lemma_encode_utf8_concat;
pub use crate::array_string::ArrayString;
pub use crate::array_vec::lemma_insert_remove_round_trip;
pub use crate::array_vec::lemma_pushed_all_within_capacity;
pub use crate::array_vec::lemma_truncate_idempotent;
pub use crate::array_vec::pushed;
pub use crate::array_vec::pushed_all;
pub use crate::array_vec::truncated;
pub use crate::array_vec::ArrayVec;
pub use crate::drain::Drain;
pub use crate::errors::CapacityError;
