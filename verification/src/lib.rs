//! Concatenating and splitting fixed-length sequences.
//!
//! Two dual operations over one size-arithmetic foundation: `concatenate`
//! joins a list of same-typed sequences into one sequence holding all
//! elements in argument order, and `split` cuts a sequence into contiguous
//! segments of caller-chosen lengths. Element count is conserved, no element
//! is duplicated, dropped, or reordered, and splitting is the exact left
//! inverse of concatenating.

pub mod laws;
pub mod model;
pub mod ops;

pub use ops::_const_assert_same_size;
pub use ops::concatenate;
pub use ops::concatenate_with_size;
pub use ops::concatenated_length;
pub use ops::split;
