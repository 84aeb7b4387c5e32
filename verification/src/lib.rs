//! A small multi-dimensional array engine: shape inference, row-major index
//! iteration, contiguous views over a flat buffer, two storage backends and
//! the `Array` type that combines a storage handle with a view.

pub mod arith;
pub mod array;
pub mod element;
pub mod error;
pub mod formatter;
pub mod shape_utils;
pub mod storage;
pub mod thread_safe_storage;
pub mod thread_unsafe_storage;
pub mod utils;
pub mod view_iters;
pub mod views;
