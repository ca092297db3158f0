//! Dense n-dimensional arrays on the host, the record of their counterparts
//! in a compute context, and the checks that kernel dispatch rests on.
//!
//! - `shape`: volumes, row-major strides and linear offsets, with the proof
//!   that addressing by coordinates is a bijection.
//! - `array`: the host array.
//! - `render`: the text layout of a two-dimensional array.
//! - `tensor`: the device tensor and its transfer mode.
//! - `ops`: validation of the matrix product before it is submitted.
//! - `error`: what can go wrong.

pub mod array;
pub mod error;
pub mod ops;
pub mod render;
pub mod shape;
pub mod tensor;
