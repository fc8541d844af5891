//! Points, planes and quaternions over exact integer coordinates.
//!
//! Every value here is an immutable record of `i64` components. Contracts are
//! stated over the mathematical integers: each function names the bounds on its
//! inputs that keep its arithmetic inside `i64`, and proves the result exact.

pub mod scalar;
pub mod vector;
pub mod point;
pub mod plane;
pub mod quat;
