//! Host-side specialization and dispatch core for just-in-time generated
//! compute kernels over N-dimensional strided arrays.
//!
//! The crate models the machinery that turns an abstract array operation
//! (elementwise comparison, convolution, pooling, gather, sub-range copy)
//! into one launch of a specialized kernel: descriptor and layout
//! arithmetic, index projection between differently strided views,
//! vectorization-width selection, in-place aliasing decisions, work-grid
//! sizing, and the per-family kernel semantics themselves.
//!
//! The device side is modeled: a compute client keeps each buffer as a
//! vector of machine-integer element values together with its live
//! reference count, and runs every launch synchronously, one work unit at
//! a time. Kernels that accumulate (convolution, average pooling) state
//! magnitude caps on their operands so that every intermediate sum
//! provably stays inside the element type.

pub mod alias;
pub mod cast;
pub mod client;
pub mod comparison;
pub mod comptime;
pub mod conv;
pub mod descriptor;
pub mod grid;
pub mod pool;
pub mod projection;
pub mod select;
pub mod slice;
pub mod template;
pub mod vectorize;
