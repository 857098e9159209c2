//! Verified kernels of a columnar array library.

pub mod array;
pub mod arrays;
pub mod dtype;
pub mod encodings;
pub mod error;
pub mod io;
pub mod kernel;
pub mod mask;
pub mod matcher;
pub mod native;
pub mod optimizer;
pub mod order;
pub mod scalar;
mod share;
pub mod stats;
pub mod validity;
