//! Reading byte ranges.

pub mod hedge;
pub mod read_at;
pub mod stream;
