//! Concrete encodings.

pub mod constant;
pub mod decimal;
pub mod dict;
pub mod filter;
pub mod primitive;
pub mod varbin;
pub mod varbinview;
