//! Encodings that compress what they hold.

pub mod fsst_array;
