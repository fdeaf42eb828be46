//! Samples in sliding windows, and what was computed from them.

pub mod types;
pub mod window;
pub mod table;
pub mod ops;
pub mod laws;
