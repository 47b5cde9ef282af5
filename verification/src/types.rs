//! The leaf value types that the host hands in and gets back.

pub mod decimal;
pub mod duration;
pub mod uuid;
pub mod varint;
