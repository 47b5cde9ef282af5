//! A bridge between dynamically tagged host values and the typed binary
//! values of the CQL wire protocol.
//!
//! The `encoder` turns one parameter value and its declared wire type
//! into bytes, the `decoder` turns one cell of a result and its declared
//! wire type into a result value, `rows` projects a whole result set, and
//! `params` builds the argument block of a statement. Each states what it
//! returns over the byte layouts of `scalar`, `wire`, `vint` and `be`;
//! `laws` states what holds of them together.

pub mod ascii;
pub mod be;
pub mod cluster;
pub mod decoder;
pub mod descriptor;
pub mod encoder;
pub mod error;
pub mod ieee;
pub mod laws;
pub mod params;
pub mod rows;
pub mod scalar;
pub mod session;
pub mod text;
pub mod topology;
pub mod types;
pub mod value;
pub mod vint;
pub mod wire;
