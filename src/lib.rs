//! Animation clips in two forms: the AnimJ document and the AnimX binary stream.
//!
//! Floating-point fields and components are carried as their IEEE-754 bit
//! patterns (`u32` for single precision, `u64` for double precision): the
//! codec only ever moves their little-endian bytes.

pub mod error;
pub mod wire;
pub mod reader;
pub mod laws;
pub mod types;
pub mod animation;
pub mod decode;
pub mod document;
