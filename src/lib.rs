//! A disassembler for a LEGv8-style 32-bit instruction set.
//!
//! Each big-endian 4-byte word of a binary image is decoded into an
//! [`Instr`]; branch offsets are then resolved into symbolic labels and the
//! whole program is rendered as assembly text.
pub mod decode;
pub mod laws;
pub mod render;
pub mod text;

pub use decode::{Format, Instr, Mnemonic};
