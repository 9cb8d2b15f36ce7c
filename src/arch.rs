//! The x86 SSE register types and exception flags, as plain values.
//!
//! A register is held as its 128 bits, lane 0 in the low bits: the memory
//! image of a register is its 16 bytes, least significant first, so casting a
//! register to an array of lanes gives lane 0 first. The hardware operations
//! on registers are not part of this crate.

pub mod sse;
pub mod sse2;

pub use sse::{m128, ExceptionMask};
pub use sse2::{m128d, m128i};
