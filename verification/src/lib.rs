//! A verified CHIP-8 execution engine: a fetch-decode-execute core over a
//! 4096-byte memory, sixteen 8-bit registers, a call stack and a 64 by 32
//! monochrome display, with XOR sprite compositing and collision detection.

pub mod model;
pub mod sprite;
pub mod vm;
pub mod exec;
pub mod laws;
