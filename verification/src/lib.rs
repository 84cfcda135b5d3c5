//! An optimizing transform for a tiny four-register, integer-only
//! instruction set.
//!
//! The core is an abstract-interpretation pass that tracks, per register, a
//! compile-time approximation of its contents (an exact constant, the i-th
//! program input, or fully unknown) and removes instructions that provably
//! leave their destination register unchanged.

pub mod compiler;
pub mod parser;
pub mod program;
pub mod semantics;
pub mod types;
pub mod utils;
