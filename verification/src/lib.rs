//! A bottom-up digital-logic simulator.
//!
//! Starting from a single two-input boolean primitive, the crate builds
//! level-sensitive latches, edge-triggered flip-flops, a ripple counter,
//! a ripple-carry adder, multiplexer trees, an 8-bit barrel shifter, and a
//! fixed-width signal bus with integer conversions, together with a small
//! instruction-format classification scaffold. Every operation carries a
//! contract that pins down its behaviour, verified with Verus.

pub mod bus;
pub mod counter;
pub mod decode;
pub mod flipflop;
pub mod gate;
pub mod latch;
pub mod logic;
pub mod math;
pub mod mux;
pub mod shift;
