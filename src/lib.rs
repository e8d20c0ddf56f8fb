//! Fixed-point audio synthesis core: band-limited oscillators, the block
//! exchange between a hardware transfer and a per-frame generator loop, and
//! the debounced-switch and indicator state machines of the control path.
//!
//! Samples are Q15 fixed point: `SAMPLE_ONE` stands for full scale (1.0).
//! Phase is a 32-bit accumulator held in a `u64`: `PHASE_CYCLE` stands for one
//! whole cycle (2π). Frequencies are given in millihertz and sample rates in
//! hertz.
use vstd::prelude::*;

pub mod indicator;
pub mod oscillators;
pub mod pipeline;
pub mod switch;
pub mod traits;

verus! {

/// Full-scale sample value (1.0 in Q15).
pub const SAMPLE_ONE: i32 = 32768;

/// One whole oscillator cycle (2π) in phase units.
pub const PHASE_CYCLE: u64 = 4294967296;

/// Half a cycle (π) in phase units.
pub const HALF_CYCLE: u64 = 2147483648;

} // verus!
