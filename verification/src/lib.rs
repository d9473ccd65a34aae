//! A CHIP-8 interpreter: a 4096-byte memory, sixteen 8-bit registers, a call
//! stack, two countdown timers, a 64x32 monochrome framebuffer and a 16-key
//! pad, driven by a fetch-decode-execute cycle over the classic instruction
//! set.
//!
//! See Cowgod's CHIP-8 technical reference for a description of the
//! architecture this interpreter follows.

use vstd::prelude::*;

pub mod decode;
pub mod error;
pub mod exec;
pub mod font;
pub mod laws;
pub mod rng;
pub mod state;
pub mod step;

pub use error::Error;
pub use state::ProcState;
pub use state::Processor;

verus! {

/// The width of a CHIP-8 display, in pixels.
pub const WIDTH: usize = 64;

/// The height of a CHIP-8 display, in pixels.
pub const HEIGHT: usize = 32;

} // verus!
