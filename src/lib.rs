//! An interpreter for the CHIP-8 virtual machine: machine state, instruction
//! decoding and execution, and the fixed-rate timer model.

pub mod display;
pub mod error;
pub mod font;
pub mod instruction;
pub mod keypad;
pub mod laws;
pub mod machine;
mod random;
pub mod timing;
pub mod stack;

use vstd::prelude::*;

verus! {

/// Width of the display in pixels.
pub const DISPLAY_WIDTH: usize = 64;

/// Height of the display in pixels.
pub const DISPLAY_HEIGHT: usize = 32;

/// Number of pixels on the display.
pub const DISPLAY_SIZE: usize = 2048;

/// Number of return addresses the call stack holds.
pub const STACK_CAPACITY: usize = 64;

/// Number of addressable bytes of memory.
pub const MEMORY_SIZE: usize = 4096;

} // verus!
