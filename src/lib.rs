//! A CHIP-8 interpreter core: machine state, the fetch-decode-execute cycle and
//! exact opcode semantics, with every operation's effect stated over a
//! mathematical model of the machine.
use vstd::prelude::*;

pub mod exception;
pub mod font;
pub mod state;
pub mod rng;
pub mod chip;
pub mod laws;

pub use chip::Chip;
pub use exception::Exception;

verus! {

/// Programs are loaded at, and execution starts from, this address.
pub const ENTRY_ADDR: u16 = 512;

/// Width of the monochrome display, in pixels.
pub const DISP_WIDTH: usize = 64;

/// Height of the monochrome display, in pixels.
pub const DISP_HEIGHT: usize = 32;

/// Number of pixels of the framebuffer.
pub const FB_SIZE: usize = 2048;

/// Size of the addressable memory, in bytes.
pub const MEM_SIZE: usize = 4096;

/// Number of return-address slots of the call stack.
pub const STACK_SIZE: usize = 16;

/// Number of general-purpose 8-bit registers.
pub const REG_NUM: usize = 16;

/// Number of keys of the keypad.
pub const KEY_NUM: usize = 16;

/// Size of the built-in font table: 16 glyphs of 5 bytes each.
pub const FONT_SIZE: usize = 80;

} // verus!
