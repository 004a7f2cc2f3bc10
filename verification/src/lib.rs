//! A CHIP-8-class virtual machine core: an addressable byte memory with a
//! built-in font table, a total instruction decoder, and an interpreter that
//! owns the registers, call stack, timers and monochrome pixel buffer.
//!
//! Loading a ROM file, drawing the pixel buffer and polling a keyboard are
//! external collaborators: the core works on plain byte sequences, exposes the
//! pixel grid, and takes the currently pressed key as a value.
use vstd::prelude::*;

pub mod emulator;
pub mod frame_buffer;
pub mod memory;
pub mod op_code;

verus! {

/// Size of the address space in bytes: addresses run from 0x000 to 0xFFF.
pub const MEM_SIZE: usize = 4096;

/// Base address of the program region; loaded ROM bytes are placed here and
/// the program counter starts here.
pub const ROM_START: u16 = 0x200;

/// Number of ROM bytes the program region can hold (0x1000 - 0x200).
pub const ROM_CAPACITY: usize = 3584;

/// Base address of the built-in font table: 16 glyphs of 5 bytes each.
pub const FONT_BASE: u16 = 0x50;

/// Width of the pixel buffer in pixels.
pub const FB_WIDTH: usize = 64;

/// Height of the pixel buffer in pixels.
pub const FB_HEIGHT: usize = 32;

/// Maximum number of return addresses the call stack can hold.
pub const STACK_DEPTH: usize = 16;

/// A fatal machine condition. None of these is recoverable: the caller is
/// expected to stop the run loop and report the carried context.
#[derive(Clone, Copy, Debug, PartialEq, Eq, Structural)]
pub enum Fault {
    /// The fetched word matches no defined instruction.
    DecodeUnrecognized(u16),
    /// A read or write would touch the given address, which lies outside the
    /// address space.
    MemoryOutOfBounds(u16),
    /// A call would exceed the declared stack depth.
    StackOverflow,
    /// A return was executed with an empty call stack.
    StackUnderflow,
    /// A ROM does not fit into the program region.
    RomTooLarge,
}

/// What executing one instruction reports when no fault occurred.
#[derive(Clone, Copy, Debug, PartialEq, Eq, Structural)]
pub enum Progress {
    /// The instruction took full effect.
    Complete,
    /// A key-wait instruction found no key pressed: the machine is suspended
    /// and the same instruction must be executed again once a key is
    /// available. No state changed.
    AwaitingKey,
}

} // verus!
