//! Primitive widths and the error taxonomy shared by the whole machine.

use vstd::prelude::*;

verus! {

/// One byte in RAM.
pub type MemoryCell = u8;

/// An 8-bit general register.
pub type Register8 = u8;

/// A 16-bit register.
pub type Register16 = u16;

/// An 8-bit timer.
pub type Timer = u8;

/// An address pointing to a location in CHIP-8 memory.
pub type Address = u16;

/// A 16-bit CHIP-8 codeword.
pub type Codeword = u16;

/// A single pixel of the frame buffer.
pub type Pixel = u8;

/// The state of the sixteen-key keyboard.
pub type Keyboard = [bool; 16];

/// The state of the buzzer.
pub type Buzzer = bool;

/// The sixteen-byte audio pattern buffer used by XO-CHIP.
pub type Audio = [u8; 16];

/// A snapshot of the frame buffer, one cell per pixel.
pub type Vram = Vec<Pixel>;

/// Errors that the machine can report to its caller.
#[derive(Debug, Copy, Clone, PartialEq, Eq, Structural)]
pub enum Chip8Error {
    /// Attempt to access outside bounds, carrying the offending index.
    OutOfBoundsAt(usize),
    /// Attempt to access outside bounds at an unknown location.
    OutOfBounds,
    /// Attempt to pop an address from an empty stack.
    PopEmptyStack,
    /// Attempt to execute an operation with an operand kind it cannot consume.
    InvalidOperand,
    /// A failure occurred while trying to read from a channel.
    ChannelRxFailure,
    /// A failure occurred while trying to write to a channel.
    ChannelTxFailure,
    /// No definition in the enabled instruction set matches the codeword.
    InvalidInstruction(Codeword),
    /// A shared observable lock was poisoned.
    MutexError,
}

/// The result type used throughout the library.
pub type Chip8Result<T> = Result<T, Chip8Error>;

} // verus!
