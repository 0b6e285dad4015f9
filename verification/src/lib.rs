//! A CHIP-8 instruction codec and virtual machine core.
//!
//! The library decodes 16-bit CHIP-8 codewords into structured operations,
//! encodes operations back into codewords, and executes operations against a
//! machine state holding RAM, registers, timers, a call stack, a frame
//! buffer, a keyboard and a buzzer. It is a reusable core for assemblers,
//! disassemblers and emulators; it performs no I/O of its own.

pub mod codec;
pub mod config;
pub mod execute;
pub mod fonts;
pub mod implementations;
pub mod isa;
pub mod laws;
pub mod operands;
pub mod operations;
pub mod semantics;
pub mod set;
pub mod simulator;
pub mod state;
pub mod types;

pub use codec::{Coding, Definition, Pattern};
pub use config::Config;
pub use execute::{Execute, MachineModel};
pub use operands::{Dest, DestKind, Src, SrcKind};
pub use operations::{Operation, OperationKind};
pub use set::InstructionSet;
pub use simulator::{Simulate, Simulator};
pub use state::Chip8;
pub use types::{Chip8Error, Chip8Result};
