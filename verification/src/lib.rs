//! A virtual machine for an 8-bit instruction set built for simple
//! interactive games: a decoder, a 4 KiB address space, a register and
//! timer engine, a 64x32 monochrome pixel grid and a 16-key keypad.
//!
//! The machine is modelled as a mathematical value in [`machine`]; every
//! executable function carries a contract over that model, and the contract
//! is proved. [`laws`] holds what follows for every machine state.

pub mod bus;
pub mod cache;
pub mod cpu;
pub mod display;
pub mod fault;
pub mod host;
pub mod instruction;
pub mod keypad;
pub mod laws;
pub mod machine;

pub use bus::Bus;
pub use cache::Cache;
pub use cpu::CPU;
pub use display::Display;
pub use fault::Fault;
pub use instruction::Instruction;
pub use keypad::{Key, KeyEvent, Keypad};
