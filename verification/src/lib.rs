//! A CHIP-8 virtual machine: the fetch, decode and execute engine with its
//! registers, memory, call stack, timers and framebuffer.
//!
//! [`machine::Machine`] is the state of the machine as mathematics, with
//! what each instruction does to it. [`processor::Processor`] is the
//! machine that runs: each of its operations is proved to do to its view
//! what [`machine::Machine`] says. [`laws`] holds what follows for every
//! state. Window, keyboard, files and the clock are the host's: the machine
//! takes the pressed key and the program's bytes as values, and says after
//! each cycle what the host has to do.

pub mod font;
pub mod input;
pub mod instruction;
pub mod laws;
pub mod machine;
pub mod processor;
mod rng;
pub mod rom;

pub use instruction::{Fields, Opcode};
pub use machine::{Effect, Fault, Machine};
pub use processor::Processor;
pub use rom::{Rom, RomError};
