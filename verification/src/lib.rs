//! An interpreter core for the CHIP-8 virtual machine.
//!
//! The crate holds the fetch-decode-execute engine: [`Emulator`] is the
//! machine, [`Emulator::step`] runs one instruction and
//! [`Emulator::run_burst`] a burst of them. What the engine needs from outside it gets from its
//! driver: the random byte comes in with each step, keys and timers are set
//! between steps, and a step that needs the display returns an [`Action`]
//! that says what to do. [`Display`] is a display that a driver can use.
//!
//! Every function states what it does over the mathematical model of the
//! machine in [`machine`], and the laws in [`laws`] are proved of that model.

pub mod action;
pub mod display;
pub mod emulator;
pub mod error;
pub mod instruction;
pub mod laws;
pub mod machine;
pub mod memory;

pub use action::Action;
pub use display::{Display, DISPLAY_HEIGHT, DISPLAY_PIXELS, DISPLAY_WIDTH};
pub use emulator::Emulator;
pub use error::Error;
pub use instruction::{decode, dispatch, Fields, Instruction};
pub use machine::{
    FLAG_REGISTER, KEY_COUNT, PROGRAM_START, REGISTER_COUNT, STACK_CAPACITY, STACK_TOP,
};
pub use memory::MEMORY_SIZE;
