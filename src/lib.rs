//! A Chip-8 interpreter and frame driver.
//!
//! The machine state (memory, registers, call stack, timers and display) is an explicit value
//! owned by the caller. Each instruction is decoded into an [`instruction::Instruction`] before
//! it is executed, and every step of execution is specified against a mathematical model of the
//! machine.

pub mod audio;
pub mod constants;
pub mod frame;
pub mod instruction;
pub mod screen;
pub mod stack;
pub mod state;
