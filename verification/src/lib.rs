//! A CHIP-8 virtual-machine interpreter.
//!
//! The machine state (memory, registers, program counter, call stack,
//! timers, framebuffer, key state) lives in [`emulator::Emulator`], which
//! advances one instruction at a time through
//! [`emulator::Emulator::execute_next_instruction`].  The mathematical
//! model of the machine and of every instruction is in [`model`]; the
//! general facts that hold of the interpreter are proved in [`laws`].

pub mod emulator;
pub mod laws;
pub mod model;
