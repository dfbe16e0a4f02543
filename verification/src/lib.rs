//! An interpreter for the CHIP-8 virtual machine.
//!
//! The machine has sixteen 8-bit registers, 4 KiB of memory, a bounded call
//! stack, two countdown timers and a 64x32 monochrome display. A host loads a
//! program image, feeds key state and elapsed time, and advances the machine
//! one instruction per call. Every transition is specified over a
//! mathematical model of the machine (`model::State`) and proved against it.

pub mod chip8;
pub mod display;
pub mod error;
pub mod instruction;
pub mod model;
pub mod theorems;
pub mod timer;
