//! A CHIP-8 virtual machine.
//!
//! `machine` states what the machine is and does, as transition functions
//! on a mathematical value; `chip8` is the interpreter, proved to follow
//! them; `laws` proves what holds of every program. The host drives the
//! interpreter by calling `Chip8::tick` sixty times a second, with the state
//! of the sixteen keys and a function that yields random bytes, and paints
//! what `Chip8::pixels` shows.

pub mod arith;
pub mod chip8;
pub mod display;
pub mod font;
pub mod graphics;
pub mod laws;
pub mod machine;
pub mod memory;
pub mod opcode;
mod random;
