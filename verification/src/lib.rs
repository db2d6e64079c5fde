//! A CHIP-8 interpreter core: memory, registers, timers, the screen buffer,
//! the keypad, and the instruction set, each instruction with its contract.

pub mod display;
pub mod font;
pub mod keypad;
pub mod laws;
pub mod cycle_laws;
pub mod machine;
pub mod memory;
pub mod opcode;
pub mod ops;
pub mod sprite;
mod random;
