//! An interpreter for the CHIP-8 instruction set.
//!
//! The crate owns the whole state of the virtual machine and exposes a
//! narrow interface to a front end: load a program, run one instruction,
//! advance the timers, set a key, read the framebuffer. Every executable
//! function is verified against a mathematical model of the machine.

pub mod alu;
pub mod emu;
pub mod error;
pub mod font;
pub mod instruction;
pub mod keypad;
pub mod laws;
pub mod model;
mod rng;

pub use alu::{alu, bcd, AluOp};
pub use emu::Emu;
pub use error::Chip8Error;
pub use font::{FONTSET, FONTSET_SIZE, GLYPH_HEIGHT};
pub use instruction::{decode, Instruction};
pub use keypad::key_to_btn;
pub use model::{
    cell_position, MAX_PROGRAM_SIZE, NUM_KEYS, NUM_REGS, RAM_SIZE, SCREEN_HEIGHT, SCREEN_SIZE,
    SCREEN_WIDTH, STACK_SIZE, START_ADDR,
};
