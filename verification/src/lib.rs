//! A CHIP-8 virtual machine.
//!
//! The machine's parts each live in a module of their own: [`memory`] with
//! the font table, [`registers`] with the lazily decaying timers, [`stack`],
//! [`program_counter`], and the monochrome XOR-compositing framebuffer in
//! [`draw`]. The [`emulator`] module fetches, decodes and executes opcodes
//! against them; the meaning of every opcode is the pure transition function
//! `emulator::step`, and `emulator::execute` is proved to perform exactly
//! that transition. Fatal machine conditions are the [`fault`] module's
//! concern, the built-in typeface the [`font`] module's, and [`utils`] holds
//! a test pattern for the presentation layer.

pub mod draw;
pub mod emulator;
pub mod fault;
pub mod font;
pub mod memory;
pub mod program_counter;
pub mod registers;
pub mod stack;
pub mod utils;
