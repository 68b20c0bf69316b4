//! A CHIP-8 virtual machine: the display buffer that sprites are XOR-drawn
//! into, and the interpreter that fetches, decodes and executes instructions.

pub mod cpu;
pub mod display_buffer;
pub mod emulator;
pub mod keypad;
pub mod machine;
pub mod properties;
