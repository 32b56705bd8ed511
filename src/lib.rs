//! A CHIP-8 interpreter core: memory, display, instruction decoder and
//! execution engine, each stated over a mathematical model and verified.

pub mod cpu;
pub mod opcodes;
pub mod ram;
pub mod screen;

pub use cpu::{Chip8, Fault};
pub use opcodes::OpCode;
pub use ram::EmulatedRam;
pub use screen::EmulatedScreen;
