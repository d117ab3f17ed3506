//! A CHIP-8 virtual machine: instruction decoder, execution engine and
//! monochrome framebuffer, with every operation specified over a
//! mathematical model of the machine and proved against it.

pub mod chip8;
pub mod error;
pub mod instruction;
pub mod laws;
pub mod machine;
pub mod screen;

pub use chip8::Chip8;
pub use error::Chip8Error;
pub use instruction::{Instruction, Opcodes};
pub use screen::Screen;
