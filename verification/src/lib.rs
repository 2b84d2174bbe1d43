//! An interpreter for the CHIP-8 virtual machine, with every instruction's
//! effect stated over a mathematical model of the machine and proved.

pub mod alu;
pub mod display;
pub mod error;
pub mod host;
pub mod instruction;
pub mod laws;
pub mod machine;
pub mod model;

pub use display::{DISPLAY_HEIGHT, DISPLAY_SIZE, DISPLAY_WIDTH};
pub use error::Chip8Error;
pub use instruction::Instruction;
pub use machine::{Chip8, TIMER_PERIOD_NANOS};
pub use model::{State, FONT, MAX_PROGRAM_SIZE, MEMORY_SIZE, PROGRAM_START};
