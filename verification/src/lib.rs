//! A CHIP-8 interpreter core: memory, call stack, registers, timers, a
//! monochrome 64x32 display and the fetch-decode-execute step, each with a
//! machine-checked contract.
//!
//! The driver owns the clocks: it calls [`Chip8::cycle`] at the instruction
//! rate it has chosen and [`Chip8::tick_timers`] sixty times a second, hands
//! in the keys with [`Chip8::set_pressed_keys`] and reads the picture with
//! [`Chip8::get_display`].

pub mod error;
pub mod frontend;
pub mod instruction;
pub mod machine;
pub mod memory;
pub mod screen;
pub mod stack;
pub mod state;

pub use error::Chip8Error;
pub use instruction::{decode, Instruction};
pub use machine::Chip8;
pub use memory::Memory;
pub use screen::{Screen, SCREEN_HEIGHT, SCREEN_WIDTH};
pub use stack::Stack;
pub use state::NUM_KEYS;
