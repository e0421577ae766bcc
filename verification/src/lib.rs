//! A verified CHIP-8 interpreter core.
//!
//! The machine is a fixed 4 KB byte-addressable memory, sixteen 8-bit
//! general registers, a 16-bit index register and program counter, a
//! growable call stack, a 64x32 monochrome framebuffer, two 8-bit
//! countdown timers and a 16-key keypad, driven by a fetch / decode /
//! execute cycle over two-byte instruction words.

pub mod cpu;
pub mod display;
pub mod font;
pub mod keyboard;
pub mod memory;
pub mod stack;
pub mod timer;

pub use cpu::{MachineState, Unimplemented, CHIP8};
pub use display::Display;
pub use keyboard::Keyboard;
pub use memory::Memory;
pub use timer::Timer;
