//! A verified CHIP-8 virtual machine core.
//!
//! The machine state, the ROM loader, the instruction decoder, the
//! executor and the disassembler are verified; the windowing shell that
//! paints the framebuffer and maps the keyboard lives outside the
//! library and drives it through the public functions here.

pub mod arith;
pub mod decode;
pub mod disasm;
pub mod draw;
pub mod driver;
pub mod exec;
pub mod laws;
pub mod state;

pub use state::Chip8;
