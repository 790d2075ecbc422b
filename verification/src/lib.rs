//! A verified interpreter for a small fixed-instruction-set virtual machine:
//! a 4096-byte memory with a built-in hexadecimal glyph font, sixteen 8-bit
//! registers with a call stack, a 64x32 one-bit framebuffer drawn by an
//! XOR sprite blit with wraparound and collision detection, and a decoder
//! plus execution engine for the 35-opcode, 16-bit big-endian instruction set.

pub mod displays;
pub mod hexadecimal_sprites;
pub mod input_driver;
pub mod interpreters;
pub mod keypads;
pub mod memory;
pub mod timers;
