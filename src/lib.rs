//! A CHIP-8 virtual machine: instruction decoding, the fetch and execute cycle,
//! sprite drawing with collision detection, and the two countdown timers.

pub mod cpu;
pub mod framebuffer;
pub mod laws;
pub mod opcode;
pub mod semantics;
