//! Verified core of a small kernel's input path and image-transfer protocol:
//! the interrupt descriptor table, the controller offsets, the scancode
//! queue and key decoder, and the incremental VIMG packet decoder.

pub mod proto;
pub mod terminal_proto;
pub mod keyboard;
pub mod idt;
pub mod interrupts;
pub mod colors;
pub mod branding;
pub mod vesperfetch;
