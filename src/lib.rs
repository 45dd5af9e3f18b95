//! An interpreter core for the CHIP-8 virtual machine: memory, registers, a bounded
//! return stack, two countdown timers and a 64x32 monochrome display, driven one
//! instruction at a time by a host that supplies key state and timer ticks.

pub mod cpu;
pub mod display;
pub mod font;
pub mod lemmas;
mod random;
