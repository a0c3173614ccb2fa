//! An emulator for the Hack computer: an assembler and disassembler for Hack assembly,
//! a model of the CPU that runs the machine code one instruction at a time, and the
//! key-driven state of a debugger built on them.

pub mod app;
pub mod assembler;
pub mod bits;
pub mod computer;
pub mod isa;
pub mod text;
