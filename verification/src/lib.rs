//! Verified core of an emulator for the R3 processor: ALU, memory bus with
//! memory-mapped terminal and keyboard, instruction execution and disassembly.
use vstd::prelude::*;

pub mod alu;
pub mod keyboard;
mod font;
pub mod terminal;
pub mod bus;
pub mod isa;
pub mod vm;
pub mod disassembler;
pub mod memview;

verus! {
} // verus!
