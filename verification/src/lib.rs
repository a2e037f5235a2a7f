use vstd::prelude::*;

pub mod alu;
pub mod bootscript;
pub mod bus;
pub mod config;
pub mod cpu;
pub mod debug;
pub mod disasm;
pub mod io;
pub mod laws;
pub mod loader;
pub mod mmu;
pub mod sorted;
pub mod text;
pub mod timer;

verus! {

} // verus!
