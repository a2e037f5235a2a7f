//! What holds of the library across its operations. The laws about the CPU
//! speak of programs in a flat [`crate::bus::Memory`].

use vstd::prelude::*;

pub mod addressing;
pub mod arith;
pub mod board;
pub mod boot;
pub mod bytes;
pub mod conditions;
pub mod debugger;
pub mod devices;
pub mod disk;
pub mod dumps;
pub mod flow;
pub mod image;
pub mod listing;
pub mod memory;
pub mod mmu;
pub mod numbers;
pub mod program;
pub mod scripts;
pub mod single;
pub mod stack;
pub mod step;
pub mod texts;
pub mod tracing;
pub mod words;

verus! {

} // verus!
