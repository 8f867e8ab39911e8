//! Boot-time decision engine for a microcontroller bootloader, with the
//! per-target configuration that feeds it.
use vstd::prelude::*;

pub mod bank;
pub mod boot;
pub mod engine;
pub mod error;
pub mod flash;
pub mod image;
pub mod port;
pub mod update;

verus! {

} // verus!
