//! System control registers. Page 231 of the data sheet.

use vstd::prelude::*;

verus! {

/// Where the system control registers start.
pub const BASE: u32 = 0x400F_E000;

/// The run-mode clock gating control register for the GPIO ports. Page 340
/// of the data sheet.
pub const RCGCGPIO: u32 = 0x400F_E608;

} // verus!
