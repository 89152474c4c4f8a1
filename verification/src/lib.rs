//! Drivers for the general-purpose I/O pins and the serial ports of the
//! TM4C123GXL board, written against a register bus that can be the real
//! memory-mapped hardware or a simulated register file.

use vstd::prelude::*;

pub mod bit_laws;
pub mod board;
pub mod gpio;
pub mod memory;
pub mod registers;
pub mod simulation;
pub mod uart;
pub mod utils;

pub use board::{setup_board, Board, UsableBoard};
pub use gpio::pins::{
    ConfigError, Function, Pin, Pull, ReadablePin, ReadablePinOptions, ReadablePins, WritablePin,
    WritablePinOptions, WritablePins,
};
pub use gpio::ports::{Port as GPIOPort, PortOptions as GPIOPortOptions};
pub use memory::{Access, Bus, BusState};
pub use simulation::RegisterFile;
pub use uart::{
    Attempt, LineStep, Port as UARTPort, PortOptions as UARTPortOptions, SetupError, WordLength,
};

verus! {

/// The high level of a pin.
pub const H: bool = true;

/// The low level of a pin.
pub const L: bool = false;

} // verus!
