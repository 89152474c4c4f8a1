//! General-purpose I/O: the ports' register addresses and the configuration
//! and use of their pins.

pub mod laws;
pub mod pins;
pub mod ports;
