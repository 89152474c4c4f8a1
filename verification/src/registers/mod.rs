//! Addresses of registers that belong to no single peripheral.
//!
//! Data sheet: <https://www.ti.com/lit/ds/spms376e/spms376e.pdf>

pub mod system;
