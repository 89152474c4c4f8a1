//! The TM4C123GXL board.
//!
//! Data sheet: <https://www.ti.com/lit/ds/spms376e/spms376e.pdf>

use crate::gpio::ports::{
    setup_gpio_port, Port as GPIOPort, PortOptions as GPIOPortOptions,
    UsablePort as UsableGPIOPort,
};
use crate::memory::Bus;
use crate::registers;
use crate::uart::{
    brought_up, refusal, setup_port as setup_uart_port, Port as UARTPort,
    PortOptions as UARTPortOptions, SetupError, UsablePort as UsableUARTPort,
};
use vstd::prelude::*;

verus! {

/// The board, as the home of the system control registers.
#[derive(Clone, Copy)]
pub struct Board;

impl Board {
    /// Where the system control registers start. Page 231 of the data sheet.
    #[verifier::allow_in_spec]
    pub fn base(&self) -> u32
        returns
            0x400F_E000u32,
    {
        0x400F_E000
    }

    /// The address of the run-mode clock gating control register for the
    /// GPIO ports (RCGCGPIO). Page 340 of the data sheet.
    #[verifier::allow_in_spec]
    pub fn gpio_run_mode_clock_gating_control(&self) -> u32
        returns
            registers::system::RCGCGPIO,
    {
        self.base() + 0x608
    }

    /// The address of the run-mode clock gating control register 1 (RCGC1),
    /// which holds the clock gates of the first three UART ports.
    #[verifier::allow_in_spec]
    pub fn run_mode_clock_gating_control_1(&self) -> u32
        returns
            0x400F_E104u32,
    {
        self.base() + 0x104
    }
}

/// The board once it is set up, on which GPIO and UART ports can be set up
/// in turn.
pub struct UsableBoard {
    board: Board,
}

impl UsableBoard {
    /// Lets one cycle pass.
    pub fn no_op<B: Bus>(&self, bus: &mut B)
        ensures
            final(bus)@ == old(bus)@.no_op(),
    {
        bus.no_op();
    }

    /// Lets `n` cycles pass.
    pub fn no_ops<B: Bus>(&self, bus: &mut B, n: u32)
        ensures
            final(bus)@ == old(bus)@.no_ops(n as nat),
    {
        let mut i: u32 = 0;
        while i < n
            invariant
                i <= n,
                bus@ == old(bus)@.no_ops(i as nat),
            decreases n - i,
        {
            self.no_op(bus);
            i += 1;
        }
    }

    /// Switches on the clock of a GPIO port; see
    /// [`setup_gpio_port`](crate::gpio::ports::setup_gpio_port).
    pub fn setup_gpio_port<B: Bus>(&mut self, bus: &mut B, port: GPIOPort) -> (usable:
        UsableGPIOPort)
        ensures
            usable.port() == port,
            final(bus)@ == old(bus)@.set_bits(
                registers::system::RCGCGPIO,
                seq![port.run_mode_clock_gate_control()],
            ),
    {
        setup_gpio_port(bus, port, GPIOPortOptions)
    }

    /// Brings up a UART port; see [`setup_port`](crate::uart::setup_port).
    pub fn setup_uart_port<B: Bus>(
        &mut self,
        bus: &mut B,
        port: UARTPort,
        options: UARTPortOptions,
    ) -> (result: Result<UsableUARTPort, SetupError>)
        ensures
            match refusal(port, options) {
                Some(error) => result == Err::<UsableUARTPort, SetupError>(error) && final(bus)@
                    == old(bus)@,
                None => {
                    &&& result is Ok
                    &&& result->Ok_0.port() == port
                    &&& final(bus)@ == brought_up(old(bus)@, port, options)
                },
            },
    {
        setup_uart_port(bus, self.board, port, options)
    }
}

/// Starts using the board.
pub fn setup_board() -> UsableBoard {
    UsableBoard { board: Board }
}

} // verus!
