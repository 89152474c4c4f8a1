//! The GPIO ports and the addresses of their registers.
//!
//! Data sheet: <https://www.ti.com/lit/ds/spms376e/spms376e.pdf>, GPIO
//! register map.

use crate::gpio::pins::{
    configured, rejection, setup_readable_pins, setup_writable_pins, ConfigError, Pin, Pull,
    ReadablePinOptions, ReadablePins, WritablePinOptions, WritablePins,
};
use crate::memory;
use crate::memory::{bit_is_set, Bus};
use crate::registers;
use vstd::prelude::*;

verus! {

/// A GPIO port of the board.
#[derive(Clone, Copy, Debug, PartialEq, Eq, Structural)]
pub enum Port {
    A,
    B,
    C,
    D,
    E,
    F,
}

/// Options for setting up a GPIO port. There are none so far.
pub struct PortOptions;

/// Offset of the direction (DIR) register.
pub const DIRECTION: u32 = 0x400;

/// Offset of the alternate function select (AFSEL) register.
pub const ALTERNATE_FUNCTION_SELECT: u32 = 0x420;

/// Offset of the pull-up select (PUR) register.
pub const PULL_UP_SELECT: u32 = 0x510;

/// Offset of the pull-down select (PDR) register.
pub const PULL_DOWN_SELECT: u32 = 0x514;

/// Offset of the digital enable (DEN) register.
pub const DIGITAL_ENABLE: u32 = 0x51C;

/// Offset of the lock (LOCK) register.
pub const LOCK: u32 = 0x520;

/// Offset of the commit (CR) register.
pub const COMMIT: u32 = 0x524;

/// Offset of the analog mode select (AMSEL) register.
pub const ANALOG_MODE_SELECT: u32 = 0x528;

/// Offset of the port control (PCTL) register.
pub const PORT_CONTROL: u32 = 0x52C;

/// The offset of the alias of the data (DATA) register through which exactly
/// the given pins are visible: bit `pin + 2` of the offset is set for each of
/// them.
pub open spec fn data_offset(pins: Seq<Pin>) -> u32
    decreases pins.len(),
{
    if pins.len() == 0 {
        0
    } else {
        data_offset(pins.drop_last()) | (1u32 << ((pins.last().index() + 2) as u32))
    }
}

/// The data alias of any set of pins lies within the data register's 0x400
/// bytes, on a word boundary.
pub proof fn lemma_data_offset_bound(pins: Seq<Pin>)
    ensures
        data_offset(pins) <= 0x3FC,
        data_offset(pins) & 3 == 0,
    decreases pins.len(),
{
    if pins.len() > 0 {
        lemma_data_offset_bound(pins.drop_last());
        let rest = data_offset(pins.drop_last());
        let shift = (pins.last().index() + 2) as u32;
        assert(2 <= shift <= 9);
        assert((rest | (1u32 << shift)) <= 0x3FC && (rest | (1u32 << shift)) & 3 == 0)
            by (bit_vector)
            requires
                rest <= 0x3FC,
                rest & 3 == 0,
                2 <= shift <= 9,
        ;
    } else {
        assert(0u32 & 3 == 0) by (bit_vector);
    }
}

/// The data alias of a set of pins has bit `pin + 2` of its offset set for
/// exactly the pins of the set.
pub proof fn law_data_offset_selects_the_pins(pins: Seq<Pin>, pin: Pin)
    ensures
        bit_is_set(data_offset(pins), (pin.index() + 2) as u32) == pins.contains(pin),
    decreases pins.len(),
{
    let position = (pin.index() + 2) as u32;
    if pins.len() == 0 {
        assert(0u32 & (1u32 << position) == 0) by (bit_vector);
    } else {
        let rest = pins.drop_last();
        let last = pins.last();
        law_data_offset_selects_the_pins(rest, pin);
        let offset = data_offset(rest);
        let shift = (last.index() + 2) as u32;
        assert(pins[pins.len() - 1] == last);
        if rest.contains(pin) {
            let i = choose|i: int| 0 <= i < rest.len() && rest[i] == pin;
            assert(pins[i] == pin);
        }
        if pins.contains(pin) && last != pin {
            let i = choose|i: int| 0 <= i < pins.len() && pins[i] == pin;
            assert(rest[i] == pin);
        }
        assert(((offset | (1u32 << shift)) & (1u32 << position) != 0) == (shift == position || (
        offset & (1u32 << position) != 0))) by (bit_vector)
            requires
                shift < 32,
                position < 32,
        ;
    }
}

impl Port {
    /// Where this port's registers start.
    #[verifier::allow_in_spec]
    pub fn base(&self) -> u32
        returns
            match self {
                Port::A => 0x4000_4000u32,
                Port::B => 0x4000_5000u32,
                Port::C => 0x4000_6000u32,
                Port::D => 0x4000_7000u32,
                Port::E => 0x4002_4000u32,
                Port::F => 0x4002_5000u32,
            },
    {
        match self {
            Port::A => 0x4000_4000,
            Port::B => 0x4000_5000,
            Port::C => 0x4000_6000,
            Port::D => 0x4000_7000,
            Port::E => 0x4002_4000,
            Port::F => 0x4002_5000,
        }
    }

    /// The address of the alternate function select (AFSEL) register.
    #[verifier::allow_in_spec]
    pub fn alternate_function_select(&self) -> u32
        returns
            (self.base() + ALTERNATE_FUNCTION_SELECT) as u32,
    {
        self.base() + ALTERNATE_FUNCTION_SELECT
    }

    /// The address of the analog mode select (AMSEL) register.
    #[verifier::allow_in_spec]
    pub fn analog_mode_select(&self) -> u32
        returns
            (self.base() + ANALOG_MODE_SELECT) as u32,
    {
        self.base() + ANALOG_MODE_SELECT
    }

    /// The address of the commit (CR) register.
    #[verifier::allow_in_spec]
    pub fn commit(&self) -> u32
        returns
            (self.base() + COMMIT) as u32,
    {
        self.base() + COMMIT
    }

    /// The address of the alias of the data (DATA) register that shows
    /// exactly the given pins.
    pub fn data(&self, pins: &[Pin]) -> (address: u32)
        ensures
            address == self.base() + data_offset(pins@),
    {
        let mut offset: u32 = 0;
        let mut i: usize = 0;
        while i < pins.len()
            invariant
                i <= pins.len(),
                offset == data_offset(pins@.take(i as int)),
            decreases pins.len() - i,
        {
            assert(pins@.take(i + 1).drop_last() =~= pins@.take(i as int));
            let bit = pins[i].index() + 2;
            offset |= 1u32 << bit;
            i += 1;
        }
        proof {
            assert(pins@.take(pins.len() as int) =~= pins@);
            lemma_data_offset_bound(pins@);
        }
        self.base() + offset
    }

    /// The address of the digital enable (DEN) register.
    #[verifier::allow_in_spec]
    pub fn digital_enable(&self) -> u32
        returns
            (self.base() + DIGITAL_ENABLE) as u32,
    {
        self.base() + DIGITAL_ENABLE
    }

    /// The address of the direction (DIR) register.
    #[verifier::allow_in_spec]
    pub fn direction(&self) -> u32
        returns
            (self.base() + DIRECTION) as u32,
    {
        self.base() + DIRECTION
    }

    /// The address of the lock (LOCK) register.
    #[verifier::allow_in_spec]
    pub fn lock(&self) -> u32
        returns
            (self.base() + LOCK) as u32,
    {
        self.base() + LOCK
    }

    /// The address of the port control (PCTL) register.
    #[verifier::allow_in_spec]
    pub fn port_control(&self) -> u32
        returns
            (self.base() + PORT_CONTROL) as u32,
    {
        self.base() + PORT_CONTROL
    }

    /// The address of the pull-down select (PDR) register.
    #[verifier::allow_in_spec]
    pub fn pull_down_select(&self) -> u32
        returns
            (self.base() + PULL_DOWN_SELECT) as u32,
    {
        self.base() + PULL_DOWN_SELECT
    }

    /// The address of the pull-up select (PUR) register.
    #[verifier::allow_in_spec]
    pub fn pull_up_select(&self) -> u32
        returns
            (self.base() + PULL_UP_SELECT) as u32,
    {
        self.base() + PULL_UP_SELECT
    }

    /// This port's bit in the system's run-mode clock gating control register
    /// for GPIO.
    #[verifier::allow_in_spec]
    pub fn run_mode_clock_gate_control(&self) -> u32
        returns
            match self {
                Port::A => 0u32,
                Port::B => 1u32,
                Port::C => 2u32,
                Port::D => 3u32,
                Port::E => 4u32,
                Port::F => 5u32,
            },
    {
        match self {
            Port::A => 0,
            Port::B => 1,
            Port::C => 2,
            Port::D => 3,
            Port::E => 4,
            Port::F => 5,
        }
    }
}

/// A GPIO port whose clock is running, so that its pins can be configured.
pub struct UsablePort {
    port: Port,
}

impl UsablePort {
    /// Which port this is.
    pub closed spec fn port(&self) -> Port {
        self.port
    }

    /// Configures pins of this port as inputs; see
    /// [`setup_readable_pins`](crate::gpio::pins::setup_readable_pins).
    pub fn setup_readable_pins<B: Bus, const N: usize>(
        &self,
        bus: &mut B,
        pins: [Pin; N],
        options: ReadablePinOptions,
    ) -> (result: Result<ReadablePins<N>, ConfigError>)
        ensures
            match rejection(options.function, options.pull) {
                Some(error) => result == Err::<ReadablePins<N>, ConfigError>(error) && final(bus)@
                    == old(bus)@,
                None => {
                    &&& result is Ok
                    &&& result->Ok_0.data_address() == self.port().base() + data_offset(pins@)
                    &&& result->Ok_0.members() == pins@
                    &&& final(bus)@ == configured(
                        old(bus)@,
                        self.port(),
                        pins@,
                        false,
                        options.function,
                        options.pull,
                    )
                },
            },
    {
        setup_readable_pins(bus, self.port, pins, options)
    }

    /// Configures pins of this port as outputs; see
    /// [`setup_writable_pins`](crate::gpio::pins::setup_writable_pins).
    pub fn setup_writable_pins<B: Bus, const N: usize>(
        &self,
        bus: &mut B,
        pins: [Pin; N],
        options: WritablePinOptions,
    ) -> (result: Result<WritablePins<N>, ConfigError>)
        ensures
            match rejection(options.function, Pull::Neither) {
                Some(error) => result == Err::<WritablePins<N>, ConfigError>(error) && final(bus)@
                    == old(bus)@,
                None => {
                    &&& result is Ok
                    &&& result->Ok_0.data_address() == self.port().base() + data_offset(pins@)
                    &&& result->Ok_0.members() == pins@
                    &&& final(bus)@ == configured(
                        old(bus)@,
                        self.port(),
                        pins@,
                        true,
                        options.function,
                        Pull::Neither,
                    )
                },
            },
    {
        setup_writable_pins(bus, self.port, pins, options)
    }
}

/// Switches on the clock of a GPIO port, in one read-modify-write of the
/// system's clock gating register, and returns the port for its pins to be
/// configured.
pub fn setup_gpio_port<B: Bus>(bus: &mut B, port: Port, _options: PortOptions) -> (usable:
    UsablePort)
    ensures
        usable.port() == port,
        final(bus)@ == old(bus)@.set_bits(
            registers::system::RCGCGPIO,
            seq![port.run_mode_clock_gate_control()],
        ),
{
    let bits = [port.run_mode_clock_gate_control()];
    assert(bits@ =~= seq![port.run_mode_clock_gate_control()]);
    memory::set_bits(bus, registers::system::RCGCGPIO, &bits);
    UsablePort { port }
}

} // verus!
