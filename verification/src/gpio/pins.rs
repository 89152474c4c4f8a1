//! The pins of a GPIO port: how they are configured, and the handles through
//! which configured pins are read and driven.

use crate::gpio::ports::{data_offset, Port};
use crate::memory;
use crate::memory::{bit_is_set, bits_in_word, bits_read, Bus, BusState};
use crate::utils::{pin_bits, pins_to_bits};
use vstd::prelude::*;

verus! {

/// One of the eight pins of a port.
#[derive(Clone, Copy, Debug, PartialEq, Eq, Structural)]
pub enum Pin {
    Zero,
    One,
    Two,
    Three,
    Four,
    Five,
    Six,
    Seven,
}

impl Pin {
    /// The pin's number, which is also its bit in each of the port's
    /// registers.
    #[verifier::allow_in_spec]
    pub fn index(self) -> u32
        returns
            match self {
                Pin::Zero => 0u32,
                Pin::One => 1u32,
                Pin::Two => 2u32,
                Pin::Three => 3u32,
                Pin::Four => 4u32,
                Pin::Five => 5u32,
                Pin::Six => 6u32,
                Pin::Seven => 7u32,
            },
    {
        match self {
            Pin::Zero => 0,
            Pin::One => 1,
            Pin::Two => 2,
            Pin::Three => 3,
            Pin::Four => 4,
            Pin::Five => 5,
            Pin::Six => 6,
            Pin::Seven => 7,
        }
    }
}

/// What a pin is used for.
#[derive(Clone, Copy, Debug, PartialEq, Eq, Structural)]
pub enum Function {
    Analog,
    Digital,
    CAN,
    I2C,
    PWM,
    UART,
}

/// The resistor that holds an undriven input at a level.
#[derive(Clone, Copy, Debug, PartialEq, Eq, Structural)]
pub enum Pull {
    Down,
    Up,
    Neither,
}

/// Why a configuration was refused. Nothing is written to any register when
/// one is.
#[derive(Clone, Copy, Debug, PartialEq, Eq, Structural)]
pub enum ConfigError {
    /// The function has no digital-enable setting defined for it.
    UnsupportedFunction,
    /// An analog pin was asked to have a pull resistor.
    PullOnAnalog,
}

/// How readable pins are to be set up.
pub struct ReadablePinOptions {
    pub function: Function,
    pub pull: Pull,
}

/// How writable pins are to be set up.
pub struct WritablePinOptions {
    pub function: Function,
}

/// The key that opens a port's commit register for writing. Page 684 of the
/// data sheet.
pub const UNLOCK: u32 = 0x4C4F434B;

impl Function {
    /// Whether the pin is handed to a peripheral rather than used as plain
    /// analog or digital I/O.
    #[verifier::allow_in_spec]
    pub fn is_alternate(self) -> bool
        returns
            !(self is Analog || self is Digital),
    {
        match self {
            Function::Analog | Function::Digital => false,
            _ => true,
        }
    }

    /// The code that selects this function in a pin's four bits of the port
    /// control register; an analog pin has none. Table 10-2 of the data
    /// sheet.
    #[verifier::allow_in_spec]
    pub fn mux_code(self) -> Option<u32>
        returns
            match self {
                Function::Analog => None::<u32>,
                Function::Digital => Some(0u32),
                Function::CAN => Some(8u32),
                Function::I2C => Some(3u32),
                Function::PWM => Some(5u32),
                Function::UART => Some(1u32),
            },
    {
        match self {
            Function::Analog => None,
            Function::Digital => Some(0),
            Function::CAN => Some(8),
            Function::I2C => Some(3),
            Function::PWM => Some(5),
            Function::UART => Some(1),
        }
    }

    /// Whether the pin's digital buffer is enabled for this function, where
    /// that is defined.
    #[verifier::allow_in_spec]
    pub fn digital_enable(self) -> Option<bool>
        returns
            match self {
                Function::Digital | Function::UART => Some(true),
                Function::Analog => Some(false),
                _ => None::<bool>,
            },
    {
        match self {
            Function::Digital | Function::UART => Some(true),
            Function::Analog => Some(false),
            _ => None,
        }
    }
}

/// Why the combination of `function` and `pull` cannot be configured, if it
/// cannot.
#[verifier::allow_in_spec]
pub fn rejection(function: Function, pull: Pull) -> Option<ConfigError>
    returns
        if function.digital_enable() is None {
            Some(ConfigError::UnsupportedFunction)
        } else if function is Analog && !(pull is Neither) {
            Some(ConfigError::PullOnAnalog)
        } else {
            None::<ConfigError>
        },
{
    if function.digital_enable().is_none() {
        Some(ConfigError::UnsupportedFunction)
    } else if matches!(function, Function::Analog) && !matches!(pull, Pull::Neither) {
        Some(ConfigError::PullOnAnalog)
    } else {
        None
    }
}

/// The four bits of the port control register that belong to `pin`, lowest
/// first.
pub open spec fn nibble_bits(pin: Pin) -> Seq<u32> {
    seq![
        (4 * pin.index()) as u32,
        (4 * pin.index() + 1) as u32,
        (4 * pin.index() + 2) as u32,
        (4 * pin.index() + 3) as u32,
    ]
}

/// The four bits of a mux code, lowest first.
pub open spec fn code_bits(code: u32) -> Seq<bool> {
    seq![code & 1 != 0, code & 2 != 0, code & 4 != 0, code & 8 != 0]
}

/// The state after `code` was written into the four port control bits of
/// each pin in turn, one read-modify-write per pin.
pub open spec fn mux_selected(state: BusState, address: u32, pins: Seq<Pin>, code: u32) -> BusState
    decreases pins.len(),
{
    if pins.len() == 0 {
        state
    } else {
        mux_selected(state, address, pins.drop_last(), code).write_bits(
            address,
            nibble_bits(pins.last()),
            code_bits(code),
        )
    }
}

/// The state after the direction bits of the pins were set for outputs or
/// cleared for inputs.
pub open spec fn direction_selected(
    state: BusState,
    port: Port,
    bits: Seq<u32>,
    writable: bool,
) -> BusState {
    if writable {
        state.set_bits(port.direction(), bits)
    } else {
        state.clear_bits(port.direction(), bits)
    }
}

/// The state after the pins were handed to their peripheral, or taken back
/// from it.
pub open spec fn alternate_selected(
    state: BusState,
    port: Port,
    bits: Seq<u32>,
    function: Function,
) -> BusState {
    if function.is_alternate() {
        state.set_bits(port.alternate_function_select(), bits)
    } else {
        state.clear_bits(port.alternate_function_select(), bits)
    }
}

/// The state after the pull resistors of the pins were selected. The
/// resistor that is not wanted is switched off before the wanted one is
/// switched on.
pub open spec fn pull_selected(
    state: BusState,
    port: Port,
    bits: Seq<u32>,
    pull: Pull,
) -> BusState {
    match pull {
        Pull::Down => state.clear_bits(port.pull_up_select(), bits).set_bits(
            port.pull_down_select(),
            bits,
        ),
        Pull::Up => state.clear_bits(port.pull_down_select(), bits).set_bits(
            port.pull_up_select(),
            bits,
        ),
        Pull::Neither => state.clear_bits(port.pull_up_select(), bits).clear_bits(
            port.pull_down_select(),
            bits,
        ),
    }
}

/// The state after the analog mode of the pins was switched on or off.
pub open spec fn analog_selected(
    state: BusState,
    port: Port,
    bits: Seq<u32>,
    function: Function,
) -> BusState {
    if function is Analog {
        state.set_bits(port.analog_mode_select(), bits)
    } else {
        state.clear_bits(port.analog_mode_select(), bits)
    }
}

/// The state after the digital buffers of the pins were switched on or off.
pub open spec fn digital_selected(
    state: BusState,
    port: Port,
    bits: Seq<u32>,
    function: Function,
) -> BusState {
    if function.digital_enable() == Some(true) {
        state.set_bits(port.digital_enable(), bits)
    } else {
        state.clear_bits(port.digital_enable(), bits)
    }
}

/// The state in which the configuration sequence leaves the bus. In order:
/// the port is unlocked and the pins' commit bits are set; direction;
/// alternate function select; pull resistors; analog mode; the mux code of
/// each pin, unless the function is analog; digital enable; and the port is
/// locked again.
pub open spec fn configured(
    before: BusState,
    port: Port,
    pins: Seq<Pin>,
    writable: bool,
    function: Function,
    pull: Pull,
) -> BusState {
    let bits = pin_bits(pins);
    let unlocked = before.write(port.lock(), UNLOCK).set_bits(port.commit(), bits);
    let directed = direction_selected(unlocked, port, bits, writable);
    let routed = alternate_selected(directed, port, bits, function);
    let pulled = pull_selected(routed, port, bits, pull);
    let moded = analog_selected(pulled, port, bits, function);
    let muxed = match function.mux_code() {
        Some(code) => mux_selected(moded, port.port_control(), pins, code),
        None => moded,
    };
    let enabled = digital_selected(muxed, port, bits, function);
    enabled.write(port.lock(), 0)
}

/// The bit numbers of pins all lie within a word.
pub proof fn lemma_pin_bits_in_word(pins: Seq<Pin>)
    ensures
        bits_in_word(pin_bits(pins)),
{
}

/// Brings the pins of a port into the requested function, in the order that
/// `configured` lays down, or refuses the request before anything is
/// written.
fn setup_pins<B: Bus, const N: usize>(
    bus: &mut B,
    port: Port,
    pins: [Pin; N],
    writable: bool,
    function: Function,
    pull: Pull,
) -> (result: Result<(), ConfigError>)
    ensures
        match rejection(function, pull) {
            Some(error) => result == Err::<(), ConfigError>(error) && final(bus)@ == old(bus)@,
            None => result is Ok && final(bus)@ == configured(
                old(bus)@,
                port,
                pins@,
                writable,
                function,
                pull,
            ),
        },
{
    if let Some(error) = rejection(function, pull) {
        return Err(error);
    }
    let bits = pins_to_bits(&pins);
    proof {
        lemma_pin_bits_in_word(pins@);
    }

    // Unlock the pins
    memory::write(bus, port.lock(), UNLOCK);
    memory::set_bits(bus, port.commit(), &bits);

    // Set to output pins if output (otherwise set to input)
    if writable {
        memory::set_bits(bus, port.direction(), &bits);
    } else {
        memory::clear_bits(bus, port.direction(), &bits);
    }

    // Disable alternate function when it's not used (and enable it when it is)
    if function.is_alternate() {
        memory::set_bits(bus, port.alternate_function_select(), &bits);
    } else {
        memory::clear_bits(bus, port.alternate_function_select(), &bits);
    }

    // Configure pull-up and pull-down resistors
    match pull {
        Pull::Down => {
            memory::clear_bits(bus, port.pull_up_select(), &bits);
            memory::set_bits(bus, port.pull_down_select(), &bits);
        },
        Pull::Up => {
            memory::clear_bits(bus, port.pull_down_select(), &bits);
            memory::set_bits(bus, port.pull_up_select(), &bits);
        },
        Pull::Neither => {
            memory::clear_bits(bus, port.pull_up_select(), &bits);
            memory::clear_bits(bus, port.pull_down_select(), &bits);
        },
    }

    // Enable analog when it's needed (and disable it when it's not)
    if matches!(function, Function::Analog) {
        memory::set_bits(bus, port.analog_mode_select(), &bits);
    } else {
        memory::clear_bits(bus, port.analog_mode_select(), &bits);
    }

    // Select the function in each pin's bits of the port control register
    if let Some(code) = function.mux_code() {
        let port_control_values = [code & 1 != 0, code & 2 != 0, code & 4 != 0, code & 8 != 0];
        assert(port_control_values@ =~= code_bits(code));
        let ghost moded = bus@;
        let mut i: usize = 0;
        while i < N
            invariant
                i <= N,
                port_control_values@ == code_bits(code),
                bus@ == mux_selected(moded, port.port_control(), pins@.take(i as int), code),
            decreases N - i,
        {
            assert(pins@.take(i + 1).drop_last() =~= pins@.take(i as int));
            let min = pins[i].index() * 4;
            let memory_bits = [min, min + 1, min + 2, min + 3];
            assert(memory_bits@ =~= nibble_bits(pins[i as int]));
            memory::write_bits(bus, port.port_control(), &memory_bits, port_control_values);
            i += 1;
        }
        assert(pins@.take(N as int) =~= pins@);
    }

    // Enable digital function when it's needed (and disable it when it's not)
    match function.digital_enable() {
        Some(true) => {
            memory::set_bits(bus, port.digital_enable(), &bits);
        },
        _ => {
            memory::clear_bits(bus, port.digital_enable(), &bits);
        },
    }

    // Lock the port again
    memory::write(bus, port.lock(), 0);
    Ok(())
}

/// One configured input pin. It can only be read.
#[derive(Clone, Copy)]
pub struct ReadablePin {
    data_address: u32,
    pin: Pin,
}

impl ReadablePin {
    /// The address of the data register alias that the pin is read through.
    pub closed spec fn data_address(&self) -> u32 {
        self.data_address
    }

    /// Which pin of its port this is.
    pub closed spec fn pin(&self) -> Pin {
        self.pin
    }

    /// Reads the pin's level.
    pub fn read<B: Bus>(&self, bus: &mut B) -> (level: bool)
        ensures
            level == bit_is_set(old(bus)@.words[self.data_address()], self.pin().index()),
            final(bus)@ == old(bus)@.read(self.data_address()),
    {
        let current = memory::read(bus, self.data_address);
        current & (1u32 << self.pin.index()) != 0
    }
}

/// A group of configured input pins of one port, in the order in which they
/// were named at configuration.
pub struct ReadablePins<const N: usize> {
    data_address: u32,
    pins: [Pin; N],
}

impl<const N: usize> ReadablePins<N> {
    /// The address of the data register alias that shows exactly these pins.
    pub closed spec fn data_address(&self) -> u32 {
        self.data_address
    }

    /// The pins of the group, in order.
    pub closed spec fn members(&self) -> Seq<Pin> {
        self.pins@
    }

    /// A handle for each pin of the group, in order. Each reads through the
    /// group's data address.
    pub fn pins(&self) -> (handles: [ReadablePin; N])
        ensures
            forall|i: int|
                0 <= i < N ==> (#[trigger] handles[i]).data_address() == self.data_address()
                    && handles[i].pin() == self.members()[i],
    {
        let mut handles = [ReadablePin { data_address: self.data_address, pin: Pin::Zero };N];
        let mut i: usize = 0;
        while i < N
            invariant
                i <= N,
                forall|k: int|
                    0 <= k < i ==> (#[trigger] handles[k]).data_address == self.data_address
                        && handles[k].pin == self.pins[k],
            decreases N - i,
        {
            handles[i] = ReadablePin { data_address: self.data_address, pin: self.pins[i] };
            i += 1;
        }
        handles
    }

    /// Reads the levels of all pins of the group at once, in order.
    pub fn read_all<B: Bus>(&self, bus: &mut B) -> (levels: [bool; N])
        ensures
            levels@ == bits_read(old(bus)@.words[self.data_address()], pin_bits(self.members())),
            final(bus)@ == old(bus)@.read(self.data_address()),
    {
        let bits = pins_to_bits(&self.pins);
        proof {
            lemma_pin_bits_in_word(self.pins@);
        }
        memory::read_bits(bus, self.data_address, &bits)
    }
}

/// One configured output pin. It can be read and driven.
#[derive(Clone, Copy)]
pub struct WritablePin {
    data_address: u32,
    pin: Pin,
}

impl WritablePin {
    /// The address of the data register alias that the pin is driven
    /// through.
    pub closed spec fn data_address(&self) -> u32 {
        self.data_address
    }

    /// Which pin of its port this is.
    pub closed spec fn pin(&self) -> Pin {
        self.pin
    }

    /// Reads the pin's level.
    pub fn read<B: Bus>(&self, bus: &mut B) -> (level: bool)
        ensures
            level == bit_is_set(old(bus)@.words[self.data_address()], self.pin().index()),
            final(bus)@ == old(bus)@.read(self.data_address()),
    {
        let current = memory::read(bus, self.data_address);
        current & (1u32 << self.pin.index()) != 0
    }

    /// Drives the pin low.
    pub fn clear<B: Bus>(&mut self, bus: &mut B)
        ensures
            final(bus)@ == old(bus)@.clear_bits(
                old(self).data_address(),
                seq![old(self).pin().index()],
            ),
            *final(self) == *old(self),
    {
        let bits = [self.pin.index()];
        assert(bits@ =~= seq![self.pin.index()]);
        memory::clear_bits(bus, self.data_address, &bits);
    }

    /// Drives the pin high.
    pub fn set<B: Bus>(&mut self, bus: &mut B)
        ensures
            final(bus)@ == old(bus)@.set_bits(
                old(self).data_address(),
                seq![old(self).pin().index()],
            ),
            *final(self) == *old(self),
    {
        let bits = [self.pin.index()];
        assert(bits@ =~= seq![self.pin.index()]);
        memory::set_bits(bus, self.data_address, &bits);
    }

    /// Inverts the pin's level.
    pub fn toggle<B: Bus>(&mut self, bus: &mut B)
        ensures
            final(bus)@ == old(bus)@.toggle_bits(
                old(self).data_address(),
                seq![old(self).pin().index()],
            ),
            *final(self) == *old(self),
    {
        let bits = [self.pin.index()];
        assert(bits@ =~= seq![self.pin.index()]);
        memory::toggle_bits(bus, self.data_address, &bits);
    }
}

/// A group of configured output pins of one port, in the order in which they
/// were named at configuration.
pub struct WritablePins<const N: usize> {
    data_address: u32,
    pins: [Pin; N],
}

impl<const N: usize> WritablePins<N> {
    /// The address of the data register alias that shows exactly these pins.
    pub closed spec fn data_address(&self) -> u32 {
        self.data_address
    }

    /// The pins of the group, in order.
    pub closed spec fn members(&self) -> Seq<Pin> {
        self.pins@
    }

    /// A handle for each pin of the group, in order. Each drives its pin
    /// through the group's data address.
    pub fn pins(&self) -> (handles: [WritablePin; N])
        ensures
            forall|i: int|
                0 <= i < N ==> (#[trigger] handles[i]).data_address() == self.data_address()
                    && handles[i].pin() == self.members()[i],
    {
        let mut handles = [WritablePin { data_address: self.data_address, pin: Pin::Zero };N];
        let mut i: usize = 0;
        while i < N
            invariant
                i <= N,
                forall|k: int|
                    0 <= k < i ==> (#[trigger] handles[k]).data_address == self.data_address
                        && handles[k].pin == self.pins[k],
            decreases N - i,
        {
            handles[i] = WritablePin { data_address: self.data_address, pin: self.pins[i] };
            i += 1;
        }
        handles
    }

    /// Reads the levels of all pins of the group at once, in order.
    pub fn read_all<B: Bus>(&self, bus: &mut B) -> (levels: [bool; N])
        ensures
            levels@ == bits_read(old(bus)@.words[self.data_address()], pin_bits(self.members())),
            final(bus)@ == old(bus)@.read(self.data_address()),
    {
        let bits = pins_to_bits(&self.pins);
        proof {
            lemma_pin_bits_in_word(self.pins@);
        }
        memory::read_bits(bus, self.data_address, &bits)
    }

    /// Drives each pin of the group to the level at the same position of
    /// `values`, in one read-modify-write.
    pub fn write_all<B: Bus>(&mut self, bus: &mut B, values: [bool; N])
        ensures
            final(bus)@ == old(bus)@.write_bits(
                old(self).data_address(),
                pin_bits(old(self).members()),
                values@,
            ),
            *final(self) == *old(self),
    {
        let bits = pins_to_bits(&self.pins);
        proof {
            lemma_pin_bits_in_word(self.pins@);
        }
        memory::write_bits(bus, self.data_address, &bits, values);
    }

    /// Reads the levels of the group, hands them to `updater`, and drives
    /// the pins to the levels that it returns: one read, then one write, so
    /// that nothing can come between what was read and what is written.
    pub fn update_all<B: Bus, F: Fn([bool; N]) -> [bool; N]>(&mut self, bus: &mut B, updater: &F)
        requires
            forall|levels: [bool; N]|
                levels@ == bits_read(
                    old(bus)@.words[old(self).data_address()],
                    pin_bits(old(self).members()),
                ) ==> call_requires(updater, (levels,)),
        ensures
            exists|levels: [bool; N], values: [bool; N]|
                {
                    &&& levels@ == bits_read(
                        old(bus)@.words[old(self).data_address()],
                        pin_bits(old(self).members()),
                    )
                    &&& call_ensures(updater, (levels,), values)
                    &&& final(bus)@ == old(bus)@.write_bits(
                        old(self).data_address(),
                        pin_bits(old(self).members()),
                        values@,
                    )
                },
            *final(self) == *old(self),
    {
        let bits = pins_to_bits(&self.pins);
        proof {
            lemma_pin_bits_in_word(self.pins@);
        }
        let current = memory::read(bus, self.data_address);
        let levels = memory::bits_of_word(current, &bits);
        let values = updater(levels);
        let new = memory::word_with_bits(current, &bits, &values);
        memory::write(bus, self.data_address, new);
    }

    /// Drives all pins of the group low.
    pub fn clear_all<B: Bus>(&mut self, bus: &mut B)
        ensures
            final(bus)@ == old(bus)@.clear_bits(
                old(self).data_address(),
                pin_bits(old(self).members()),
            ),
            *final(self) == *old(self),
    {
        let bits = pins_to_bits(&self.pins);
        proof {
            lemma_pin_bits_in_word(self.pins@);
        }
        memory::clear_bits(bus, self.data_address, &bits);
    }

    /// Drives all pins of the group high.
    pub fn set_all<B: Bus>(&mut self, bus: &mut B)
        ensures
            final(bus)@ == old(bus)@.set_bits(
                old(self).data_address(),
                pin_bits(old(self).members()),
            ),
            *final(self) == *old(self),
    {
        let bits = pins_to_bits(&self.pins);
        proof {
            lemma_pin_bits_in_word(self.pins@);
        }
        memory::set_bits(bus, self.data_address, &bits);
    }

    /// Inverts the level of each pin of the group.
    pub fn toggle_all<B: Bus>(&mut self, bus: &mut B)
        ensures
            final(bus)@ == old(bus)@.toggle_bits(
                old(self).data_address(),
                pin_bits(old(self).members()),
            ),
            *final(self) == *old(self),
    {
        let bits = pins_to_bits(&self.pins);
        proof {
            lemma_pin_bits_in_word(self.pins@);
        }
        memory::toggle_bits(bus, self.data_address, &bits);
    }
}

/// Configures pins of `port` as inputs with the given function and pull
/// resistor and returns the handle to read them with, or refuses the request
/// before anything is written.
pub fn setup_readable_pins<B: Bus, const N: usize>(
    bus: &mut B,
    port: Port,
    pins: [Pin; N],
    options: ReadablePinOptions,
) -> (result: Result<ReadablePins<N>, ConfigError>)
    ensures
        match rejection(options.function, options.pull) {
            Some(error) => result == Err::<ReadablePins<N>, ConfigError>(error) && final(bus)@
                == old(bus)@,
            None => {
                &&& result is Ok
                &&& result->Ok_0.data_address() == port.base() + data_offset(pins@)
                &&& result->Ok_0.members() == pins@
                &&& final(bus)@ == configured(
                    old(bus)@,
                    port,
                    pins@,
                    false,
                    options.function,
                    options.pull,
                )
            },
        },
{
    match setup_pins(bus, port, pins, false, options.function, options.pull) {
        Err(error) => Err(error),
        Ok(()) => {
            let data_address = port.data(&pins);
            Ok(ReadablePins { data_address, pins })
        },
    }
}

/// Configures pins of `port` as outputs with the given function and no pull
/// resistor and returns the handle to drive them with, or refuses the
/// request before anything is written.
pub fn setup_writable_pins<B: Bus, const N: usize>(
    bus: &mut B,
    port: Port,
    pins: [Pin; N],
    options: WritablePinOptions,
) -> (result: Result<WritablePins<N>, ConfigError>)
    ensures
        match rejection(options.function, Pull::Neither) {
            Some(error) => result == Err::<WritablePins<N>, ConfigError>(error) && final(bus)@
                == old(bus)@,
            None => {
                &&& result is Ok
                &&& result->Ok_0.data_address() == port.base() + data_offset(pins@)
                &&& result->Ok_0.members() == pins@
                &&& final(bus)@ == configured(
                    old(bus)@,
                    port,
                    pins@,
                    true,
                    options.function,
                    Pull::Neither,
                )
            },
        },
{
    match setup_pins(bus, port, pins, true, options.function, Pull::Neither) {
        Err(error) => Err(error),
        Ok(()) => {
            let data_address = port.data(&pins);
            Ok(WritablePins { data_address, pins })
        },
    }
}

} // verus!
