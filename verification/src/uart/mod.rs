//! The UART ports: how one is brought up, and the transfer of bytes through
//! one that is.
//!
//! Data sheet: <https://www.ti.com/lit/ds/spms376e/spms376e.pdf>, UART
//! register map on page 904.

pub mod laws;

use crate::board::Board;
use crate::gpio::pins::{ReadablePin, WritablePin};
use crate::memory;
use crate::memory::{bit_is_set, Bus, BusState};
use vstd::prelude::*;
use vstd::string::StringSliceAdditionalSpecFns;

verus! {

/// A UART port of the board.
#[derive(Clone, Copy, Debug, PartialEq, Eq, Structural)]
pub enum Port {
    Zero,
    One,
    Two,
    Three,
    Four,
    Five,
    Six,
    Seven,
}

/// How many data bits a frame carries.
#[derive(Clone, Copy, Debug, PartialEq, Eq, Structural)]
pub enum WordLength {
    Five,
    Six,
    Seven,
    Eight,
}

/// How a UART port is to be set up.
#[derive(Clone, Copy)]
pub struct PortOptions {
    pub baud_rate: u32,
    pub fifos: bool,
    pub word_length: WordLength,
}

/// Why a UART port was not brought up. Nothing is written to any register
/// when one is.
#[derive(Clone, Copy, Debug, PartialEq, Eq, Structural)]
pub enum SetupError {
    /// No clock gate is defined for the port.
    UnsupportedPort,
    /// A baud rate of zero has no divisor.
    ZeroBaudRate,
}

/// The frequency of the system clock, in Hz. Page 219 of the data sheet.
pub const SYSTEM_OSC_CLOCK_SPEED: u32 = 16_000_000;

/// How many cycles of its reference clock the UART spends on one bit.
pub const CLOCK_DIVIDER: u32 = 16;

/// How many idle cycles pass between switching on a UART's clock and the
/// first access to one of its registers.
pub const CLOCK_SETTLE_NO_OPS: u32 = 7;

/// The carriage return byte, which ends a line.
pub const CARRIAGE_RETURN: u8 = 0x0D;

/// The line feed byte.
pub const LINE_FEED: u8 = 0x0A;

/// The byte that a terminal sends for the backspace key.
pub const BACKSPACE: u8 = 0x7F;

impl Port {
    /// Where this port's registers start.
    #[verifier::allow_in_spec]
    pub fn base(&self) -> u32
        returns
            match self {
                Port::Zero => 0x4000_C000u32,
                Port::One => 0x4000_D000u32,
                Port::Two => 0x4000_E000u32,
                Port::Three => 0x4000_F000u32,
                Port::Four => 0x4001_0000u32,
                Port::Five => 0x4001_1000u32,
                Port::Six => 0x4001_2000u32,
                Port::Seven => 0x4001_3000u32,
            },
    {
        match self {
            Port::Zero => 0x4000_C000,
            Port::One => 0x4000_D000,
            Port::Two => 0x4000_E000,
            Port::Three => 0x4000_F000,
            Port::Four => 0x4001_0000,
            Port::Five => 0x4001_1000,
            Port::Six => 0x4001_2000,
            Port::Seven => 0x4001_3000,
        }
    }

    /// The address of the control (CTL) register. Page 918 of the data
    /// sheet.
    #[verifier::allow_in_spec]
    pub fn control(&self) -> u32
        returns
            (self.base() + 0x030) as u32,
    {
        self.base() + 0x030
    }

    /// The address of the data (DR) register. Page 906 of the data sheet.
    #[verifier::allow_in_spec]
    pub fn data(&self) -> u32
        returns
            self.base(),
    {
        self.base()
    }

    /// The address of the flag (FR) register. Page 911 of the data sheet.
    #[verifier::allow_in_spec]
    pub fn flag(&self) -> u32
        returns
            (self.base() + 0x018) as u32,
    {
        self.base() + 0x018
    }

    /// The address of the fractional baud-rate divisor (FBRD) register.
    #[verifier::allow_in_spec]
    pub fn fractional_baud_rate_divisor(&self) -> u32
        returns
            (self.base() + 0x028) as u32,
    {
        self.base() + 0x028
    }

    /// The address of the integer baud-rate divisor (IBRD) register.
    #[verifier::allow_in_spec]
    pub fn integer_baud_rate_divisor(&self) -> u32
        returns
            (self.base() + 0x024) as u32,
    {
        self.base() + 0x024
    }

    /// The address of the line control (LCRH) register. Page 916 of the data
    /// sheet.
    #[verifier::allow_in_spec]
    pub fn line_control(&self) -> u32
        returns
            (self.base() + 0x02C) as u32,
    {
        self.base() + 0x02C
    }

    /// The receive FIFO empty (RXFE) bit in the flag register.
    #[verifier::allow_in_spec]
    pub fn receive_fifo_empty(&self) -> u32
        returns
            4u32,
    {
        4
    }

    /// The transmit FIFO full (TXFF) bit in the flag register.
    #[verifier::allow_in_spec]
    pub fn transmit_fifo_full(&self) -> u32
        returns
            5u32,
    {
        5
    }

    /// The enable (EN) bit in the control register.
    #[verifier::allow_in_spec]
    pub fn enable_bit(&self) -> u32
        returns
            0u32,
    {
        0
    }

    /// The enable FIFOs (FEN) bit in the line control register.
    #[verifier::allow_in_spec]
    pub fn enable_fifos_bit(&self) -> u32
        returns
            4u32,
    {
        4
    }

    /// The word length (WLEN) bits in the line control register, higher bit
    /// first.
    pub fn word_length_bits(&self) -> (bits: [u32; 2])
        ensures
            bits@ == seq![6u32, 5u32],
    {
        let bits = [6, 5];
        assert(bits@ =~= seq![6u32, 5u32]);
        bits
    }

    /// The address of the system's run-mode clock gating control register
    /// that holds this port's clock gate, where one is defined.
    #[verifier::allow_in_spec]
    pub fn run_mode_clock_gating_control_address(&self, board: &Board) -> Option<u32>
        returns
            match self {
                Port::Zero | Port::One | Port::Two => Some(
                    board.run_mode_clock_gating_control_1(),
                ),
                _ => None::<u32>,
            },
    {
        match self {
            Port::Zero => Some(board.run_mode_clock_gating_control_1()),
            Port::One => Some(board.run_mode_clock_gating_control_1()),
            Port::Two => Some(board.run_mode_clock_gating_control_1()),
            _ => None,
        }
    }

    /// This port's bit in the system's run-mode clock gating control
    /// register, where one is defined.
    #[verifier::allow_in_spec]
    pub fn run_mode_clock_gating_control_bit(&self) -> Option<u32>
        returns
            match self {
                Port::Zero => Some(0u32),
                Port::One => Some(1u32),
                Port::Two => Some(2u32),
                _ => None::<u32>,
            },
    {
        match self {
            Port::Zero => Some(0),
            Port::One => Some(1),
            Port::Two => Some(2),
            _ => None,
        }
    }
}

impl WordLength {
    /// The setting of the two word length bits of the line control register,
    /// higher bit first. Page 916 of the data sheet.
    pub fn pattern(self) -> (bits: [bool; 2])
        ensures
            bits@ == self.pattern_bits(),
    {
        let bits = match self {
            WordLength::Five => [false, false],
            WordLength::Six => [false, true],
            WordLength::Seven => [true, false],
            WordLength::Eight => [true, true],
        };
        assert(bits@ =~= self.pattern_bits());
        bits
    }

    /// The setting of the two word length bits of the line control register,
    /// higher bit first.
    pub open spec fn pattern_bits(self) -> Seq<bool> {
        match self {
            WordLength::Five => seq![false, false],
            WordLength::Six => seq![false, true],
            WordLength::Seven => seq![true, false],
            WordLength::Eight => seq![true, true],
        }
    }
}

/// The whole part of `clock_hz / (16 * baud_rate)`.
pub open spec fn divisor_integer(clock_hz: u32, baud_rate: u32) -> int {
    clock_hz as int / (CLOCK_DIVIDER * baud_rate)
}

/// The fraction of `clock_hz / (16 * baud_rate)` in sixty-fourths, rounded
/// to the nearest with halves going up: the whole part of the fraction times
/// 64 plus one half.
pub open spec fn divisor_fraction(clock_hz: u32, baud_rate: u32) -> int {
    let divider = CLOCK_DIVIDER * baud_rate;
    (128 * (clock_hz as int % divider) + divider) / (2 * divider)
}

/// The integer and fractional baud-rate divisors for a baud rate.
pub fn baud_rate_divisor(clock_hz: u32, baud_rate: u32) -> (divisor: (u32, u32))
    requires
        baud_rate > 0,
    ensures
        divisor.0 == divisor_integer(clock_hz, baud_rate),
        divisor.1 == divisor_fraction(clock_hz, baud_rate),
        divisor.1 <= 64,
{
    let divider: u64 = 16 * (baud_rate as u64);
    let clock: u64 = clock_hz as u64;
    let integer: u64 = clock / divider;
    let remainder: u64 = clock % divider;
    let fraction: u64 = (128 * remainder + divider) / (2 * divider);
    proof {
        let d = divider as int;
        let r = remainder as int;
        assert(integer <= clock) by (nonlinear_arith)
            requires
                integer == clock / divider,
                divider >= 1,
        ;
        assert((128 * r + d) / (2 * d) <= 64) by (nonlinear_arith)
            requires
                0 <= r < d,
        ;
    }
    (integer as u32, fraction as u32)
}

/// Why the port cannot be brought up with these options, if it cannot.
#[verifier::allow_in_spec]
pub fn refusal(port: Port, options: PortOptions) -> Option<SetupError>
    returns
        if port.run_mode_clock_gating_control_bit() is None {
            Some(SetupError::UnsupportedPort)
        } else if options.baud_rate == 0 {
            Some(SetupError::ZeroBaudRate)
        } else {
            None::<SetupError>
        },
{
    if port.run_mode_clock_gating_control_bit().is_none() {
        Some(SetupError::UnsupportedPort)
    } else if options.baud_rate == 0 {
        Some(SetupError::ZeroBaudRate)
    } else {
        None
    }
}

/// The state in which bringing up a port leaves the bus. In order: the
/// port's clock gate is opened; seven idle cycles pass; the port is
/// disabled; the integer and then the fractional divisor are written; the
/// word length and then the FIFO enable are put into the line control
/// register; and the port is enabled.
pub open spec fn brought_up(before: BusState, port: Port, options: PortOptions) -> BusState {
    let gated = before.set_bits(
        Board.run_mode_clock_gating_control_1(),
        seq![port.run_mode_clock_gating_control_bit().unwrap()],
    );
    let settled = gated.no_ops(CLOCK_SETTLE_NO_OPS as nat);
    let disabled = settled.clear_bits(port.control(), seq![port.enable_bit()]);
    let divided = disabled.write(
        port.integer_baud_rate_divisor(),
        divisor_integer(SYSTEM_OSC_CLOCK_SPEED, options.baud_rate) as u32,
    ).write(
        port.fractional_baud_rate_divisor(),
        divisor_fraction(SYSTEM_OSC_CLOCK_SPEED, options.baud_rate) as u32,
    );
    let framed = divided.write_bits(
        port.line_control(),
        seq![6u32, 5u32],
        options.word_length.pattern_bits(),
    ).write_bits(port.line_control(), seq![port.enable_fifos_bit()], seq![options.fifos]);
    framed.set_bits(port.control(), seq![port.enable_bit()])
}

/// A UART port that has been brought up.
pub struct UsablePort {
    port: Port,
}

/// Brings up a UART port for the given baud rate, word length and FIFO use,
/// in the order that `brought_up` lays down, or refuses the request before
/// anything is written. The port's pins must have been given the UART
/// function beforehand.
pub fn setup_port<B: Bus>(bus: &mut B, board: Board, port: Port, options: PortOptions) -> (result:
    Result<UsablePort, SetupError>)
    ensures
        match refusal(port, options) {
            Some(error) => result == Err::<UsablePort, SetupError>(error) && final(bus)@ == old(
                bus,
            )@,
            None => {
                &&& result is Ok
                &&& result->Ok_0.port() == port
                &&& final(bus)@ == brought_up(old(bus)@, port, options)
            },
        },
{
    if let Some(error) = refusal(port, options) {
        return Err(error);
    }
    let gate_address = port.run_mode_clock_gating_control_address(&board).unwrap();
    let gate_bit = port.run_mode_clock_gating_control_bit().unwrap();

    // Activate the associated peripheral
    let gate_bits = [gate_bit];
    assert(gate_bits@ =~= seq![gate_bit]);
    memory::set_bits(bus, gate_address, &gate_bits);

    // Page 904: There must be a delay of 3 system clocks after the UART module clock is enabled
    // before any UART module registers are accessed. In actuality, 7 no-ops are needed.
    let mut i: u32 = 0;
    let ghost gated = bus@;
    while i < CLOCK_SETTLE_NO_OPS
        invariant
            i <= CLOCK_SETTLE_NO_OPS,
            bus@ == gated.no_ops(i as nat),
        decreases CLOCK_SETTLE_NO_OPS - i,
    {
        bus.no_op();
        i += 1;
    }

    // Disable this UART port while setting it up
    let enable_bits = [port.enable_bit()];
    assert(enable_bits@ =~= seq![port.enable_bit()]);
    memory::clear_bits(bus, port.control(), &enable_bits);

    // Page 896: baud rate generation
    let (baud_rate_divisor_integer, baud_rate_divisor_fraction) = baud_rate_divisor(
        SYSTEM_OSC_CLOCK_SPEED,
        options.baud_rate,
    );
    memory::write(bus, port.integer_baud_rate_divisor(), baud_rate_divisor_integer);
    memory::write(bus, port.fractional_baud_rate_divisor(), baud_rate_divisor_fraction);

    // Set the word length
    memory::write_bits(
        bus,
        port.line_control(),
        &port.word_length_bits(),
        options.word_length.pattern(),
    );

    // Enable or disable FIFOs
    let fifo_bits = [port.enable_fifos_bit()];
    let fifos = [options.fifos];
    assert(fifo_bits@ =~= seq![port.enable_fifos_bit()]);
    assert(fifos@ =~= seq![options.fifos]);
    memory::write_bits(bus, port.line_control(), &fifo_bits, fifos);

    // Enable this UART port
    memory::set_bits(bus, port.control(), &enable_bits);

    Ok(UsablePort { port })
}

/// What one poll of the port came to.
#[derive(Debug, PartialEq, Eq)]
pub enum Attempt<T> {
    /// The call is over, with this result.
    Done(T),
    /// The port was not ready and the caller wants to wait: poll again.
    Retry,
}

/// What the line editor made of one received byte.
pub struct LineStep {
    /// The bytes to send back to the terminal, in order.
    pub echo: Vec<u8>,
    /// Whether the line is complete.
    pub finished: bool,
}

/// Whether the port's receive FIFO is empty in this state.
pub open spec fn receiver_empty(state: BusState, port: Port) -> bool {
    bit_is_set(state.words[port.flag()], port.receive_fifo_empty())
}

/// Whether the port's transmit FIFO is full in this state.
pub open spec fn transmitter_full(state: BusState, port: Port) -> bool {
    bit_is_set(state.words[port.flag()], port.transmit_fifo_full())
}

/// The state after one byte was handed to a transmitter that had room: the
/// flags were read, then the byte was written to the data register.
pub open spec fn byte_sent(state: BusState, port: Port, byte: u8) -> BusState {
    state.read(port.flag()).write(port.data(), byte as u32)
}

/// The state after the bytes from position `from` up to position `to` were
/// sent one after the other.
pub open spec fn bytes_sent(
    state: BusState,
    port: Port,
    bytes: Seq<u8>,
    from: int,
    to: int,
) -> BusState
    decreases to - from,
{
    if to <= from {
        state
    } else {
        byte_sent(bytes_sent(state, port, bytes, from, to - 1), port, bytes[to - 1])
    }
}

/// The bytes of a line as it goes out: the text, a carriage return and a
/// line feed.
pub open spec fn line_bytes(text: Seq<u8>) -> Seq<u8> {
    text + seq![CARRIAGE_RETURN, LINE_FEED]
}

/// What a terminal needs to rub out the character before the cursor: cursor
/// left by one, delete one character.
pub open spec fn erase_sequence() -> Seq<u8> {
    seq![0x1Bu8, 0x5Bu8, 0x31u8, 0x44u8, 0x1Bu8, 0x5Bu8, 0x31u8, 0x50u8]
}

/// The line buffer after `byte` was received: a carriage return leaves it
/// as it is, a backspace takes its last byte away if it has one, and any
/// other byte is added at its end.
pub open spec fn line_after(line: Seq<u8>, byte: u8) -> Seq<u8> {
    if byte == CARRIAGE_RETURN {
        line
    } else if byte == BACKSPACE {
        if line.len() > 0 {
            line.drop_last()
        } else {
            line
        }
    } else {
        line.push(byte)
    }
}

/// What goes back to the terminal when `byte` was received: a new line for
/// a carriage return, the erase sequence for a backspace that took a byte
/// away, nothing for one that did not, and any other byte itself.
pub open spec fn echo_for(line: Seq<u8>, byte: u8) -> Seq<u8> {
    if byte == CARRIAGE_RETURN {
        seq![CARRIAGE_RETURN, LINE_FEED]
    } else if byte == BACKSPACE {
        if line.len() > 0 {
            erase_sequence()
        } else {
            Seq::<u8>::empty()
        }
    } else {
        seq![byte]
    }
}

/// Takes one received byte into the line buffer and says what to send back
/// to the terminal and whether the line is complete, which it is at a
/// carriage return.
pub fn edit_line(line: &mut Vec<u8>, byte: u8) -> (step: LineStep)
    ensures
        final(line)@ == line_after(old(line)@, byte),
        step.echo@ == echo_for(old(line)@, byte),
        step.finished == (byte == CARRIAGE_RETURN),
{
    let mut echo: Vec<u8> = Vec::new();
    // Enter
    if byte == CARRIAGE_RETURN {
        echo.push(CARRIAGE_RETURN);
        echo.push(LINE_FEED);
        assert(echo@ =~= seq![CARRIAGE_RETURN, LINE_FEED]);
        return LineStep { echo, finished: true };
    }
    // Backspace
    if byte == BACKSPACE {
        if line.len() > 0 {
            // https://stackoverflow.com/a/53976873
            echo.push(0x1B);
            echo.push(0x5B);
            echo.push(0x31);
            echo.push(0x44);
            echo.push(0x1B);
            echo.push(0x5B);
            echo.push(0x31);
            echo.push(0x50);
            assert(echo@ =~= erase_sequence());
            line.pop();
        }
    } else {
        echo.push(byte);
        assert(echo@ =~= seq![byte]);
        line.push(byte);
    }
    LineStep { echo, finished: false }
}

/// Sending bytes leaves the flag register as it was.
pub proof fn lemma_bytes_sent_keeps_flags(
    state: BusState,
    port: Port,
    bytes: Seq<u8>,
    from: int,
    to: int,
)
    ensures
        bytes_sent(state, port, bytes, from, to).words[port.flag()] == state.words[port.flag()],
    decreases to - from,
{
    if to > from {
        lemma_bytes_sent_keeps_flags(state, port, bytes, from, to - 1);
    }
}

/// Sending bytes of one sequence is the same as sending the same bytes found
/// `shift` positions further on in another.
pub proof fn lemma_bytes_sent_same_bytes(
    state: BusState,
    port: Port,
    first: Seq<u8>,
    second: Seq<u8>,
    from: int,
    to: int,
    shift: int,
)
    requires
        forall|i: int| from <= i < to ==> first[i] == second[i + shift],
    ensures
        bytes_sent(state, port, first, from, to) == bytes_sent(
            state,
            port,
            second,
            from + shift,
            to + shift,
        ),
    decreases to - from,
{
    if to > from {
        lemma_bytes_sent_same_bytes(state, port, first, second, from, to - 1, shift);
    }
}

/// Sending up to a position and then on from there is the same as sending
/// all at once.
pub proof fn lemma_bytes_sent_in_two(
    state: BusState,
    port: Port,
    bytes: Seq<u8>,
    from: int,
    middle: int,
    to: int,
)
    requires
        from <= middle <= to,
    ensures
        bytes_sent(bytes_sent(state, port, bytes, from, middle), port, bytes, middle, to)
            == bytes_sent(state, port, bytes, from, to),
    decreases to - middle,
{
    if to > middle {
        lemma_bytes_sent_in_two(state, port, bytes, from, middle, to - 1);
    }
}

impl UsablePort {
    /// Which port this is.
    pub closed spec fn port(&self) -> Port {
        self.port
    }

    /// Polls the receiver once. If a byte has arrived it is taken from the
    /// data register. If none has, the call is over with `None` when the
    /// caller does not want to block, and is to be made again when it does.
    pub fn read_byte<B: Bus>(
        &self,
        bus: &mut B,
        _receive_pin: &ReadablePin,
        blocking: bool,
    ) -> (attempt: Attempt<Option<u8>>)
        ensures
            !receiver_empty(old(bus)@, self.port()) ==> {
                &&& attempt == Attempt::Done(
                    Some((old(bus)@.words[self.port().data()] & 0xFF) as u8),
                )
                &&& final(bus)@ == old(bus)@.read(self.port().flag()).read(self.port().data())
            },
            receiver_empty(old(bus)@, self.port()) ==> {
                &&& attempt == if blocking {
                    Attempt::<Option<u8>>::Retry
                } else {
                    Attempt::Done(None::<u8>)
                }
                &&& final(bus)@ == old(bus)@.read(self.port().flag())
            },
    {
        let flag_bits = [self.port.receive_fifo_empty()];
        let receive_fifo_empty = memory::read_bits(bus, self.port.flag(), &flag_bits);
        if !receive_fifo_empty[0] {
            let word = memory::read(bus, self.port.data());
            let byte = (word & 0xFF) as u8;
            return Attempt::Done(Some(byte));
        }
        if !blocking {
            return Attempt::Done(None);
        }
        Attempt::Retry
    }

    /// Polls the transmitter once. If it has room the byte is written to the
    /// data register. If it has none, the call is over with `false` when the
    /// caller does not want to block, and is to be made again when it does.
    pub fn write_byte<B: Bus>(
        &mut self,
        bus: &mut B,
        _transmit_pin: &mut WritablePin,
        byte: u8,
        blocking: bool,
    ) -> (attempt: Attempt<bool>)
        ensures
            !transmitter_full(old(bus)@, old(self).port()) ==> {
                &&& attempt == Attempt::Done(true)
                &&& final(bus)@ == byte_sent(old(bus)@, old(self).port(), byte)
            },
            transmitter_full(old(bus)@, old(self).port()) ==> {
                &&& attempt == if blocking {
                    Attempt::<bool>::Retry
                } else {
                    Attempt::Done(false)
                }
                &&& final(bus)@ == old(bus)@.read(old(self).port().flag())
            },
            *final(self) == *old(self),
            *final(_transmit_pin) == *old(_transmit_pin),
    {
        let flag_bits = [self.port.transmit_fifo_full()];
        let transmit_fifo_full = memory::read_bits(bus, self.port.flag(), &flag_bits);
        if !transmit_fifo_full[0] {
            memory::write(bus, self.port.data(), byte as u32);
            return Attempt::Done(true);
        }
        if !blocking {
            return Attempt::Done(false);
        }
        Attempt::Retry
    }

    /// Sends the bytes from position `from` on, each after finding room in
    /// the transmitter, and stops before the first byte for which there is
    /// none. Returns the position of the first byte that was not sent.
    fn write_bytes<B: Bus>(
        &mut self,
        bus: &mut B,
        _transmit_pin: &mut WritablePin,
        bytes: &[u8],
        from: usize,
    ) -> (next: usize)
        ensures
            from >= bytes@.len() ==> next == from && final(bus)@ == old(bus)@,
            from < bytes@.len() && transmitter_full(old(bus)@, old(self).port()) ==> next == from
                && final(bus)@ == old(bus)@.read(old(self).port().flag()),
            from < bytes@.len() && !transmitter_full(old(bus)@, old(self).port()) ==> next
                == bytes@.len() && final(bus)@ == bytes_sent(
                old(bus)@,
                old(self).port(),
                bytes@,
                from as int,
                bytes@.len() as int,
            ),
            *final(self) == *old(self),
            *final(_transmit_pin) == *old(_transmit_pin),
    {
        let mut next = from;
        while next < bytes.len()
            invariant
                from <= next,
                from < bytes@.len() ==> next <= bytes@.len(),
                from >= bytes@.len() ==> next == from,
                *self == *old(self),
                *_transmit_pin == *old(_transmit_pin),
                next > from ==> !transmitter_full(old(bus)@, self.port()),
                bus@ == bytes_sent(old(bus)@, self.port(), bytes@, from as int, next as int),
            decreases bytes.len() - next,
        {
            proof {
                lemma_bytes_sent_keeps_flags(
                    old(bus)@,
                    self.port(),
                    bytes@,
                    from as int,
                    next as int,
                );
            }
            match self.write_byte(bus, _transmit_pin, bytes[next], false) {
                Attempt::Done(true) => {
                    next += 1;
                },
                _ => {
                    return next;
                },
            }
        }
        next
    }

    /// Sends the bytes of `string` from position `from` on, each after
    /// finding room in the transmitter, and stops before the first byte for
    /// which there is none. Returns the position of the first byte that was
    /// not sent: the string has gone out when that is its length.
    pub fn write_string<B: Bus>(
        &mut self,
        bus: &mut B,
        _transmit_pin: &mut WritablePin,
        string: &str,
        from: usize,
    ) -> (next: usize)
        ensures
            from >= string.spec_bytes().len() ==> next == from && final(bus)@ == old(bus)@,
            from < string.spec_bytes().len() && transmitter_full(old(bus)@, old(self).port())
                ==> next == from && final(bus)@ == old(bus)@.read(old(self).port().flag()),
            from < string.spec_bytes().len() && !transmitter_full(old(bus)@, old(self).port())
                ==> next == string.spec_bytes().len() && final(bus)@ == bytes_sent(
                old(bus)@,
                old(self).port(),
                string.spec_bytes(),
                from as int,
                string.spec_bytes().len() as int,
            ),
            *final(self) == *old(self),
            *final(_transmit_pin) == *old(_transmit_pin),
    {
        self.write_bytes(bus, _transmit_pin, string.as_bytes(), from)
    }

    /// Sends the bytes of `string`, followed by a carriage return and a line
    /// feed, from position `from` on, each after finding room in the
    /// transmitter, and stops before the first byte for which there is none.
    /// Returns the position of the first byte that was not sent: the line
    /// has gone out when that is the string's length plus two.
    pub fn write_line<B: Bus>(
        &mut self,
        bus: &mut B,
        _transmit_pin: &mut WritablePin,
        string: &str,
        from: usize,
    ) -> (next: usize)
        requires
            string.spec_bytes().len() + 2 <= usize::MAX,
        ensures
            from >= line_bytes(string.spec_bytes()).len() ==> next == from && final(bus)@ == old(
                bus,
            )@,
            from < line_bytes(string.spec_bytes()).len() && transmitter_full(
                old(bus)@,
                old(self).port(),
            ) ==> next == from && final(bus)@ == old(bus)@.read(old(self).port().flag()),
            from < line_bytes(string.spec_bytes()).len() && !transmitter_full(
                old(bus)@,
                old(self).port(),
            ) ==> next == line_bytes(string.spec_bytes()).len() && final(bus)@ == bytes_sent(
                old(bus)@,
                old(self).port(),
                line_bytes(string.spec_bytes()),
                from as int,
                line_bytes(string.spec_bytes()).len() as int,
            ),
            *final(self) == *old(self),
            *final(_transmit_pin) == *old(_transmit_pin),
    {
        let length = string.len();
        let ending = [CARRIAGE_RETURN, LINE_FEED];
        let ghost text = string.spec_bytes();
        let ghost line = line_bytes(text);
        let ghost port = self.port();
        let mut next = from;
        if next < length {
            next = self.write_bytes(bus, _transmit_pin, string.as_bytes(), next);
            if next < length {
                return next;
            }
            proof {
                lemma_bytes_sent_keeps_flags(old(bus)@, port, text, from as int, length as int);
                lemma_bytes_sent_same_bytes(
                    old(bus)@,
                    port,
                    text,
                    line,
                    from as int,
                    length as int,
                    0,
                );
            }
        }
        if next - length < 2 {
            let ghost before = bus@;
            let sent = self.write_bytes(bus, _transmit_pin, &ending, next - length);
            proof {
                lemma_bytes_sent_same_bytes(
                    before,
                    port,
                    ending@,
                    line,
                    next - length,
                    2,
                    length as int,
                );
                lemma_bytes_sent_in_two(
                    old(bus)@,
                    port,
                    line,
                    from as int,
                    next as int,
                    length + 2,
                );
            }
            next = length + sent;
        }
        next
    }

    /// Polls the receiver once for the next byte of a line. If none has
    /// arrived, the call is to be made again. If one has, it is taken into
    /// `line` as [`edit_line`] says, and the step tells what to send back to
    /// the terminal and whether the line is complete.
    pub fn read_line<B: Bus>(
        &mut self,
        bus: &mut B,
        _transmit_pin: &mut WritablePin,
        _receive_pin: &ReadablePin,
        line: &mut Vec<u8>,
    ) -> (attempt: Attempt<LineStep>)
        ensures
            receiver_empty(old(bus)@, old(self).port()) ==> {
                &&& attempt is Retry
                &&& final(line)@ == old(line)@
                &&& final(bus)@ == old(bus)@.read(old(self).port().flag())
            },
            !receiver_empty(old(bus)@, old(self).port()) ==> {
                let byte = (old(bus)@.words[old(self).port().data()] & 0xFF) as u8;
                &&& attempt is Done
                &&& attempt->Done_0.echo@ == echo_for(old(line)@, byte)
                &&& attempt->Done_0.finished == (byte == CARRIAGE_RETURN)
                &&& final(line)@ == line_after(old(line)@, byte)
                &&& final(bus)@ == old(bus)@.read(old(self).port().flag()).read(
                    old(self).port().data(),
                )
            },
            *final(self) == *old(self),
            *final(_transmit_pin) == *old(_transmit_pin),
    {
        match self.read_byte(bus, _receive_pin, true) {
            Attempt::Done(Some(byte)) => Attempt::Done(edit_line(line, byte)),
            _ => Attempt::Retry,
        }
    }
}

} // verus!
