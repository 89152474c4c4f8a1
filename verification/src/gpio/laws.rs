//! What the configuration sequence leaves in a port's registers.

use crate::bit_laws::{
    lemma_bits_cleared_bit, lemma_bits_cleared_twice, lemma_bits_set_bit, lemma_bits_set_twice,
    lemma_read_after_write,
};
use crate::gpio::pins::{
    alternate_selected, analog_selected, code_bits, configured, direction_selected, mux_selected,
    nibble_bits, pull_selected, Function, Pin, Pull, UNLOCK,
};
use crate::gpio::ports::Port;
use crate::memory::{
    bit_is_set, bits_cleared, bits_read, bits_set, bits_written, with_bit, Access, BusState,
};
use crate::utils::pin_bits;
use vstd::prelude::*;

verus! {

/// The word with the four port control bits of `pin` replaced by the low
/// four bits of `code`, and every other bit as it was.
pub open spec fn with_nibble(word: u32, pin: Pin, code: u32) -> u32 {
    (word & !(0xFu32 << ((4 * pin.index()) as u32))) | ((code & 0xF) << ((4 * pin.index()) as u32))
}

/// Writing a mux code into a pin's four bits of the port control register
/// replaces those four bits by the code and touches no other: for pin seven
/// they are bits 28 to 31, the topmost of the word.
pub proof fn lemma_nibble_written(word: u32, pin: Pin, code: u32)
    ensures
        bits_written(word, nibble_bits(pin), code_bits(code)) == with_nibble(word, pin, code),
        (with_nibble(word, pin, code) >> ((4 * pin.index()) as u32)) & 0xF == code & 0xF,
        with_nibble(word, pin, code) & !(0xFu32 << ((4 * pin.index()) as u32)) == word & !(0xFu32
            << ((4 * pin.index()) as u32)),
{
    let shift = (4 * pin.index()) as u32;
    let bits = nibble_bits(pin);
    let values = code_bits(code);
    let three = bits.drop_last();
    let two = three.drop_last();
    let one = two.drop_last();
    assert(bits_written(word, one.drop_last(), values) == word);
    assert(one.last() == shift && two.last() == shift + 1 && three.last() == shift + 2);
    let first = bits_written(word, one, values);
    let second = bits_written(word, two, values);
    let third = bits_written(word, three, values);
    assert(first == with_bit(word, shift, code & 1 != 0));
    assert(second == with_bit(first, (shift + 1) as u32, code & 2 != 0));
    assert(third == with_bit(second, (shift + 2) as u32, code & 4 != 0));
    assert(bits_written(word, bits, values) == with_bit(
        third,
        (shift + 3) as u32,
        code & 8 != 0,
    ));
    assert(with_bit(
        with_bit(
            with_bit(with_bit(word, shift, code & 1 != 0), (shift + 1) as u32, code & 2 != 0),
            (shift + 2) as u32,
            code & 4 != 0,
        ),
        (shift + 3) as u32,
        code & 8 != 0,
    ) == (word & !(0xFu32 << shift)) | ((code & 0xF) << shift)) by (bit_vector)
        requires
            shift <= 28,
    ;
    assert((((word & !(0xFu32 << shift)) | ((code & 0xF) << shift)) >> shift) & 0xF == code & 0xF)
        by (bit_vector)
        requires
            shift <= 28,
    ;
    assert(((word & !(0xFu32 << shift)) | ((code & 0xF) << shift)) & !(0xFu32 << shift) == word
        & !(0xFu32 << shift)) by (bit_vector)
        requires
            shift <= 28,
    ;
}

/// The port control word after `code` was written into the four bits of
/// each pin in turn.
pub open spec fn mux_word(word: u32, pins: Seq<Pin>, code: u32) -> u32
    decreases pins.len(),
{
    if pins.len() == 0 {
        word
    } else {
        with_nibble(mux_word(word, pins.drop_last(), code), pins.last(), code)
    }
}

/// The word in which exactly the port control bits of the pins are set.
pub open spec fn nibbles_of(pins: Seq<Pin>) -> u32
    decreases pins.len(),
{
    if pins.len() == 0 {
        0
    } else {
        nibbles_of(pins.drop_last()) | (0xFu32 << ((4 * pins.last().index()) as u32))
    }
}

/// The word that holds the low four bits of `code` in each of its eight
/// groups of four bits.
pub open spec fn replicated(code: u32) -> u32 {
    let n = code & 0xF;
    n | (n << 4) | (n << 8) | (n << 12) | (n << 16) | (n << 20) | (n << 24) | (n << 28)
}

/// Selecting a mux code for pins changes the port control register alone,
/// and makes of its word what `mux_word` says.
pub proof fn lemma_mux_selected_words(state: BusState, address: u32, pins: Seq<Pin>, code: u32)
    ensures
        mux_selected(state, address, pins, code).words == if pins.len() == 0 {
            state.words
        } else {
            state.words.insert(address, mux_word(state.words[address], pins, code))
        },
    decreases pins.len(),
{
    if pins.len() > 0 {
        let rest = pins.drop_last();
        lemma_mux_selected_words(state, address, rest, code);
        let inner = mux_selected(state, address, rest, code);
        let word = state.words[address];
        assert(inner.words[address] == mux_word(word, rest, code));
        lemma_nibble_written(mux_word(word, rest, code), pins.last(), code);
        assert(mux_selected(state, address, pins, code) == inner.write_bits(
            address,
            nibble_bits(pins.last()),
            code_bits(code),
        ));
        assert(mux_selected(state, address, pins, code).words =~= state.words.insert(
            address,
            mux_word(word, pins, code),
        ));
    }
}

/// After a mux code was selected for pins, the port control bits of those
/// pins hold the code and all others are as they were.
pub proof fn lemma_mux_word_form(word: u32, pins: Seq<Pin>, code: u32)
    ensures
        mux_word(word, pins, code) == (word & !nibbles_of(pins)) | (replicated(code) & nibbles_of(
            pins,
        )),
    decreases pins.len(),
{
    if pins.len() == 0 {
        let r = replicated(code);
        assert(word == (word & !0u32) | (r & 0u32)) by (bit_vector);
    } else {
        let rest = pins.drop_last();
        lemma_mux_word_form(word, rest, code);
        let m = nibbles_of(rest);
        let shift = (4 * pins.last().index()) as u32;
        assert(((((word & !m) | (replicated(code) & m)) & !(0xFu32 << shift)) | ((code & 0xF)
            << shift)) == (word & !(m | (0xFu32 << shift))) | (replicated(code) & (m | (0xFu32
            << shift)))) by (bit_vector)
            requires
                shift == 0 || shift == 4 || shift == 8 || shift == 12 || shift == 16 || shift == 20
                    || shift == 24 || shift == 28,
        ;
    }
}

/// Selecting the same mux code for the same pins a second time changes
/// nothing.
pub proof fn lemma_mux_word_twice(word: u32, pins: Seq<Pin>, code: u32)
    ensures
        mux_word(mux_word(word, pins, code), pins, code) == mux_word(word, pins, code),
{
    lemma_mux_word_form(word, pins, code);
    lemma_mux_word_form(mux_word(word, pins, code), pins, code);
    let m = nibbles_of(pins);
    let r = replicated(code);
    assert(((((word & !m) | (r & m)) & !m) | (r & m)) == (word & !m) | (r & m)) by (bit_vector);
}

/// The word that the configuration sequence leaves in the direction
/// register.
pub open spec fn direction_word(word: u32, bits: Seq<u32>, writable: bool) -> u32 {
    if writable {
        bits_set(word, bits)
    } else {
        bits_cleared(word, bits)
    }
}

/// The word that the configuration sequence leaves in the alternate function
/// select register.
pub open spec fn alternate_word(word: u32, bits: Seq<u32>, function: Function) -> u32 {
    if function.is_alternate() {
        bits_set(word, bits)
    } else {
        bits_cleared(word, bits)
    }
}

/// The word that the configuration sequence leaves in the pull-up select
/// register.
pub open spec fn pull_up_word(word: u32, bits: Seq<u32>, pull: Pull) -> u32 {
    if pull is Up {
        bits_set(word, bits)
    } else {
        bits_cleared(word, bits)
    }
}

/// The word that the configuration sequence leaves in the pull-down select
/// register.
pub open spec fn pull_down_word(word: u32, bits: Seq<u32>, pull: Pull) -> u32 {
    if pull is Down {
        bits_set(word, bits)
    } else {
        bits_cleared(word, bits)
    }
}

/// The word that the configuration sequence leaves in the analog mode select
/// register.
pub open spec fn analog_word(word: u32, bits: Seq<u32>, function: Function) -> u32 {
    if function is Analog {
        bits_set(word, bits)
    } else {
        bits_cleared(word, bits)
    }
}

/// The word that the configuration sequence leaves in the digital enable
/// register.
pub open spec fn digital_word(word: u32, bits: Seq<u32>, function: Function) -> u32 {
    if function.digital_enable() == Some(true) {
        bits_set(word, bits)
    } else {
        bits_cleared(word, bits)
    }
}

/// The word that the configuration sequence leaves in the port control
/// register.
pub open spec fn port_control_word(word: u32, pins: Seq<Pin>, function: Function) -> u32 {
    match function.mux_code() {
        Some(code) => mux_word(word, pins, code),
        None => word,
    }
}

/// Whether `address` is one of the registers of `port` that the
/// configuration sequence writes.
pub open spec fn is_configuration_register(port: Port, address: u32) -> bool {
    ||| address == port.lock()
    ||| address == port.commit()
    ||| address == port.direction()
    ||| address == port.alternate_function_select()
    ||| address == port.pull_up_select()
    ||| address == port.pull_down_select()
    ||| address == port.analog_mode_select()
    ||| address == port.port_control()
    ||| address == port.digital_enable()
}

/// What the configuration sequence leaves in each register: the port is
/// locked, each of its configuration registers holds the word that the
/// request asks for in the bits of the pins and what it held before in the
/// others, and no other register has changed.
pub proof fn lemma_configured_words(
    before: BusState,
    port: Port,
    pins: Seq<Pin>,
    writable: bool,
    function: Function,
    pull: Pull,
)
    ensures
        ({
            let after = configured(before, port, pins, writable, function, pull).words;
            let bits = pin_bits(pins);
            &&& after[port.lock()] == 0
            &&& after[port.commit()] == bits_set(before.words[port.commit()], bits)
            &&& after[port.direction()] == direction_word(
                before.words[port.direction()],
                bits,
                writable,
            )
            &&& after[port.alternate_function_select()] == alternate_word(
                before.words[port.alternate_function_select()],
                bits,
                function,
            )
            &&& after[port.pull_up_select()] == pull_up_word(
                before.words[port.pull_up_select()],
                bits,
                pull,
            )
            &&& after[port.pull_down_select()] == pull_down_word(
                before.words[port.pull_down_select()],
                bits,
                pull,
            )
            &&& after[port.analog_mode_select()] == analog_word(
                before.words[port.analog_mode_select()],
                bits,
                function,
            )
            &&& after[port.port_control()] == port_control_word(
                before.words[port.port_control()],
                pins,
                function,
            )
            &&& after[port.digital_enable()] == digital_word(
                before.words[port.digital_enable()],
                bits,
                function,
            )
            &&& forall|address: u32|
                !is_configuration_register(port, address) ==> after[address]
                    == before.words[address]
        }),
{
    let bits = pin_bits(pins);
    let unlocked = before.write(port.lock(), UNLOCK).set_bits(
        port.commit(),
        bits,
    );
    let directed = direction_selected(unlocked, port, bits, writable);
    let routed = alternate_selected(directed, port, bits, function);
    let pulled = pull_selected(routed, port, bits, pull);
    let moded = analog_selected(pulled, port, bits, function);
    if let Some(code) = function.mux_code() {
        lemma_mux_selected_words(moded, port.port_control(), pins, code);
    }
}

/// Whether the port control bits of `pin` are among those of `pins`.
pub proof fn lemma_nibbles_of_pin(pins: Seq<Pin>, pin: Pin)
    ensures
        nibbles_of(pins) & (0xFu32 << ((4 * pin.index()) as u32)) == if pins.contains(pin) {
            0xFu32 << ((4 * pin.index()) as u32)
        } else {
            0u32
        },
    decreases pins.len(),
{
    let shift = (4 * pin.index()) as u32;
    if pins.len() == 0 {
        assert(0u32 & (0xFu32 << shift) == 0) by (bit_vector);
    } else {
        let rest = pins.drop_last();
        let last = pins.last();
        lemma_nibbles_of_pin(rest, pin);
        let m = nibbles_of(rest);
        let other = (4 * last.index()) as u32;
        assert(pins[pins.len() - 1] == last);
        if rest.contains(pin) {
            let i = choose|i: int| 0 <= i < rest.len() && rest[i] == pin;
            assert(pins[i] == pin);
        }
        if pins.contains(pin) && last != pin {
            let i = choose|i: int| 0 <= i < pins.len() && pins[i] == pin;
            assert(rest[i] == pin);
        }
        if last == pin {
            assert((m | (0xFu32 << shift)) & (0xFu32 << shift) == 0xFu32 << shift)
                by (bit_vector);
        } else {
            assert(other != shift);
            assert((m | (0xFu32 << other)) & (0xFu32 << shift) == m & (0xFu32 << shift))
                by (bit_vector)
                requires
                    other != shift,
                    other == 0 || other == 4 || other == 8 || other == 12 || other == 16 || other
                        == 20 || other == 24 || other == 28,
                    shift == 0 || shift == 4 || shift == 8 || shift == 12 || shift == 16 || shift
                        == 20 || shift == 24 || shift == 28,
            ;
        }
    }
}

/// After a mux code was selected for pins, the four port control bits of
/// each of them hold the code, and those of every other pin are as they
/// were. So the bits of pin seven, 28 to 31, can be written without a change
/// to those of pin six below them.
pub proof fn lemma_mux_word_nibble(word: u32, pins: Seq<Pin>, code: u32, pin: Pin)
    ensures
        (mux_word(word, pins, code) >> ((4 * pin.index()) as u32)) & 0xF == if pins.contains(pin) {
            code & 0xF
        } else {
            (word >> ((4 * pin.index()) as u32)) & 0xF
        },
{
    lemma_mux_word_form(word, pins, code);
    lemma_nibbles_of_pin(pins, pin);
    let m = nibbles_of(pins);
    let shift = (4 * pin.index()) as u32;
    if pins.contains(pin) {
        assert((((word & !m) | (replicated(code) & m)) >> shift) & 0xF == code & 0xF)
            by (bit_vector)
            requires
                m & (0xFu32 << shift) == 0xFu32 << shift,
                shift == 0 || shift == 4 || shift == 8 || shift == 12 || shift == 16 || shift == 20
                    || shift == 24 || shift == 28,
        ;
    } else {
        assert((((word & !m) | (replicated(code) & m)) >> shift) & 0xF == (word >> shift) & 0xF)
            by (bit_vector)
            requires
                m & (0xFu32 << shift) == 0,
                shift <= 28,
        ;
    }
}

/// Configuring the same pins in the same way a second time leaves every
/// register as the first time left it.
pub proof fn law_configuration_is_idempotent(
    before: BusState,
    port: Port,
    pins: Seq<Pin>,
    writable: bool,
    function: Function,
    pull: Pull,
)
    ensures
        configured(
            configured(before, port, pins, writable, function, pull),
            port,
            pins,
            writable,
            function,
            pull,
        ).words == configured(before, port, pins, writable, function, pull).words,
{
    let once = configured(before, port, pins, writable, function, pull);
    let twice = configured(once, port, pins, writable, function, pull);
    let bits = pin_bits(pins);
    lemma_configured_words(before, port, pins, writable, function, pull);
    lemma_configured_words(once, port, pins, writable, function, pull);
    lemma_bits_set_twice(before.words[port.commit()], bits);
    lemma_bits_set_twice(before.words[port.direction()], bits);
    lemma_bits_cleared_twice(before.words[port.direction()], bits);
    lemma_bits_set_twice(before.words[port.alternate_function_select()], bits);
    lemma_bits_cleared_twice(before.words[port.alternate_function_select()], bits);
    lemma_bits_set_twice(before.words[port.pull_up_select()], bits);
    lemma_bits_cleared_twice(before.words[port.pull_up_select()], bits);
    lemma_bits_set_twice(before.words[port.pull_down_select()], bits);
    lemma_bits_cleared_twice(before.words[port.pull_down_select()], bits);
    lemma_bits_set_twice(before.words[port.analog_mode_select()], bits);
    lemma_bits_cleared_twice(before.words[port.analog_mode_select()], bits);
    lemma_bits_set_twice(before.words[port.digital_enable()], bits);
    lemma_bits_cleared_twice(before.words[port.digital_enable()], bits);
    if let Some(code) = function.mux_code() {
        lemma_mux_word_twice(before.words[port.port_control()], pins, code);
    }
    assert forall|address: u32| twice.words[address] == once.words[address] by {}
    lemma_configured_domain(before, port, pins, writable, function, pull);
    lemma_configured_domain(once, port, pins, writable, function, pull);
    assert forall|address: u32|
        twice.words.dom().contains(address) == once.words.dom().contains(address) by {}
    assert(twice.words.dom() =~= once.words.dom());
    assert(twice.words =~= once.words);
}

/// The addresses that hold a word after the configuration sequence are those
/// that held one before and those that the sequence writes.
proof fn lemma_configured_domain(
    before: BusState,
    port: Port,
    pins: Seq<Pin>,
    writable: bool,
    function: Function,
    pull: Pull,
)
    ensures
        forall|address: u32|
            #[trigger] configured(
                before,
                port,
                pins,
                writable,
                function,
                pull,
            ).words.dom().contains(address) <==> before.words.dom().contains(address) || (is_configuration_register(
                port,
                address,
            ) && (address == port.port_control() ==> pins.len() > 0 && function.mux_code()
                is Some)),
{
    let bits = pin_bits(pins);
    let unlocked = before.write(port.lock(), UNLOCK).set_bits(
        port.commit(),
        bits,
    );
    let directed = direction_selected(unlocked, port, bits, writable);
    let routed = alternate_selected(directed, port, bits, function);
    let pulled = pull_selected(routed, port, bits, pull);
    let moded = analog_selected(pulled, port, bits, function);
    if let Some(code) = function.mux_code() {
        lemma_mux_selected_words(moded, port.port_control(), pins, code);
    }
}

/// After configuration, the pull-up bit of each configured pin is set
/// exactly for `Pull::Up` and its pull-down bit exactly for `Pull::Down`, so
/// that the two are never set together.
pub proof fn law_pull_resistors_exclude_each_other(
    before: BusState,
    port: Port,
    pins: Seq<Pin>,
    writable: bool,
    function: Function,
    pull: Pull,
    i: int,
)
    requires
        0 <= i < pins.len(),
    ensures
        ({
            let after = configured(before, port, pins, writable, function, pull).words;
            let bit = pins[i].index();
            &&& bit_is_set(after[port.pull_up_select()], bit) == (pull is Up)
            &&& bit_is_set(after[port.pull_down_select()], bit) == (pull is Down)
            &&& !(bit_is_set(after[port.pull_up_select()], bit) && bit_is_set(
                after[port.pull_down_select()],
                bit,
            ))
        }),
{
    let bits = pin_bits(pins);
    let bit = pins[i].index();
    assert(bits[i] == bit);
    lemma_configured_words(before, port, pins, writable, function, pull);
    lemma_bits_set_bit(before.words[port.pull_up_select()], bits, bit);
    lemma_bits_cleared_bit(before.words[port.pull_up_select()], bits, bit);
    lemma_bits_set_bit(before.words[port.pull_down_select()], bits, bit);
    lemma_bits_cleared_bit(before.words[port.pull_down_select()], bits, bit);
}

/// After configuration, each configured pin has its commit bit set, its
/// direction bit set exactly for an output, its alternate function bit set
/// exactly for a peripheral's function, its analog mode bit set exactly for
/// `Analog` and its digital enable bit set exactly where the function asks
/// for the digital buffer, never both of the last two; and unless the
/// function is analog, its four port control bits hold the function's mux
/// code.
pub proof fn law_configured_pin(
    before: BusState,
    port: Port,
    pins: Seq<Pin>,
    writable: bool,
    function: Function,
    pull: Pull,
    i: int,
)
    requires
        0 <= i < pins.len(),
    ensures
        ({
            let after = configured(before, port, pins, writable, function, pull).words;
            let bit = pins[i].index();
            &&& bit_is_set(after[port.commit()], bit)
            &&& bit_is_set(after[port.direction()], bit) == writable
            &&& bit_is_set(after[port.alternate_function_select()], bit) == function.is_alternate()
            &&& bit_is_set(after[port.analog_mode_select()], bit) == (function is Analog)
            &&& bit_is_set(after[port.digital_enable()], bit) == (function.digital_enable() == Some(
                true,
            ))
            &&& !(bit_is_set(after[port.analog_mode_select()], bit) && bit_is_set(
                after[port.digital_enable()],
                bit,
            ))
            &&& match function.mux_code() {
                Some(code) => (after[port.port_control()] >> ((4 * bit) as u32)) & 0xF == code,
                None => after[port.port_control()] == before.words[port.port_control()],
            }
        }),
{
    let bits = pin_bits(pins);
    let bit = pins[i].index();
    assert(bits[i] == bit);
    lemma_configured_words(before, port, pins, writable, function, pull);
    lemma_bits_set_bit(before.words[port.commit()], bits, bit);
    lemma_bits_set_bit(before.words[port.direction()], bits, bit);
    lemma_bits_cleared_bit(before.words[port.direction()], bits, bit);
    lemma_bits_set_bit(before.words[port.alternate_function_select()], bits, bit);
    lemma_bits_cleared_bit(before.words[port.alternate_function_select()], bits, bit);
    lemma_bits_set_bit(before.words[port.analog_mode_select()], bits, bit);
    lemma_bits_cleared_bit(before.words[port.analog_mode_select()], bits, bit);
    lemma_bits_set_bit(before.words[port.digital_enable()], bits, bit);
    lemma_bits_cleared_bit(before.words[port.digital_enable()], bits, bit);
    if let Some(code) = function.mux_code() {
        lemma_mux_word_nibble(before.words[port.port_control()], pins, code, pins[i]);
        assert(code & 0xF == code) by (bit_vector)
            requires
                code <= 8,
        ;
    }
}

/// Configuration leaves the bits of every pin that is not among the
/// configured ones as they were, in each register, and so the four port
/// control bits of such a pin.
pub proof fn law_other_pins_untouched(
    before: BusState,
    port: Port,
    pins: Seq<Pin>,
    writable: bool,
    function: Function,
    pull: Pull,
    other: Pin,
)
    requires
        !pins.contains(other),
    ensures
        ({
            let after = configured(before, port, pins, writable, function, pull).words;
            let bit = other.index();
            &&& bit_is_set(after[port.commit()], bit) == bit_is_set(
                before.words[port.commit()],
                bit,
            )
            &&& bit_is_set(after[port.direction()], bit) == bit_is_set(
                before.words[port.direction()],
                bit,
            )
            &&& bit_is_set(after[port.alternate_function_select()], bit) == bit_is_set(
                before.words[port.alternate_function_select()],
                bit,
            )
            &&& bit_is_set(after[port.pull_up_select()], bit) == bit_is_set(
                before.words[port.pull_up_select()],
                bit,
            )
            &&& bit_is_set(after[port.pull_down_select()], bit) == bit_is_set(
                before.words[port.pull_down_select()],
                bit,
            )
            &&& bit_is_set(after[port.analog_mode_select()], bit) == bit_is_set(
                before.words[port.analog_mode_select()],
                bit,
            )
            &&& bit_is_set(after[port.digital_enable()], bit) == bit_is_set(
                before.words[port.digital_enable()],
                bit,
            )
            &&& (after[port.port_control()] >> ((4 * bit) as u32)) & 0xF == (
            before.words[port.port_control()] >> ((4 * bit) as u32)) & 0xF
        }),
{
    let bits = pin_bits(pins);
    let bit = other.index();
    if bits.contains(bit) {
        let i = choose|i: int| 0 <= i < bits.len() && bits[i] == bit;
        assert(pins[i] == other);
    }
    lemma_configured_words(before, port, pins, writable, function, pull);
    lemma_bits_set_bit(before.words[port.commit()], bits, bit);
    lemma_bits_set_bit(before.words[port.direction()], bits, bit);
    lemma_bits_cleared_bit(before.words[port.direction()], bits, bit);
    lemma_bits_set_bit(before.words[port.alternate_function_select()], bits, bit);
    lemma_bits_cleared_bit(before.words[port.alternate_function_select()], bits, bit);
    lemma_bits_set_bit(before.words[port.pull_up_select()], bits, bit);
    lemma_bits_cleared_bit(before.words[port.pull_up_select()], bits, bit);
    lemma_bits_set_bit(before.words[port.pull_down_select()], bits, bit);
    lemma_bits_cleared_bit(before.words[port.pull_down_select()], bits, bit);
    lemma_bits_set_bit(before.words[port.analog_mode_select()], bits, bit);
    lemma_bits_cleared_bit(before.words[port.analog_mode_select()], bits, bit);
    lemma_bits_set_bit(before.words[port.digital_enable()], bits, bit);
    lemma_bits_cleared_bit(before.words[port.digital_enable()], bits, bit);
    if let Some(code) = function.mux_code() {
        lemma_mux_word_nibble(before.words[port.port_control()], pins, code, other);
    }
}

/// Whether an access reads or writes the register at `address`.
pub open spec fn touches(access: Access, address: u32) -> bool {
    match access {
        Access::Read { address: read } => read == address,
        Access::Write { address: written, word } => written == address,
        Access::NoOp => false,
    }
}

/// Selecting a mux code for pins adds two accesses per pin to the journal,
/// all of them to the port control register, and leaves what was in the
/// journal before in its place.
pub proof fn lemma_mux_selected_journal(state: BusState, address: u32, pins: Seq<Pin>, code: u32)
    ensures
        ({
            let journal = mux_selected(state, address, pins, code).journal;
            &&& journal.len() == state.journal.len() + 2 * pins.len()
            &&& forall|k: int| 0 <= k < state.journal.len() ==> journal[k] == state.journal[k]
            &&& forall|k: int|
                state.journal.len() <= k < journal.len() ==> touches(#[trigger] journal[k], address)
        }),
    decreases pins.len(),
{
    if pins.len() > 0 {
        lemma_mux_selected_journal(state, address, pins.drop_last(), code);
    }
}

/// The configuration sequence opens with the unlock key written to the lock
/// register and the commit bits of the pins set, closes with the port locked
/// again, and touches the lock register at no time in between. What was in
/// the journal before stays in its place.
pub proof fn law_configuration_is_bracketed_by_the_lock(
    before: BusState,
    port: Port,
    pins: Seq<Pin>,
    writable: bool,
    function: Function,
    pull: Pull,
)
    ensures
        ({
            let journal = configured(before, port, pins, writable, function, pull).journal;
            let start = before.journal.len() as int;
            &&& journal.len() == start + 16 + if function.mux_code() is Some {
                2 * pins.len()
            } else {
                0
            }
            &&& journal.subrange(0, start) == before.journal
            &&& journal[start] == (Access::Write { address: port.lock(), word: UNLOCK })
            &&& journal[start + 1] == (Access::Read { address: port.commit() })
            &&& journal[start + 2] == (Access::Write {
                address: port.commit(),
                word: bits_set(before.words[port.commit()], pin_bits(pins)),
            })
            &&& journal.last() == (Access::Write { address: port.lock(), word: 0 })
            &&& forall|k: int|
                start < k < journal.len() - 1 ==> !touches(#[trigger] journal[k], port.lock())
        }),
{
    let bits = pin_bits(pins);
    let unlocked = before.write(port.lock(), UNLOCK).set_bits(port.commit(), bits);
    let directed = direction_selected(unlocked, port, bits, writable);
    let routed = alternate_selected(directed, port, bits, function);
    let pulled = pull_selected(routed, port, bits, pull);
    let moded = analog_selected(pulled, port, bits, function);
    let journal = configured(before, port, pins, writable, function, pull).journal;
    let start = before.journal.len() as int;
    assert(moded.journal.len() == start + 13);
    assert(forall|k: int| 0 <= k < start ==> moded.journal[k] == before.journal[k]);
    assert(forall|k: int|
        start < k < start + 13 ==> !touches(#[trigger] moded.journal[k], port.lock()));
    if let Some(code) = function.mux_code() {
        lemma_mux_selected_journal(moded, port.port_control(), pins, code);
    }
    assert(journal.subrange(0, start) =~= before.journal);
}

/// Reading a group of pins right after writing levels to it gives back the
/// levels that were written, provided that no pin is in the group twice.
pub proof fn law_write_all_then_read_all(
    before: BusState,
    data_address: u32,
    pins: Seq<Pin>,
    values: Seq<bool>,
)
    requires
        pins.no_duplicates(),
        values.len() == pins.len(),
    ensures
        bits_read(
            before.write_bits(data_address, pin_bits(pins), values).words[data_address],
            pin_bits(pins),
        ) == values,
{
    let bits = pin_bits(pins);
    assert forall|i: int, j: int|
        0 <= i < bits.len() && 0 <= j < bits.len() && i != j implies bits[i] != bits[j] by {
        assert(pins[i] != pins[j]);
    }
    lemma_read_after_write(before.words[data_address], bits, values);
}

} // verus!
