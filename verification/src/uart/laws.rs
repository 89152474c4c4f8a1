//! What bringing up a UART port leaves in its registers, and how the
//! baud-rate divisor is rounded.

use crate::bit_laws::{lemma_bits_set_bit, lemma_bits_written_bit};
use crate::board::Board;
use crate::memory::{
    bit_is_set, bits_cleared, bits_set, bits_written, Access, BusState,
};
use crate::uart::{
    brought_up, divisor_fraction, divisor_integer, refusal, Port, PortOptions, CLOCK_DIVIDER,
    CLOCK_SETTLE_NO_OPS, SYSTEM_OSC_CLOCK_SPEED,
};
use vstd::prelude::*;

verus! {

/// The divisor's whole part and its sixty-fourths are those of the exact
/// quotient `clock_hz / (16 * baud_rate)`: the whole part is the largest
/// integer not above the quotient, and the sixty-fourths are the integer
/// nearest to 64 times the rest, with a half counted upwards.
pub proof fn law_divisor_rounds_to_nearest(clock_hz: u32, baud_rate: u32)
    requires
        baud_rate > 0,
    ensures
        ({
            let divider = CLOCK_DIVIDER * baud_rate;
            let integer = divisor_integer(clock_hz, baud_rate);
            let fraction = divisor_fraction(clock_hz, baud_rate);
            let rest = clock_hz - integer * divider;
            &&& 0 <= rest < divider
            &&& 0 <= fraction <= 64
            &&& 2 * divider * fraction <= 2 * 64 * rest + divider < 2 * divider * (fraction + 1)
        }),
{
    let divider = CLOCK_DIVIDER * baud_rate;
    let clock = clock_hz as int;
    let rest = clock % divider;
    assert(clock == divider * (clock / divider) + rest && 0 <= rest < divider)
        by (nonlinear_arith)
        requires
            divider > 0,
            rest == clock % divider,
    ;
    assert(clock - (clock / divider) * divider == rest) by (nonlinear_arith)
        requires
            clock == divider * (clock / divider) + rest,
    ;
    let numerator = 128 * rest + divider;
    let fraction = numerator / (2 * divider);
    assert(2 * divider * fraction <= numerator < 2 * divider * (fraction + 1) && 0 <= fraction
        <= 64) by (nonlinear_arith)
        requires
            divider > 0,
            0 <= rest < divider,
            numerator == 128 * rest + divider,
            fraction == numerator / (2 * divider),
    ;
}

/// After a port was brought up, its clock gate is open, its divisor
/// registers hold the divisor for the baud rate, its line control register
/// holds the word length and the FIFO setting, and the port is enabled.
pub proof fn law_brought_up_registers(before: BusState, port: Port, options: PortOptions)
    requires
        refusal(port, options) is None,
    ensures
        ({
            let after = brought_up(before, port, options).words;
            &&& bit_is_set(
                after[Board.run_mode_clock_gating_control_1()],
                port.run_mode_clock_gating_control_bit().unwrap(),
            )
            &&& after[port.integer_baud_rate_divisor()] == divisor_integer(
                SYSTEM_OSC_CLOCK_SPEED,
                options.baud_rate,
            )
            &&& after[port.fractional_baud_rate_divisor()] == divisor_fraction(
                SYSTEM_OSC_CLOCK_SPEED,
                options.baud_rate,
            )
            &&& bit_is_set(after[port.line_control()], 6) == (options.word_length
                is Seven || options.word_length is Eight)
            &&& bit_is_set(after[port.line_control()], 5) == (options.word_length
                is Six || options.word_length is Eight)
            &&& bit_is_set(after[port.line_control()], port.enable_fifos_bit()) == options.fifos
            &&& bit_is_set(after[port.control()], port.enable_bit())
        }),
{
    let gate_bits = seq![port.run_mode_clock_gating_control_bit().unwrap()];
    let enable_bits = seq![port.enable_bit()];
    let length_bits = seq![6u32, 5u32];
    let fifo_bits = seq![port.enable_fifos_bit()];
    let gated = before.set_bits(Board.run_mode_clock_gating_control_1(), gate_bits);
    let settled = gated.no_ops(CLOCK_SETTLE_NO_OPS as nat);
    lemma_no_ops_keep_words(gated, CLOCK_SETTLE_NO_OPS as nat);
    let disabled = settled.clear_bits(port.control(), enable_bits);
    let divided = disabled.write(
        port.integer_baud_rate_divisor(),
        divisor_integer(SYSTEM_OSC_CLOCK_SPEED, options.baud_rate) as u32,
    ).write(
        port.fractional_baud_rate_divisor(),
        divisor_fraction(SYSTEM_OSC_CLOCK_SPEED, options.baud_rate) as u32,
    );
    law_divisor_rounds_to_nearest(SYSTEM_OSC_CLOCK_SPEED, options.baud_rate);
    assert(0 <= divisor_integer(SYSTEM_OSC_CLOCK_SPEED, options.baud_rate)
        <= SYSTEM_OSC_CLOCK_SPEED) by (nonlinear_arith)
        requires
            options.baud_rate > 0,
    ;
    let first = divided.write_bits(
        port.line_control(),
        length_bits,
        options.word_length.pattern_bits(),
    );
    let framed = first.write_bits(port.line_control(), fifo_bits, seq![options.fifos]);
    let lengths = first.words[port.line_control()];
    assert(gate_bits[0] == port.run_mode_clock_gating_control_bit().unwrap());
    assert(enable_bits[0] == port.enable_bit());
    assert(fifo_bits[0] == port.enable_fifos_bit());
    assert(length_bits[0] == 6 && length_bits[1] == 5);
    lemma_bits_set_bit(
        before.words[Board.run_mode_clock_gating_control_1()],
        gate_bits,
        gate_bits[0],
    );
    lemma_bits_written_bit(
        divided.words[port.line_control()],
        length_bits,
        options.word_length.pattern_bits(),
        6,
    );
    lemma_bits_written_bit(
        divided.words[port.line_control()],
        length_bits,
        options.word_length.pattern_bits(),
        5,
    );
    lemma_bits_written_bit(lengths, fifo_bits, seq![options.fifos], 6);
    lemma_bits_written_bit(lengths, fifo_bits, seq![options.fifos], 5);
    lemma_bits_written_bit(lengths, fifo_bits, seq![options.fifos], 4);
    lemma_bits_set_bit(framed.words[port.control()], enable_bits, 0);
}

/// Bringing up a port adds exactly these accesses to the journal, in this
/// order: the clock gate is opened; seven idle cycles pass before the first
/// of the port's own registers is touched; the port is disabled; the integer
/// and the fractional divisor are written; the line control register is
/// changed twice; and the port is enabled.
pub proof fn law_brought_up_journal(before: BusState, port: Port, options: PortOptions)
    requires
        refusal(port, options) is None,
    ensures
        ({
            let after = brought_up(before, port, options);
            let gate = Board.run_mode_clock_gating_control_1();
            let gate_word = bits_set(
                before.words[gate],
                seq![port.run_mode_clock_gating_control_bit().unwrap()],
            );
            let disabled_word = bits_cleared(before.words[port.control()], seq![0u32]);
            let length_word = bits_written(
                before.words[port.line_control()],
                seq![6u32, 5u32],
                options.word_length.pattern_bits(),
            );
            let fifo_word = bits_written(length_word, seq![4u32], seq![options.fifos]);
            after.journal == before.journal + seq![
                Access::Read { address: gate },
                Access::Write { address: gate, word: gate_word },
                Access::NoOp,
                Access::NoOp,
                Access::NoOp,
                Access::NoOp,
                Access::NoOp,
                Access::NoOp,
                Access::NoOp,
                Access::Read { address: port.control() },
                Access::Write { address: port.control(), word: disabled_word },
                Access::Write {
                    address: port.integer_baud_rate_divisor(),
                    word: divisor_integer(SYSTEM_OSC_CLOCK_SPEED, options.baud_rate) as u32,
                },
                Access::Write {
                    address: port.fractional_baud_rate_divisor(),
                    word: divisor_fraction(SYSTEM_OSC_CLOCK_SPEED, options.baud_rate) as u32,
                },
                Access::Read { address: port.line_control() },
                Access::Write { address: port.line_control(), word: length_word },
                Access::Read { address: port.line_control() },
                Access::Write { address: port.line_control(), word: fifo_word },
                Access::Read { address: port.control() },
                Access::Write {
                    address: port.control(),
                    word: bits_set(disabled_word, seq![0u32]),
                },
            ]
        }),
{
    let gate = Board.run_mode_clock_gating_control_1();
    let gated = before.set_bits(gate, seq![port.run_mode_clock_gating_control_bit().unwrap()]);
    lemma_no_ops_keep_words(gated, CLOCK_SETTLE_NO_OPS as nat);
    assert(gated.no_ops(7).journal == gated.journal.push(Access::NoOp).push(Access::NoOp).push(
        Access::NoOp,
    ).push(Access::NoOp).push(Access::NoOp).push(Access::NoOp).push(Access::NoOp)) by {
        reveal_with_fuel(BusState::no_ops, 8);
    }
    let after = brought_up(before, port, options);
    let added = after.journal.subrange(before.journal.len() as int, after.journal.len() as int);
    assert(after.journal =~= before.journal + added);
}

/// Idle cycles leave every register as it is.
pub proof fn lemma_no_ops_keep_words(state: BusState, n: nat)
    ensures
        state.no_ops(n).words == state.words,
    decreases n,
{
    if n > 0 {
        lemma_no_ops_keep_words(state, (n - 1) as nat);
    }
}

} // verus!
