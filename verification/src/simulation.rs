//! A register file in ordinary memory that stands in for the hardware: it
//! keeps the word written to each address and a journal of every access.

use crate::gpio::laws::{law_configured_pin, law_pull_resistors_exclude_each_other};
use crate::gpio::pins::{configured, Function, Pin, Pull};
use crate::gpio::ports::{data_offset, Port};
use crate::memory::{
    bit_is_set, bits_in_word, with_bit_cleared, with_bit_set, Access, Bus, BusState,
};
use crate::utils::{pin_bits, pins_to_bits};
use vstd::prelude::*;

verus! {

/// The word that a list of (address, word) entries holds for `address`: that
/// of the last entry for it, and zero where there is none.
pub open spec fn held(entries: Seq<(u32, u32)>, address: u32) -> u32
    decreases entries.len(),
{
    if entries.len() == 0 {
        0
    } else if entries.last().0 == address {
        entries.last().1
    } else {
        held(entries.drop_last(), address)
    }
}

proof fn lemma_held_after_update(entries: Seq<(u32, u32)>, index: int, word: u32, address: u32)
    requires
        0 <= index < entries.len(),
        forall|k: int| index < k < entries.len() ==> entries[k].0 != entries[index].0,
    ensures
        held(entries.update(index, (entries[index].0, word)), address) == if address
            == entries[index].0 {
            word
        } else {
            held(entries, address)
        },
    decreases entries.len(),
{
    let updated = entries.update(index, (entries[index].0, word));
    if index == entries.len() - 1 {
        assert(updated.drop_last() =~= entries.drop_last());
    } else {
        assert(updated.drop_last() =~= entries.drop_last().update(
            index,
            (entries[index].0, word),
        ));
        lemma_held_after_update(entries.drop_last(), index, word, address);
    }
}

/// The data word of a port once nothing drives pin number `bit` from outside:
/// an output shows what was driven onto it, an input with its pull-up
/// selected shows high, one with its pull-down selected shows low, and one
/// with neither stays as it was.
pub open spec fn input_released(
    data: u32,
    direction: u32,
    pull_up: u32,
    pull_down: u32,
    bit: u32,
) -> u32 {
    if bit_is_set(direction, bit) {
        data
    } else if bit_is_set(pull_up, bit) {
        with_bit_set(data, bit)
    } else if bit_is_set(pull_down, bit) {
        with_bit_cleared(data, bit)
    } else {
        data
    }
}

/// The data word of a port once nothing drives any of the named pins from
/// outside.
pub open spec fn inputs_released(
    data: u32,
    direction: u32,
    pull_up: u32,
    pull_down: u32,
    bits: Seq<u32>,
) -> u32
    decreases bits.len(),
{
    if bits.len() == 0 {
        data
    } else {
        input_released(
            inputs_released(data, direction, pull_up, pull_down, bits.drop_last()),
            direction,
            pull_up,
            pull_down,
            bits.last(),
        )
    }
}

/// Once nothing drives the named pins, the bit of each input among them
/// that has a pull resistor selected shows that resistor's level, and every
/// other bit of the data word is as it was.
pub proof fn lemma_inputs_released_bit(
    data: u32,
    direction: u32,
    pull_up: u32,
    pull_down: u32,
    bits: Seq<u32>,
    position: u32,
)
    requires
        bits_in_word(bits),
        position < 32,
    ensures
        bit_is_set(inputs_released(data, direction, pull_up, pull_down, bits), position) == if
            !bits.contains(position) || bit_is_set(direction, position) {
            bit_is_set(data, position)
        } else if bit_is_set(pull_up, position) {
            true
        } else if bit_is_set(pull_down, position) {
            false
        } else {
            bit_is_set(data, position)
        },
    decreases bits.len(),
{
    if bits.len() > 0 {
        let rest = bits.drop_last();
        let last = bits.last();
        let inner = inputs_released(data, direction, pull_up, pull_down, rest);
        lemma_inputs_released_bit(data, direction, pull_up, pull_down, rest, position);
        assert(bits[bits.len() - 1] == last);
        if rest.contains(position) {
            let i = choose|i: int| 0 <= i < rest.len() && rest[i] == position;
            assert(bits[i] == position);
        }
        if bits.contains(position) && last != position {
            let i = choose|i: int| 0 <= i < bits.len() && bits[i] == position;
            assert(rest[i] == position);
        }
        assert(((inner | (1u32 << last)) & (1u32 << position) != 0) == (last == position || (inner
            & (1u32 << position) != 0))) by (bit_vector)
            requires
                last < 32,
                position < 32,
        ;
        assert(((inner & !(1u32 << last)) & (1u32 << position) != 0) == (last != position && (inner
            & (1u32 << position) != 0))) by (bit_vector)
            requires
                last < 32,
                position < 32,
        ;
    }
}

/// An input that was configured with a pull resistor and is driven by
/// nothing else reads high with a pull-up and low with a pull-down, whatever
/// the data register showed before.
pub proof fn law_undriven_inputs_rest_at_their_pull(
    before: BusState,
    port: Port,
    pins: Seq<Pin>,
    function: Function,
    pull: Pull,
    data: u32,
    i: int,
)
    requires
        0 <= i < pins.len(),
        !(pull is Neither),
    ensures
        ({
            let after = configured(before, port, pins, false, function, pull).words;
            bit_is_set(
                inputs_released(
                    data,
                    after[port.direction()],
                    after[port.pull_up_select()],
                    after[port.pull_down_select()],
                    pin_bits(pins),
                ),
                pins[i].index(),
            ) == (pull is Up)
        }),
{
    let after = configured(before, port, pins, false, function, pull).words;
    let bits = pin_bits(pins);
    assert(bits[i] == pins[i].index());
    law_configured_pin(before, port, pins, false, function, pull, i);
    law_pull_resistors_exclude_each_other(before, port, pins, false, function, pull, i);
    lemma_inputs_released_bit(
        data,
        after[port.direction()],
        after[port.pull_up_select()],
        after[port.pull_down_select()],
        bits,
        pins[i].index(),
    );
}

/// A simulated register file. Every address holds zero until it is written.
pub struct RegisterFile {
    entries: Vec<(u32, u32)>,
    journal: Vec<Access>,
}

impl RegisterFile {
    /// A register file in which every word is zero and nothing has happened.
    pub fn new() -> (registers: RegisterFile)
        ensures
            forall|address: u32| registers@.words[address] == 0,
            registers@.journal == Seq::<Access>::empty(),
    {
        RegisterFile { entries: Vec::new(), journal: Vec::new() }
    }

    /// The position of the last entry for `address`, if there is one.
    fn find(&self, address: u32) -> (found: Option<usize>)
        ensures
            match found {
                Some(index) => {
                    &&& index < self.entries.len()
                    &&& self.entries[index as int].0 == address
                    &&& held(self.entries@, address) == self.entries[index as int].1
                    &&& forall|k: int|
                        index < k < self.entries.len() ==> self.entries[k].0 != address
                },
                None => held(self.entries@, address) == 0,
            },
    {
        let mut i: usize = self.entries.len();
        assert(self.entries@.take(i as int) =~= self.entries@);
        while i > 0
            invariant
                i <= self.entries.len(),
                held(self.entries@, address) == held(self.entries@.take(i as int), address),
                forall|k: int| i <= k < self.entries.len() ==> self.entries[k].0 != address,
            decreases i,
        {
            assert(self.entries@.take(i as int).drop_last() =~= self.entries@.take(i - 1));
            if self.entries[i - 1].0 == address {
                return Some(i - 1);
            }
            i -= 1;
        }
        None
    }

    /// The word held at `address`, looked up without leaving a trace in the
    /// journal.
    pub fn peek(&self, address: u32) -> (word: u32)
        ensures
            word == self@.words[address],
    {
        match self.find(address) {
            Some(index) => self.entries[index].1,
            None => 0,
        }
    }

    /// Puts `word` at `address` without leaving a trace in the journal, as a
    /// device does when it changes one of its registers.
    pub fn poke(&mut self, address: u32, word: u32)
        ensures
            final(self)@.words == old(self)@.words.insert(address, word),
            final(self)@.journal == old(self)@.journal,
    {
        let ghost before = self.entries@;
        match self.find(address) {
            Some(index) => {
                self.entries[index] = (address, word);
                proof {
                    assert forall|other: u32|
                        held(self.entries@, other) == if other == address {
                            word
                        } else {
                            held(before, other)
                        } by {
                        lemma_held_after_update(before, index as int, word, other);
                    }
                }
            },
            None => {
                self.entries.push((address, word));
                proof {
                    assert(self.entries@.drop_last() =~= before);
                }
            },
        }
        assert(self@.words =~= old(self)@.words.insert(address, word));
    }

    /// Takes any outside drive off the given pins of `port`, so that each
    /// input among them settles at the level of its pull resistor in the
    /// data register alias of the group. Leaves no trace in the journal.
    pub fn release_inputs<const N: usize>(&mut self, port: Port, pins: [Pin; N])
        ensures
            final(self)@.words == old(self)@.words.insert(
                (port.base() + data_offset(pins@)) as u32,
                inputs_released(
                    old(self)@.words[(port.base() + data_offset(pins@)) as u32],
                    old(self)@.words[port.direction()],
                    old(self)@.words[port.pull_up_select()],
                    old(self)@.words[port.pull_down_select()],
                    pin_bits(pins@),
                ),
            ),
            final(self)@.journal == old(self)@.journal,
    {
        let data_address = port.data(&pins);
        let bits = pins_to_bits(&pins);
        let direction = self.peek(port.direction());
        let pull_up = self.peek(port.pull_up_select());
        let pull_down = self.peek(port.pull_down_select());
        let current = self.peek(data_address);
        let mut data = current;
        let mut i: usize = 0;
        while i < N
            invariant
                i <= N,
                bits@ == pin_bits(pins@),
                data == inputs_released(
                    current,
                    direction,
                    pull_up,
                    pull_down,
                    bits@.take(i as int),
                ),
            decreases N - i,
        {
            assert(bits@.take(i + 1).drop_last() =~= bits@.take(i as int));
            let bit = bits[i];
            assert(bit == pins[i as int].index());
            if direction & (1u32 << bit) == 0 {
                if pull_up & (1u32 << bit) != 0 {
                    data = data | (1u32 << bit);
                } else if pull_down & (1u32 << bit) != 0 {
                    data = data & !(1u32 << bit);
                }
            }
            i += 1;
        }
        assert(bits@.take(N as int) =~= bits@);
        self.poke(data_address, data);
    }

    /// Every access made through the bus so far, oldest first.
    pub fn journal(&self) -> (journal: &Vec<Access>)
        ensures
            journal@ == self@.journal,
    {
        &self.journal
    }
}

impl Bus for RegisterFile {
    closed spec fn view(&self) -> BusState {
        BusState {
            words: Map::new(|address: u32| true, |address: u32| held(self.entries@, address)),
            journal: self.journal@,
        }
    }

    fn read(&mut self, address: u32) -> (word: u32) {
        let word = self.peek(address);
        self.journal.push(Access::Read { address });
        word
    }

    fn write(&mut self, address: u32, word: u32) {
        self.poke(address, word);
        self.journal.push(Access::Write { address, word });
    }

    fn no_op(&mut self) {
        self.journal.push(Access::NoOp);
    }
}

} // verus!
