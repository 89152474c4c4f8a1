//! Access to 32-bit registers: single reads and writes, read-modify-write,
//! and operations on named bit positions of one word.

use vstd::prelude::*;

verus! {

/// One thing done on the register bus.
#[derive(Clone, Copy, Debug, PartialEq, Eq, Structural)]
pub enum Access {
    /// The word at `address` was read.
    Read { address: u32 },
    /// `word` was written to `address`.
    Write { address: u32, word: u32 },
    /// One idle cycle passed without any access.
    NoOp,
}

/// What a bus looks like to the drivers: the word held at each address, and
/// everything that has been done on the bus so far, oldest first.
pub ghost struct BusState {
    pub words: Map<u32, u32>,
    pub journal: Seq<Access>,
}

impl BusState {
    /// The state after reading the word at `address`.
    pub open spec fn read(self, address: u32) -> BusState {
        BusState { words: self.words, journal: self.journal.push(Access::Read { address }) }
    }

    /// The state after writing `word` to `address`.
    pub open spec fn write(self, address: u32, word: u32) -> BusState {
        BusState {
            words: self.words.insert(address, word),
            journal: self.journal.push(Access::Write { address, word }),
        }
    }

    /// The state after one idle cycle.
    pub open spec fn no_op(self) -> BusState {
        BusState { words: self.words, journal: self.journal.push(Access::NoOp) }
    }

    /// The state after `n` idle cycles.
    pub open spec fn no_ops(self, n: nat) -> BusState
        decreases n,
    {
        if n == 0 {
            self
        } else {
            self.no_ops((n - 1) as nat).no_op()
        }
    }

    /// The state after one read-modify-write of `address` that leaves `word`
    /// there: a read, then a write, with nothing in between.
    pub open spec fn modify(self, address: u32, word: u32) -> BusState {
        self.read(address).write(address, word)
    }
}

/// A register bus under exclusive, uninterrupted access. A read returns the
/// word last written to the address; a write changes that address alone.
/// What a device does to its registers on its own is outside this model, and
/// so is whatever else may reach the bus between two accesses of one
/// operation: where interrupts are enabled, the caller wraps each operation
/// in a critical section.
pub trait Bus {
    /// The bus as the contracts speak of it. It exists for the verifier
    /// alone and is never asked for when the program runs.
    spec fn view(&self) -> BusState;

    /// Reads the word at `address`.
    fn read(&mut self, address: u32) -> (word: u32)
        ensures
            word == old(self)@.words[address],
            final(self)@ == old(self)@.read(address),
    ;

    /// Writes `word` to `address`.
    fn write(&mut self, address: u32, word: u32)
        ensures
            final(self)@ == old(self)@.write(address, word),
    ;

    /// Lets one cycle pass without touching the bus.
    fn no_op(&mut self)
        ensures
            final(self)@ == old(self)@.no_op(),
    ;
}

/// Reads the word at `address`.
pub fn read<B: Bus>(bus: &mut B, address: u32) -> (word: u32)
    ensures
        word == old(bus)@.words[address],
        final(bus)@ == old(bus)@.read(address),
{
    bus.read(address)
}

/// Writes `new` to `address`.
pub fn write<B: Bus>(bus: &mut B, address: u32, new: u32)
    ensures
        final(bus)@ == old(bus)@.write(address, new),
{
    bus.write(address, new)
}

/// Replaces the word at `address` by what `updater` makes of it, in one
/// read followed by one write.
pub fn update<B: Bus, F: Fn(u32) -> u32>(bus: &mut B, address: u32, updater: &F)
    requires
        call_requires(updater, (old(bus)@.words[address],)),
    ensures
        call_ensures(updater, (old(bus)@.words[address],), final(bus)@.words[address]),
        final(bus)@ == old(bus)@.modify(address, final(bus)@.words[address]),
{
    let current = bus.read(address);
    let new = updater(current);
    bus.write(address, new);
}

/// Whether every entry of `bits` names a bit of a 32-bit word.
pub open spec fn bits_in_word(bits: Seq<u32>) -> bool {
    forall|i: int| 0 <= i < bits.len() ==> bits[i] < 32
}

/// Whether bit number `bit` of `word` is set.
pub open spec fn bit_is_set(word: u32, bit: u32) -> bool {
    word & (1u32 << bit) != 0
}

/// `word` with bit number `bit` set.
pub open spec fn with_bit_set(word: u32, bit: u32) -> u32 {
    word | (1u32 << bit)
}

/// `word` with bit number `bit` cleared.
pub open spec fn with_bit_cleared(word: u32, bit: u32) -> u32 {
    word & !(1u32 << bit)
}

/// `word` with bit number `bit` inverted.
pub open spec fn with_bit_toggled(word: u32, bit: u32) -> u32 {
    word ^ (1u32 << bit)
}

/// `word` with bit number `bit` made equal to `value`.
pub open spec fn with_bit(word: u32, bit: u32, value: bool) -> u32 {
    if value {
        with_bit_set(word, bit)
    } else {
        with_bit_cleared(word, bit)
    }
}

/// The named bits of `word`, one boolean per entry of `bits`, in that order.
pub open spec fn bits_read(word: u32, bits: Seq<u32>) -> Seq<bool> {
    Seq::new(bits.len(), |i: int| bit_is_set(word, bits[i]))
}

/// `word` after each named bit, taken in order, was made equal to the value
/// at the same position of `values`.
pub open spec fn bits_written(word: u32, bits: Seq<u32>, values: Seq<bool>) -> u32
    decreases bits.len(),
{
    if bits.len() == 0 {
        word
    } else {
        with_bit(
            bits_written(word, bits.drop_last(), values),
            bits.last(),
            values[bits.len() - 1],
        )
    }
}

/// `word` after each named bit was set.
pub open spec fn bits_set(word: u32, bits: Seq<u32>) -> u32
    decreases bits.len(),
{
    if bits.len() == 0 {
        word
    } else {
        with_bit_set(bits_set(word, bits.drop_last()), bits.last())
    }
}

/// `word` after each named bit was cleared.
pub open spec fn bits_cleared(word: u32, bits: Seq<u32>) -> u32
    decreases bits.len(),
{
    if bits.len() == 0 {
        word
    } else {
        with_bit_cleared(bits_cleared(word, bits.drop_last()), bits.last())
    }
}

/// `word` after each named bit, taken in order, was inverted. A bit named
/// twice is back where it was.
pub open spec fn bits_toggled(word: u32, bits: Seq<u32>) -> u32
    decreases bits.len(),
{
    if bits.len() == 0 {
        word
    } else {
        with_bit_toggled(bits_toggled(word, bits.drop_last()), bits.last())
    }
}

impl BusState {
    /// The state after the named bits of the word at `address` were set in
    /// one read-modify-write.
    pub open spec fn set_bits(self, address: u32, bits: Seq<u32>) -> BusState {
        self.modify(address, bits_set(self.words[address], bits))
    }

    /// The state after the named bits of the word at `address` were cleared
    /// in one read-modify-write.
    pub open spec fn clear_bits(self, address: u32, bits: Seq<u32>) -> BusState {
        self.modify(address, bits_cleared(self.words[address], bits))
    }

    /// The state after the named bits of the word at `address` were inverted
    /// in one read-modify-write.
    pub open spec fn toggle_bits(self, address: u32, bits: Seq<u32>) -> BusState {
        self.modify(address, bits_toggled(self.words[address], bits))
    }

    /// The state after the named bits of the word at `address` were made
    /// equal to `values` in one read-modify-write.
    pub open spec fn write_bits(
        self,
        address: u32,
        bits: Seq<u32>,
        values: Seq<bool>,
    ) -> BusState {
        self.modify(address, bits_written(self.words[address], bits, values))
    }
}

/// The named bits of `word`, in the order in which `bits` names them.
pub fn bits_of_word<const N: usize>(word: u32, bits: &[u32; N]) -> (values: [bool; N])
    requires
        bits_in_word(bits@),
    ensures
        values@ == bits_read(word, bits@),
{
    let mut values = [false;N];
    let mut i: usize = 0;
    while i < N
        invariant
            i <= N,
            bits_in_word(bits@),
            forall|k: int| 0 <= k < i ==> values[k] == bit_is_set(word, bits[k]),
        decreases N - i,
    {
        values[i] = word & (1u32 << bits[i]) != 0;
        i += 1;
    }
    assert(values@ =~= bits_read(word, bits@));
    values
}

/// `word` with each named bit made equal to the value at the same position
/// of `values`.
pub fn word_with_bits<const N: usize>(word: u32, bits: &[u32; N], values: &[bool; N]) -> (new: u32)
    requires
        bits_in_word(bits@),
    ensures
        new == bits_written(word, bits@, values@),
{
    let mut new = word;
    let mut i: usize = 0;
    while i < N
        invariant
            i <= N,
            bits_in_word(bits@),
            new == bits_written(word, bits@.take(i as int), values@),
        decreases N - i,
    {
        assert(bits@.take(i + 1).drop_last() =~= bits@.take(i as int));
        if values[i] {
            new = new | (1u32 << bits[i]);
        } else {
            new = new & !(1u32 << bits[i]);
        }
        i += 1;
    }
    assert(bits@.take(N as int) =~= bits@);
    new
}

/// `word` with each named bit set.
pub fn word_with_bits_set(word: u32, bits: &[u32]) -> (new: u32)
    requires
        bits_in_word(bits@),
    ensures
        new == bits_set(word, bits@),
{
    let mut new = word;
    let mut i: usize = 0;
    while i < bits.len()
        invariant
            i <= bits.len(),
            bits_in_word(bits@),
            new == bits_set(word, bits@.take(i as int)),
        decreases bits.len() - i,
    {
        assert(bits@.take(i + 1).drop_last() =~= bits@.take(i as int));
        new = new | (1u32 << bits[i]);
        i += 1;
    }
    assert(bits@.take(bits.len() as int) =~= bits@);
    new
}

/// `word` with each named bit cleared.
pub fn word_with_bits_cleared(word: u32, bits: &[u32]) -> (new: u32)
    requires
        bits_in_word(bits@),
    ensures
        new == bits_cleared(word, bits@),
{
    let mut new = word;
    let mut i: usize = 0;
    while i < bits.len()
        invariant
            i <= bits.len(),
            bits_in_word(bits@),
            new == bits_cleared(word, bits@.take(i as int)),
        decreases bits.len() - i,
    {
        assert(bits@.take(i + 1).drop_last() =~= bits@.take(i as int));
        new = new & !(1u32 << bits[i]);
        i += 1;
    }
    assert(bits@.take(bits.len() as int) =~= bits@);
    new
}

/// `word` with each named bit, taken in order, inverted.
pub fn word_with_bits_toggled(word: u32, bits: &[u32]) -> (new: u32)
    requires
        bits_in_word(bits@),
    ensures
        new == bits_toggled(word, bits@),
{
    let mut new = word;
    let mut i: usize = 0;
    while i < bits.len()
        invariant
            i <= bits.len(),
            bits_in_word(bits@),
            new == bits_toggled(word, bits@.take(i as int)),
        decreases bits.len() - i,
    {
        assert(bits@.take(i + 1).drop_last() =~= bits@.take(i as int));
        new = new ^ (1u32 << bits[i]);
        i += 1;
    }
    assert(bits@.take(bits.len() as int) =~= bits@);
    new
}

/// Reads the word at `address` and returns its named bits, in the order in
/// which `bits` names them.
pub fn read_bits<B: Bus, const N: usize>(bus: &mut B, address: u32, bits: &[u32; N]) -> (values:
    [bool; N])
    requires
        bits_in_word(bits@),
    ensures
        values@ == bits_read(old(bus)@.words[address], bits@),
        final(bus)@ == old(bus)@.read(address),
{
    let current = read(bus, address);
    bits_of_word(current, bits)
}

/// Makes each named bit of the word at `address` equal to the value at the
/// same position of `values`, and leaves the other bits as they are: one
/// read, then one write.
pub fn write_bits<B: Bus, const N: usize>(
    bus: &mut B,
    address: u32,
    bits: &[u32; N],
    values: [bool; N],
)
    requires
        bits_in_word(bits@),
    ensures
        final(bus)@ == old(bus)@.write_bits(address, bits@, values@),
{
    let updater = |current: u32| -> (new: u32)
        ensures
            new == bits_written(current, bits@, values@),
        {
            word_with_bits(current, bits, &values)
        };
    update(bus, address, &updater)
}

/// Sets each named bit of the word at `address`: one read, then one write.
pub fn set_bits<B: Bus>(bus: &mut B, address: u32, bits: &[u32])
    requires
        bits_in_word(bits@),
    ensures
        final(bus)@ == old(bus)@.set_bits(address, bits@),
{
    let updater = |current: u32| -> (new: u32)
        ensures
            new == bits_set(current, bits@),
        {
            word_with_bits_set(current, bits)
        };
    update(bus, address, &updater)
}

/// Clears each named bit of the word at `address`: one read, then one write.
pub fn clear_bits<B: Bus>(bus: &mut B, address: u32, bits: &[u32])
    requires
        bits_in_word(bits@),
    ensures
        final(bus)@ == old(bus)@.clear_bits(address, bits@),
{
    let updater = |current: u32| -> (new: u32)
        ensures
            new == bits_cleared(current, bits@),
        {
            word_with_bits_cleared(current, bits)
        };
    update(bus, address, &updater)
}

/// Inverts each named bit of the word at `address`: one read, then one
/// write.
pub fn toggle_bits<B: Bus>(bus: &mut B, address: u32, bits: &[u32])
    requires
        bits_in_word(bits@),
    ensures
        final(bus)@ == old(bus)@.toggle_bits(address, bits@),
{
    let updater = |current: u32| -> (new: u32)
        ensures
            new == bits_toggled(current, bits@),
        {
            word_with_bits_toggled(current, bits)
        };
    update(bus, address, &updater)
}

} // verus!
