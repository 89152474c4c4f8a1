//! Small helpers on arrays of pins and values.

use crate::gpio::pins::Pin;
use vstd::prelude::*;

verus! {

/// The bit numbers of a list of pins, in the same order.
pub open spec fn pin_bits(pins: Seq<Pin>) -> Seq<u32> {
    Seq::new(pins.len(), |i: int| pins[i].index())
}

/// The bit number of each pin, in the same order.
pub fn pins_to_bits<const N: usize>(pins: &[Pin; N]) -> (bits: [u32; N])
    ensures
        bits@ == pin_bits(pins@),
{
    let mut bits = [0u32;N];
    let mut i: usize = 0;
    while i < N
        invariant
            i <= N,
            forall|k: int| 0 <= k < i ==> bits[k] == pins[k].index(),
        decreases N - i,
    {
        bits[i] = pins[i].index();
        i += 1;
    }
    assert(bits@ =~= pin_bits(pins@));
    bits
}

/// The array with its items in the opposite order.
pub fn reverse_array<const N: usize, T: Default + Copy>(array: [T; N]) -> (reversed: [T; N])
    ensures
        reversed@ == array@.reverse(),
{
    let mut result = array;
    let mut i: usize = 0;
    while i < N
        invariant
            i <= N,
            forall|k: int| 0 <= k < i ==> result[k] == array[N - 1 - k],
        decreases N - i,
    {
        result[i] = array[N - 1 - i];
        i += 1;
    }
    assert(result@ =~= array@.reverse());
    result
}

} // verus!
