//! Turning bits into the byte levels an output device plays.

use vstd::prelude::*;

use crate::{AMPLITUDE_MAX, AMPLITUDE_MIN};

verus! {

/// The byte level of a bit.
pub open spec fn amplitude(bit: bool) -> u8 {
    if bit {
        AMPLITUDE_MAX
    } else {
        AMPLITUDE_MIN
    }
}

/// The byte level of one bit: `AMPLITUDE_MAX` when high, `AMPLITUDE_MIN` when low.
pub fn level(bit: bool) -> (r: u8)
    ensures
        r == amplitude(bit),
{
    if bit {
        AMPLITUDE_MAX
    } else {
        AMPLITUDE_MIN
    }
}

/// The byte levels of a buffer of bits, one per bit.
pub fn levels(buffer: &Vec<bool>) -> (r: Vec<u8>)
    ensures
        r@ == buffer@.map_values(|b: bool| amplitude(b)),
{
    let mut out: Vec<u8> = Vec::new();
    let mut i: usize = 0;
    while i < buffer.len()
        invariant
            i <= buffer.len(),
            out@ == buffer@.subrange(0, i as int).map_values(|b: bool| amplitude(b)),
        decreases buffer.len() - i,
    {
        out.push(level(buffer[i]));
        i = i + 1;
        assert(out@ =~= buffer@.subrange(0, i as int).map_values(|b: bool| amplitude(b)));
    }
    assert(buffer@.subrange(0, buffer.len() as int) =~= buffer@);
    out
}

} // verus!
