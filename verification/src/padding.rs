//! Alignment of encoded lengths to the four-byte XDR word.

use vstd::prelude::*;

verus! {

/// The number of filler bytes that bring a length of `sz` bytes up to the
/// next multiple of four.
pub open spec fn pad_len(sz: nat) -> nat {
    ((4 - sz % 4) % 4) as nat
}

/// `n` bytes, each of them zero.
pub open spec fn zeros(n: nat) -> Seq<u8> {
    Seq::new(n, |i: int| 0u8)
}

/// `b` followed by the zero bytes that bring its length up to a multiple of
/// four.
pub open spec fn padded(b: Seq<u8>) -> Seq<u8> {
    b + zeros(pad_len(b.len()))
}

/// Returns the number of padding bytes (0 to 3) needed after `sz` bytes.
pub fn padding(sz: usize) -> (pad: usize)
    ensures
        pad == pad_len(sz as nat),
        pad < 4,
        (sz + pad) % 4 == 0,
{
    (4 - (sz % 4)) % 4
}

} // verus!
