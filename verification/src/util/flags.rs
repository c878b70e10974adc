//! The bits of a datagram's first byte.

use vstd::prelude::*;

verus! {

/// Set in every datagram that belongs to a session.
pub const VALID: u8 = 0x80;

/// Whether a datagram with this first byte belongs to a session.
pub fn is_valid(header: u8) -> (b: bool)
    ensures
        b == (header >= VALID),
{
    assert((header & 0x80u8 != 0) == (header >= 0x80u8)) by (bit_vector);
    header & VALID != 0
}

} // verus!
