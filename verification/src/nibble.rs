//! Four-bit values, as packed into the HID++ 2.0 function/software id byte.

use vstd::prelude::*;

verus! {

/// A value in `0..16`.
#[derive(Clone, Copy, Debug, PartialEq, Eq, Structural, Hash)]
pub struct U4(u8);

impl U4 {
    #[verifier::type_invariant]
    spec fn inv(self) -> bool {
        self.0 < 16
    }

    /// The nibble's value.
    pub closed spec fn value(self) -> u8 {
        self.0
    }

    /// The low nibble of `v`.
    pub fn from_lo(v: u8) -> (r: U4)
        ensures
            r.value() == v % 16,
    {
        let r = v & 0x0f;
        assert(v & 0x0f == v % 16) by (bit_vector);
        U4(r)
    }

    /// The high nibble of `v`.
    pub fn from_hi(v: u8) -> (r: U4)
        ensures
            r.value() == v / 16,
    {
        let r = v >> 4;
        assert(v >> 4 == v / 16) by (bit_vector);
        U4(r)
    }

    /// The nibble as the low half of a byte.
    pub fn to_lo(self) -> (r: u8)
        ensures
            r == self.value(),
            r < 16,
    {
        proof {
            use_type_invariant(&self);
        }
        self.0
    }

    /// The nibble as the high half of a byte.
    pub fn to_hi(self) -> (r: u8)
        ensures
            r == self.value() * 16,
    {
        proof {
            use_type_invariant(&self);
        }
        self.0 * 16
    }
}

/// `hi` in the upper four bits and `lo` in the lower four.
pub open spec fn combine_spec(hi: u8, lo: u8) -> u8 {
    (hi * 16 + lo) as u8
}

/// Packs two nibbles into one byte.
pub fn combine(hi: U4, lo: U4) -> (r: u8)
    ensures
        hi.value() < 16,
        lo.value() < 16,
        r == combine_spec(hi.value(), lo.value()),
        r as int == hi.value() * 16 + lo.value(),
{
    let h = hi.to_hi();
    let l = lo.to_lo();
    h + l
}

} // verus!
