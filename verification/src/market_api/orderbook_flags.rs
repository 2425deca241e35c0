//! The flags byte of a book message.
use vstd::prelude::*;

verus! {

/// Flags of a book message: bit 0 says the message is a snapshot, bit 1 that it
/// holds only the best levels.
#[allow(non_camel_case_types)]
#[derive(Default, Clone, Copy, Debug, PartialEq, Eq, Structural, Hash)]
pub struct Orderbook_flags(pub u8);

/// Whether bit `n` of `v` is set.
pub open spec fn bit_set(v: u8, n: u8) -> bool {
    v & (1u8 << n) != 0
}

/// `v` with bit `n` set to `b`.
pub open spec fn with_bit(v: u8, n: u8, b: bool) -> u8 {
    if b {
        v | (1u8 << n)
    } else {
        v & !(1u8 << n)
    }
}

impl Orderbook_flags {
    pub fn new(value: u8) -> (f: Orderbook_flags)
        ensures
            f.0 == value,
    {
        Orderbook_flags(value)
    }

    /// Clears every flag.
    pub fn clear(&mut self) -> (r: &mut Self)
        ensures
            r.0 == 0,
            *final(self) == *final(r),
    {
        self.0 = 0;
        self
    }

    pub fn get_is_snapshot(&self) -> (b: bool)
        ensures
            b == bit_set(self.0, 0),
    {
        0 != self.0 & (1 << 0)
    }

    pub fn set_is_snapshot(&mut self, value: bool) -> (r: &mut Self)
        ensures
            r.0 == with_bit(old(self).0, 0, value),
            *final(self) == *final(r),
    {
        self.0 = if value {
            self.0 | (1 << 0)
        } else {
            self.0 & !(1 << 0)
        };
        self
    }

    pub fn get_l1(&self) -> (b: bool)
        ensures
            b == bit_set(self.0, 1),
    {
        0 != self.0 & (1 << 1)
    }

    pub fn set_l1(&mut self, value: bool) -> (r: &mut Self)
        ensures
            r.0 == with_bit(old(self).0, 1, value),
            *final(self) == *final(r),
    {
        self.0 = if value {
            self.0 | (1 << 1)
        } else {
            self.0 & !(1 << 1)
        };
        self
    }
}

/// A flag reads back as it was set, and setting one flag keeps the other.
pub proof fn lemma_flags(v: u8, b: bool)
    ensures
        bit_set(with_bit(v, 0, b), 0) == b,
        bit_set(with_bit(v, 1, b), 1) == b,
        bit_set(with_bit(v, 0, b), 1) == bit_set(v, 1),
        bit_set(with_bit(v, 1, b), 0) == bit_set(v, 0),
        !bit_set(0, 0),
        !bit_set(0, 1),
{
    assert(((v | (1u8 << 0u8)) & (1u8 << 0u8) != 0) && ((v & !(1u8 << 0u8)) & (1u8 << 0u8) == 0))
        by (bit_vector);
    assert(((v | (1u8 << 1u8)) & (1u8 << 1u8) != 0) && ((v & !(1u8 << 1u8)) & (1u8 << 1u8) == 0))
        by (bit_vector);
    assert((((v | (1u8 << 0u8)) & (1u8 << 1u8) != 0) == (v & (1u8 << 1u8) != 0)) && (((v & !(
    1u8 << 0u8)) & (1u8 << 1u8) != 0) == (v & (1u8 << 1u8) != 0))) by (bit_vector);
    assert((((v | (1u8 << 1u8)) & (1u8 << 0u8) != 0) == (v & (1u8 << 0u8) != 0)) && (((v & !(
    1u8 << 1u8)) & (1u8 << 0u8) != 0) == (v & (1u8 << 0u8) != 0))) by (bit_vector);
    assert((0u8 & (1u8 << 0u8)) == 0 && (0u8 & (1u8 << 1u8)) == 0) by (bit_vector);
}

} // verus!
