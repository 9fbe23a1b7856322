//! The left shift applied to the immediate of a wide move, and its two-bit field.

use vstd::prelude::*;
use vstd::std_specs::convert::FromSpecImpl;
use vstd::arithmetic::power2::lemma2_to64;
use crate::bit::{array_of, bits_of, lemma_array_of, lemma_bits_of_injective, low_bits, Bit};

verus! {

/// A left shift by a multiple of sixteen bits.
#[derive(Copy, Clone, Debug, PartialEq, Eq, Structural)]
pub enum Shift16 {
    /// `LSL 0`
    Shift0,
    /// `LSL 16`
    Shift16,
    /// `LSL 32`
    Shift32,
    /// `LSL 48`
    Shift48,
}

impl Shift16 {
    /// The shift divided by sixteen: 0 to 3.
    pub open spec fn ordinal(self) -> int {
        match self {
            Shift16::Shift0 => 0,
            Shift16::Shift16 => 1,
            Shift16::Shift32 => 2,
            Shift16::Shift48 => 3,
        }
    }

    /// The shift's number as a two-bit field, least significant bit first.
    pub open spec fn bits(self) -> Seq<Bit> {
        bits_of(self.ordinal(), 2)
    }

    /// The number that [`Shift16::ordinal`] names.
    pub fn number(self) -> (number: u8)
        ensures
            number == self.ordinal(),
    {
        match self {
            Shift16::Shift0 => 0,
            Shift16::Shift16 => 1,
            Shift16::Shift32 => 2,
            Shift16::Shift48 => 3,
        }
    }
}

/// The 2-bit field of a shift, least significant bit first.
impl From<Shift16> for [Bit; 2] {
    fn from(shift: Shift16) -> (bits: [Bit; 2])
        ensures
            bits@ == shift.bits(),
    {
        let bits = low_bits::<2>(shift.number() as u64);
        proof {
            lemma_array_of(bits);
        }
        bits
    }
}

impl FromSpecImpl<Shift16> for [Bit; 2] {
    open spec fn obeys_from_spec() -> bool {
        true
    }

    open spec fn from_spec(shift: Shift16) -> [Bit; 2] {
        array_of::<2>(shift.bits())
    }
}

/// Two shifts with the same field are the same.
pub proof fn lemma_shift_bits_injective(first: Shift16, second: Shift16)
    requires
        first.bits() == second.bits(),
    ensures
        first == second,
{
    lemma2_to64();
    lemma_bits_of_injective(first.ordinal(), second.ordinal(), 2);
}

} // verus!
