//! The condition codes of a conditional branch and their five-bit field.

use vstd::prelude::*;
use vstd::std_specs::convert::FromSpecImpl;
use vstd::arithmetic::power2::lemma2_to64;
use crate::bit::{array_of, bits_of, lemma_array_of, lemma_bits_of_injective, low_bits, Bit};

verus! {

/// The condition under which a conditional branch is taken.
#[derive(Copy, Clone, Debug, PartialEq, Eq, Structural)]
pub enum Condition {
    /// `EQ`
    Equal,
    /// `NE`
    NotEqual,
    /// `HS`
    HigherSame,
    /// `LO`
    Lower,
    /// `MI`
    Minus,
    /// `PL`
    PositiveZero,
    /// `VS`
    SignedOverflow,
    /// `VC`
    NoSignedOverflow,
    /// `HI`
    Higher,
    /// `LS`
    LowerSame,
    /// `GE`
    GreaterThanEqual,
    /// `LT`
    LessThan,
    /// `GT`
    GreaterThan,
    /// `LE`
    LessThanEqual,
    /// `AL`
    Always,
    /// `NV`
    Reserved,
}

impl Condition {
    /// The condition's number, 0 to 15 in the order of declaration.
    pub open spec fn ordinal(self) -> int {
        match self {
            Condition::Equal => 0,
            Condition::NotEqual => 1,
            Condition::HigherSame => 2,
            Condition::Lower => 3,
            Condition::Minus => 4,
            Condition::PositiveZero => 5,
            Condition::SignedOverflow => 6,
            Condition::NoSignedOverflow => 7,
            Condition::Higher => 8,
            Condition::LowerSame => 9,
            Condition::GreaterThanEqual => 10,
            Condition::LessThan => 11,
            Condition::GreaterThan => 12,
            Condition::LessThanEqual => 13,
            Condition::Always => 14,
            Condition::Reserved => 15,
        }
    }

    /// The condition's number as a five-bit field, least significant bit first; the
    /// high bit is always zero.
    pub open spec fn bits(self) -> Seq<Bit> {
        bits_of(self.ordinal(), 5)
    }

    /// The number that [`Condition::ordinal`] names.
    pub fn number(self) -> (number: u8)
        ensures
            number == self.ordinal(),
    {
        match self {
            Condition::Equal => 0,
            Condition::NotEqual => 1,
            Condition::HigherSame => 2,
            Condition::Lower => 3,
            Condition::Minus => 4,
            Condition::PositiveZero => 5,
            Condition::SignedOverflow => 6,
            Condition::NoSignedOverflow => 7,
            Condition::Higher => 8,
            Condition::LowerSame => 9,
            Condition::GreaterThanEqual => 10,
            Condition::LessThan => 11,
            Condition::GreaterThan => 12,
            Condition::LessThanEqual => 13,
            Condition::Always => 14,
            Condition::Reserved => 15,
        }
    }
}

/// The 5-bit field of a condition, least significant bit first.
impl From<Condition> for [Bit; 5] {
    fn from(condition: Condition) -> (bits: [Bit; 5])
        ensures
            bits@ == condition.bits(),
    {
        let bits = low_bits::<5>(condition.number() as u64);
        proof {
            lemma_array_of(bits);
        }
        bits
    }
}

impl FromSpecImpl<Condition> for [Bit; 5] {
    open spec fn obeys_from_spec() -> bool {
        true
    }

    open spec fn from_spec(condition: Condition) -> [Bit; 5] {
        array_of::<5>(condition.bits())
    }
}

/// Two conditions with the same field are the same.
pub proof fn lemma_condition_bits_injective(first: Condition, second: Condition)
    requires
        first.bits() == second.bits(),
    ensures
        first == second,
{
    lemma2_to64();
    lemma_bits_of_injective(first.ordinal(), second.ordinal(), 5);
}

} // verus!
