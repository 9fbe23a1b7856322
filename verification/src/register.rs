//! The general-purpose registers and their five-bit field.

use vstd::prelude::*;
use vstd::std_specs::convert::FromSpecImpl;
use vstd::arithmetic::power2::lemma2_to64;
use crate::bit::{array_of, bits_of, lemma_array_of, lemma_bits_of_injective, low_bits, Bit};

verus! {

/// One of the registers X0 to X30, or the zero register XZR.
#[derive(Copy, Clone, Debug, PartialEq, Eq, Structural)]
pub enum Register {
    X0,
    X1,
    X2,
    X3,
    X4,
    X5,
    X6,
    X7,
    X8,
    X9,
    X10,
    X11,
    X12,
    X13,
    X14,
    X15,
    X16,
    X17,
    X18,
    X19,
    X20,
    X21,
    X22,
    X23,
    X24,
    X25,
    X26,
    X27,
    X28,
    X29,
    X30,
    XZR,
}

impl Register {
    /// The register's number: 0 to 30 for X0 to X30, and 31 for XZR.
    pub open spec fn ordinal(self) -> int {
        match self {
            Register::X0 => 0,
            Register::X1 => 1,
            Register::X2 => 2,
            Register::X3 => 3,
            Register::X4 => 4,
            Register::X5 => 5,
            Register::X6 => 6,
            Register::X7 => 7,
            Register::X8 => 8,
            Register::X9 => 9,
            Register::X10 => 10,
            Register::X11 => 11,
            Register::X12 => 12,
            Register::X13 => 13,
            Register::X14 => 14,
            Register::X15 => 15,
            Register::X16 => 16,
            Register::X17 => 17,
            Register::X18 => 18,
            Register::X19 => 19,
            Register::X20 => 20,
            Register::X21 => 21,
            Register::X22 => 22,
            Register::X23 => 23,
            Register::X24 => 24,
            Register::X25 => 25,
            Register::X26 => 26,
            Register::X27 => 27,
            Register::X28 => 28,
            Register::X29 => 29,
            Register::X30 => 30,
            Register::XZR => 31,
        }
    }

    /// The register's number as a five-bit field, least significant bit first.
    pub open spec fn bits(self) -> Seq<Bit> {
        bits_of(self.ordinal(), 5)
    }

    /// The number that [`Register::ordinal`] names.
    pub fn number(self) -> (number: u8)
        ensures
            number == self.ordinal(),
    {
        match self {
            Register::X0 => 0,
            Register::X1 => 1,
            Register::X2 => 2,
            Register::X3 => 3,
            Register::X4 => 4,
            Register::X5 => 5,
            Register::X6 => 6,
            Register::X7 => 7,
            Register::X8 => 8,
            Register::X9 => 9,
            Register::X10 => 10,
            Register::X11 => 11,
            Register::X12 => 12,
            Register::X13 => 13,
            Register::X14 => 14,
            Register::X15 => 15,
            Register::X16 => 16,
            Register::X17 => 17,
            Register::X18 => 18,
            Register::X19 => 19,
            Register::X20 => 20,
            Register::X21 => 21,
            Register::X22 => 22,
            Register::X23 => 23,
            Register::X24 => 24,
            Register::X25 => 25,
            Register::X26 => 26,
            Register::X27 => 27,
            Register::X28 => 28,
            Register::X29 => 29,
            Register::X30 => 30,
            Register::XZR => 31,
        }
    }
}

/// The 5-bit field of a register, least significant bit first.
impl From<Register> for [Bit; 5] {
    fn from(register: Register) -> (bits: [Bit; 5])
        ensures
            bits@ == register.bits(),
    {
        let bits = low_bits::<5>(register.number() as u64);
        proof {
            lemma_array_of(bits);
        }
        bits
    }
}

impl FromSpecImpl<Register> for [Bit; 5] {
    open spec fn obeys_from_spec() -> bool {
        true
    }

    open spec fn from_spec(register: Register) -> [Bit; 5] {
        array_of::<5>(register.bits())
    }
}

/// Two registers with the same field are the same.
pub proof fn lemma_register_bits_injective(first: Register, second: Register)
    requires
        first.bits() == second.bits(),
    ensures
        first == second,
{
    lemma2_to64();
    lemma_bits_of_injective(first.ordinal(), second.ordinal(), 5);
}

} // verus!
