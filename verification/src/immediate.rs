//! Immediate operands and their fields.
//!
//! An immediate keeps the number it was given, whatever its size. Only its
//! field is narrow: the field holds the number's low bits in two's
//! complement, so a number outside the field's range is cut down to it.

use vstd::prelude::*;
use vstd::arithmetic::power2::lemma2_to64;
use vstd::std_specs::convert::FromSpecImpl;
use crate::bit::{
    array_of, bits_of, lemma_array_of, lemma_bits_of_injective_signed, lemma_bits_of_wraps,
    low_bits_signed, Bit,
};

verus! {

/// A signed immediate that is encoded in six bits.
#[derive(Copy, Clone, Debug, PartialEq, Eq, Structural)]
pub struct Immediate6(pub i8);

impl Immediate6 {
    /// The six low bits of the immediate in two's complement, least
    /// significant bit first.
    pub open spec fn bits(self) -> Seq<Bit> {
        bits_of(self.0 as int, 6)
    }
}

impl From<i8> for Immediate6 {
    fn from(number: i8) -> (immediate: Immediate6) {
        Immediate6(number)
    }
}

impl FromSpecImpl<i8> for Immediate6 {
    open spec fn obeys_from_spec() -> bool {
        true
    }

    open spec fn from_spec(number: i8) -> Immediate6 {
        Immediate6(number)
    }
}

/// The 6-bit field of an immediate, least significant bit first.
impl From<Immediate6> for [Bit; 6] {
    fn from(immediate: Immediate6) -> (bits: [Bit; 6])
        ensures
            bits@ == immediate.bits(),
    {
        let bits = low_bits_signed::<6>(immediate.0 as i32);
        proof {
            lemma_array_of(bits);
        }
        bits
    }
}

impl FromSpecImpl<Immediate6> for [Bit; 6] {
    open spec fn obeys_from_spec() -> bool {
        true
    }

    open spec fn from_spec(immediate: Immediate6) -> [Bit; 6] {
        array_of::<6>(immediate.bits())
    }
}

/// A signed immediate that is encoded in nine bits.
#[derive(Copy, Clone, Debug, PartialEq, Eq, Structural)]
pub struct Immediate9(pub i16);

impl Immediate9 {
    /// The nine low bits of the immediate in two's complement, least
    /// significant bit first.
    pub open spec fn bits(self) -> Seq<Bit> {
        bits_of(self.0 as int, 9)
    }
}

impl From<i16> for Immediate9 {
    fn from(number: i16) -> (immediate: Immediate9) {
        Immediate9(number)
    }
}

impl FromSpecImpl<i16> for Immediate9 {
    open spec fn obeys_from_spec() -> bool {
        true
    }

    open spec fn from_spec(number: i16) -> Immediate9 {
        Immediate9(number)
    }
}

/// The 9-bit field of an immediate, least significant bit first.
impl From<Immediate9> for [Bit; 9] {
    fn from(immediate: Immediate9) -> (bits: [Bit; 9])
        ensures
            bits@ == immediate.bits(),
    {
        let bits = low_bits_signed::<9>(immediate.0 as i32);
        proof {
            lemma_array_of(bits);
        }
        bits
    }
}

impl FromSpecImpl<Immediate9> for [Bit; 9] {
    open spec fn obeys_from_spec() -> bool {
        true
    }

    open spec fn from_spec(immediate: Immediate9) -> [Bit; 9] {
        array_of::<9>(immediate.bits())
    }
}

/// A signed immediate that is encoded in twelve bits.
#[derive(Copy, Clone, Debug, PartialEq, Eq, Structural)]
pub struct Immediate12(pub i16);

impl Immediate12 {
    /// The twelve low bits of the immediate in two's complement, least
    /// significant bit first.
    pub open spec fn bits(self) -> Seq<Bit> {
        bits_of(self.0 as int, 12)
    }
}

impl From<i16> for Immediate12 {
    fn from(number: i16) -> (immediate: Immediate12) {
        Immediate12(number)
    }
}

impl FromSpecImpl<i16> for Immediate12 {
    open spec fn obeys_from_spec() -> bool {
        true
    }

    open spec fn from_spec(number: i16) -> Immediate12 {
        Immediate12(number)
    }
}

/// The 12-bit field of an immediate, least significant bit first.
impl From<Immediate12> for [Bit; 12] {
    fn from(immediate: Immediate12) -> (bits: [Bit; 12])
        ensures
            bits@ == immediate.bits(),
    {
        let bits = low_bits_signed::<12>(immediate.0 as i32);
        proof {
            lemma_array_of(bits);
        }
        bits
    }
}

impl FromSpecImpl<Immediate12> for [Bit; 12] {
    open spec fn obeys_from_spec() -> bool {
        true
    }

    open spec fn from_spec(immediate: Immediate12) -> [Bit; 12] {
        array_of::<12>(immediate.bits())
    }
}

/// A signed immediate that is encoded in sixteen bits.
#[derive(Copy, Clone, Debug, PartialEq, Eq, Structural)]
pub struct Immediate16(pub i16);

impl Immediate16 {
    /// The sixteen low bits of the immediate in two's complement, least
    /// significant bit first.
    pub open spec fn bits(self) -> Seq<Bit> {
        bits_of(self.0 as int, 16)
    }
}

impl From<i16> for Immediate16 {
    fn from(number: i16) -> (immediate: Immediate16) {
        Immediate16(number)
    }
}

impl FromSpecImpl<i16> for Immediate16 {
    open spec fn obeys_from_spec() -> bool {
        true
    }

    open spec fn from_spec(number: i16) -> Immediate16 {
        Immediate16(number)
    }
}

/// The 16-bit field of an immediate, least significant bit first.
impl From<Immediate16> for [Bit; 16] {
    fn from(immediate: Immediate16) -> (bits: [Bit; 16])
        ensures
            bits@ == immediate.bits(),
    {
        let bits = low_bits_signed::<16>(immediate.0 as i32);
        proof {
            lemma_array_of(bits);
        }
        bits
    }
}

impl FromSpecImpl<Immediate16> for [Bit; 16] {
    open spec fn obeys_from_spec() -> bool {
        true
    }

    open spec fn from_spec(immediate: Immediate16) -> [Bit; 16] {
        array_of::<16>(immediate.bits())
    }
}

/// A signed immediate that is encoded in nineteen bits.
#[derive(Copy, Clone, Debug, PartialEq, Eq, Structural)]
pub struct Immediate19(pub i32);

impl Immediate19 {
    /// The nineteen low bits of the immediate in two's complement, least
    /// significant bit first.
    pub open spec fn bits(self) -> Seq<Bit> {
        bits_of(self.0 as int, 19)
    }
}

impl From<i32> for Immediate19 {
    fn from(number: i32) -> (immediate: Immediate19) {
        Immediate19(number)
    }
}

impl FromSpecImpl<i32> for Immediate19 {
    open spec fn obeys_from_spec() -> bool {
        true
    }

    open spec fn from_spec(number: i32) -> Immediate19 {
        Immediate19(number)
    }
}

/// The 19-bit field of an immediate, least significant bit first.
impl From<Immediate19> for [Bit; 19] {
    fn from(immediate: Immediate19) -> (bits: [Bit; 19])
        ensures
            bits@ == immediate.bits(),
    {
        let bits = low_bits_signed::<19>(immediate.0 as i32);
        proof {
            lemma_array_of(bits);
        }
        bits
    }
}

impl FromSpecImpl<Immediate19> for [Bit; 19] {
    open spec fn obeys_from_spec() -> bool {
        true
    }

    open spec fn from_spec(immediate: Immediate19) -> [Bit; 19] {
        array_of::<19>(immediate.bits())
    }
}

/// A signed immediate that is encoded in twenty-six bits.
#[derive(Copy, Clone, Debug, PartialEq, Eq, Structural)]
pub struct Immediate26(pub i32);

impl Immediate26 {
    /// The twenty-six low bits of the immediate in two's complement, least
    /// significant bit first.
    pub open spec fn bits(self) -> Seq<Bit> {
        bits_of(self.0 as int, 26)
    }
}

impl From<i32> for Immediate26 {
    fn from(number: i32) -> (immediate: Immediate26) {
        Immediate26(number)
    }
}

impl FromSpecImpl<i32> for Immediate26 {
    open spec fn obeys_from_spec() -> bool {
        true
    }

    open spec fn from_spec(number: i32) -> Immediate26 {
        Immediate26(number)
    }
}

/// The 26-bit field of an immediate, least significant bit first.
impl From<Immediate26> for [Bit; 26] {
    fn from(immediate: Immediate26) -> (bits: [Bit; 26])
        ensures
            bits@ == immediate.bits(),
    {
        let bits = low_bits_signed::<26>(immediate.0 as i32);
        proof {
            lemma_array_of(bits);
        }
        bits
    }
}

impl FromSpecImpl<Immediate26> for [Bit; 26] {
    open spec fn obeys_from_spec() -> bool {
        true
    }

    open spec fn from_spec(immediate: Immediate26) -> [Bit; 26] {
        array_of::<26>(immediate.bits())
    }
}

/// Two six-bit immediates that lie `2^6` = 64 apart have the same field.
pub proof fn lemma_immediate6_wraps(value: i8)
    requires
        value + 64 <= i8::MAX,
    ensures
        Immediate6((value + 64) as i8).bits() == Immediate6(value).bits(),
{
    lemma2_to64();
    lemma_bits_of_wraps(value as int, 6);
}

/// Two nine-bit immediates that lie `2^9` = 512 apart have the same field.
pub proof fn lemma_immediate9_wraps(value: i16)
    requires
        value + 512 <= i16::MAX,
    ensures
        Immediate9((value + 512) as i16).bits() == Immediate9(value).bits(),
{
    lemma2_to64();
    lemma_bits_of_wraps(value as int, 9);
}

/// Two twelve-bit immediates that lie `2^12` = 4096 apart have the same field.
pub proof fn lemma_immediate12_wraps(value: i16)
    requires
        value + 4096 <= i16::MAX,
    ensures
        Immediate12((value + 4096) as i16).bits() == Immediate12(value).bits(),
{
    lemma2_to64();
    lemma_bits_of_wraps(value as int, 12);
}

/// Two nineteen-bit immediates that lie `2^19` = 524288 apart have the same field.
pub proof fn lemma_immediate19_wraps(value: i32)
    requires
        value + 524288 <= i32::MAX,
    ensures
        Immediate19((value + 524288) as i32).bits() == Immediate19(value).bits(),
{
    lemma2_to64();
    lemma_bits_of_wraps(value as int, 19);
}

/// Two twenty-six-bit immediates that lie `2^26` = 67108864 apart have the same field.
pub proof fn lemma_immediate26_wraps(value: i32)
    requires
        value + 67108864 <= i32::MAX,
    ensures
        Immediate26((value + 67108864) as i32).bits() == Immediate26(value).bits(),
{
    lemma2_to64();
    lemma_bits_of_wraps(value as int, 26);
}

/// Two six-bit immediates in the range of the field, from -32 to
/// 31, with the same field are the same.
pub proof fn lemma_immediate6_bits_injective(first: Immediate6, second: Immediate6)
    requires
        -32 <= first.0 < 32,
        -32 <= second.0 < 32,
        first.bits() == second.bits(),
    ensures
        first == second,
{
    lemma2_to64();
    lemma_bits_of_injective_signed(first.0 as int, second.0 as int, 6);
}

/// Two nine-bit immediates in the range of the field, from -256 to
/// 255, with the same field are the same.
pub proof fn lemma_immediate9_bits_injective(first: Immediate9, second: Immediate9)
    requires
        -256 <= first.0 < 256,
        -256 <= second.0 < 256,
        first.bits() == second.bits(),
    ensures
        first == second,
{
    lemma2_to64();
    lemma_bits_of_injective_signed(first.0 as int, second.0 as int, 9);
}

/// Two twelve-bit immediates in the range of the field, from -2048 to
/// 2047, with the same field are the same.
pub proof fn lemma_immediate12_bits_injective(first: Immediate12, second: Immediate12)
    requires
        -2048 <= first.0 < 2048,
        -2048 <= second.0 < 2048,
        first.bits() == second.bits(),
    ensures
        first == second,
{
    lemma2_to64();
    lemma_bits_of_injective_signed(first.0 as int, second.0 as int, 12);
}

/// Two sixteen-bit immediates in the range of the field, from -32768 to
/// 32767, with the same field are the same.
pub proof fn lemma_immediate16_bits_injective(first: Immediate16, second: Immediate16)
    requires
        -32768 <= first.0 < 32768,
        -32768 <= second.0 < 32768,
        first.bits() == second.bits(),
    ensures
        first == second,
{
    lemma2_to64();
    lemma_bits_of_injective_signed(first.0 as int, second.0 as int, 16);
}

/// Two nineteen-bit immediates in the range of the field, from -262144 to
/// 262143, with the same field are the same.
pub proof fn lemma_immediate19_bits_injective(first: Immediate19, second: Immediate19)
    requires
        -262144 <= first.0 < 262144,
        -262144 <= second.0 < 262144,
        first.bits() == second.bits(),
    ensures
        first == second,
{
    lemma2_to64();
    lemma_bits_of_injective_signed(first.0 as int, second.0 as int, 19);
}

/// Two twenty-six-bit immediates in the range of the field, from -33554432 to
/// 33554431, with the same field are the same.
pub proof fn lemma_immediate26_bits_injective(first: Immediate26, second: Immediate26)
    requires
        -33554432 <= first.0 < 33554432,
        -33554432 <= second.0 < 33554432,
        first.bits() == second.bits(),
    ensures
        first == second,
{
    lemma2_to64();
    lemma_bits_of_injective_signed(first.0 as int, second.0 as int, 26);
}

} // verus!
