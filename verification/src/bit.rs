//! A single bit, and the two's-complement bits of an integer.
//!
//! Every encoded field in this crate is an array of [`Bit`]s whose index 0 is
//! the least significant bit. The contracts speak of such fields through
//! [`bits_of`], the sequence of the low bits of a mathematical integer.

use vstd::prelude::*;
use vstd::arithmetic::div_mod::{
    lemma_fundamental_div_mod, lemma_fundamental_div_mod_converse, lemma_mod_bound,
};
use vstd::arithmetic::power2::{lemma2_to64, lemma_pow2_pos, lemma_pow2_unfold, pow2};
use vstd::std_specs::convert::FromSpecImpl;

verus! {

/// A single bit
#[derive(Copy, Clone, Debug, PartialEq, Eq, Structural)]
pub enum Bit {
    One,
    Zero,
}

impl Bit {
    /// `Some` bit for 0 and for 1, `None` for every other number.
    pub fn from_u8(number: u8) -> (bit: Option<Bit>)
        ensures
            bit == (if number == 0 {
                Some(Bit::Zero)
            } else if number == 1 {
                Some(Bit::One)
            } else {
                None
            }),
    {
        match number {
            0 => Some(Bit::Zero),
            1 => Some(Bit::One),
            _ => None,
        }
    }

    /// `One` for `true`, `Zero` for `false`.
    pub fn from_bool(boolean: bool) -> (bit: Bit)
        ensures
            bit == (if boolean {
                Bit::One
            } else {
                Bit::Zero
            }),
    {
        match boolean {
            false => Bit::Zero,
            true => Bit::One,
        }
    }
}

/// An array of bits from the array of their numbers, each of which is 0 or 1.
pub fn bit_array<const N: usize>(numbers: [u8; N]) -> (bits: [Bit; N])
    requires
        forall|i: int| 0 <= i < N ==> numbers[i] <= 1,
    ensures
        forall|i: int|
            0 <= i < N ==> bits[i] == (if numbers[i] == 1 {
                Bit::One
            } else {
                Bit::Zero
            }),
{
    let mut bits: [Bit; N] = [Bit::Zero; N];
    let mut i: usize = 0;
    while i < N
        invariant
            i <= N,
            forall|j: int|
                0 <= j < i ==> bits[j] == (if numbers[j] == 1 {
                    Bit::One
                } else {
                    Bit::Zero
                }),
        decreases N - i,
    {
        bits[i] = if numbers[i] == 1 {
            Bit::One
        } else {
            Bit::Zero
        };
        i += 1;
    }
    bits
}

/// Convert a bit to a boolean where
/// one => true and
/// zero => false
impl From<Bit> for bool {
    fn from(bit: Bit) -> (boolean: bool) {
        match bit {
            Bit::One => true,
            Bit::Zero => false,
        }
    }
}

impl FromSpecImpl<Bit> for bool {
    open spec fn obeys_from_spec() -> bool {
        true
    }

    open spec fn from_spec(bit: Bit) -> bool {
        bit == Bit::One
    }
}

/// Convert a bit to a u8
impl From<Bit> for u8 {
    fn from(bit: Bit) -> (number: u8) {
        match bit {
            Bit::One => 1_u8,
            Bit::Zero => 0_u8,
        }
    }
}

impl FromSpecImpl<Bit> for u8 {
    open spec fn obeys_from_spec() -> bool {
        true
    }

    open spec fn from_spec(bit: Bit) -> u8 {
        if bit == Bit::One {
            1
        } else {
            0
        }
    }
}

/// Bit `index` of `value`, written in two's complement with as many digits
/// as it takes: halving rounds down, so a negative value has ones all the
/// way up.
pub open spec fn bit_at(value: int, index: int) -> Bit
    decreases index,
{
    if index <= 0 {
        if value % 2 == 1 {
            Bit::One
        } else {
            Bit::Zero
        }
    } else {
        bit_at(value / 2, index - 1)
    }
}

/// The `width` low bits of `value`, least significant first.
pub open spec fn bits_of(value: int, width: nat) -> Seq<Bit> {
    Seq::new(width, |i: int| bit_at(value, i))
}

/// The array that holds `bits`, where `bits` has `N` items.
pub open spec fn array_of<const N: usize>(bits: Seq<Bit>) -> [Bit; N] {
    choose|array: [Bit; N]| array@ == bits
}

/// Bit `index` of a value tells whether the value divided by `2^index`,
/// rounded down, is odd.
pub proof fn lemma_bit_at_is_parity(value: int, index: nat)
    ensures
        bit_at(value, index as int) == (if (value / pow2(index) as int) % 2 == 1 {
            Bit::One
        } else {
            Bit::Zero
        }),
    decreases index,
{
    if index == 0 {
        lemma2_to64();
    } else {
        let below = (index - 1) as nat;
        let power = pow2(below) as int;
        lemma_pow2_unfold(index);
        lemma_pow2_pos(below);
        lemma_bit_at_is_parity(value / 2, below);
        // value / 2 / power is the quotient of value by 2 * power
        let half = value / 2;
        lemma_fundamental_div_mod(half, power);
        lemma_mod_bound(half, power);
        let quotient = half / power;
        let rest = 2 * (half % power) + value % 2;
        assert(value == quotient * (2 * power) + rest) by (nonlinear_arith)
            requires
                value == 2 * half + value % 2,
                half == power * quotient + half % power,
                rest == 2 * (half % power) + value % 2,
        ;
        lemma_fundamental_div_mod_converse(value, 2 * power, quotient, rest);
    }
}

/// An array is the one that [`array_of`] names for its own contents.
pub proof fn lemma_array_of<const N: usize>(array: [Bit; N])
    ensures
        array_of::<N>(array@) == array,
{
    let chosen = array_of::<N>(array@);
    assert(chosen@ == array@);
    assert(chosen =~= array);
}

/// Adding `2^width` to a value changes none of the bits below `width`.
pub proof fn lemma_bit_at_wraps(value: int, width: nat, index: int)
    requires
        0 <= index < width,
    ensures
        bit_at(value + pow2(width), index) == bit_at(value, index),
    decreases index,
{
    lemma_pow2_unfold(width);
    let half = pow2((width - 1) as nat) as int;
    assert((value + 2 * half) / 2 == value / 2 + half);
    assert((value + 2 * half) % 2 == value % 2);
    if index > 0 {
        lemma_bit_at_wraps(value / 2, (width - 1) as nat, index - 1);
    }
}

/// A field of `width` bits holds a value modulo `2^width`: `value` and
/// `value + 2^width` have the same `width` low bits.
pub proof fn lemma_bits_of_wraps(value: int, width: nat)
    ensures
        bits_of(value + pow2(width), width) == bits_of(value, width),
{
    assert forall|i: int| 0 <= i < width implies bit_at(value + pow2(width), i) == bit_at(
        value,
        i,
    ) by {
        lemma_bit_at_wraps(value, width, i);
    }
    assert(bits_of(value + pow2(width), width) =~= bits_of(value, width));
}

/// Two numbers that fit in `width` bits and have the same `width` low bits are
/// the same number.
pub proof fn lemma_bits_of_injective(first: int, second: int, width: nat)
    requires
        0 <= first < pow2(width),
        0 <= second < pow2(width),
        bits_of(first, width) == bits_of(second, width),
    ensures
        first == second,
    decreases width,
{
    if width == 0 {
        lemma2_to64();
    } else {
        lemma_pow2_unfold(width);
        let narrower = (width - 1) as nat;
        assert(bits_of(first, width)[0] == bit_at(first, 0));
        assert(bits_of(second, width)[0] == bit_at(second, 0));
        assert(first % 2 == second % 2);
        assert forall|i: int| 0 <= i < narrower implies #[trigger] bit_at(first / 2, i) == bit_at(
            second / 2,
            i,
        ) by {
            assert(bits_of(first, width)[i + 1] == bit_at(first, i + 1));
            assert(bits_of(second, width)[i + 1] == bit_at(second, i + 1));
        }
        assert(bits_of(first / 2, narrower) =~= bits_of(second / 2, narrower));
        lemma_bits_of_injective(first / 2, second / 2, narrower);
    }
}

/// Two numbers in the two's-complement range of `width` bits, from
/// `-2^(width - 1)` up to but not including `2^(width - 1)`, that have the
/// same `width` low bits are the same number.
pub proof fn lemma_bits_of_injective_signed(first: int, second: int, width: nat)
    requires
        width > 0,
        -pow2((width - 1) as nat) <= first < pow2((width - 1) as nat),
        -pow2((width - 1) as nat) <= second < pow2((width - 1) as nat),
        bits_of(first, width) == bits_of(second, width),
    ensures
        first == second,
{
    lemma_pow2_unfold(width);
    let lifted_first = if first < 0 {
        first + pow2(width)
    } else {
        first
    };
    let lifted_second = if second < 0 {
        second + pow2(width)
    } else {
        second
    };
    lemma_bits_of_wraps(first, width);
    lemma_bits_of_wraps(second, width);
    lemma_bits_of_injective(lifted_first, lifted_second, width);
}

/// The `N` low bits of `value`, least significant first.
pub(crate) fn low_bits<const N: usize>(value: u64) -> (bits: [Bit; N])
    ensures
        bits@ == bits_of(value as int, N as nat),
{
    let mut bits: [Bit; N] = [Bit::Zero; N];
    let mut rest: u64 = value;
    let mut i: usize = 0;
    while i < N
        invariant
            i <= N,
            forall|j: int| 0 <= j < i ==> bits@[j] == bit_at(value as int, j),
            forall|k: int|
                0 <= k ==> bit_at(value as int, i + k) == #[trigger] bit_at(rest as int, k),
        decreases N - i,
    {
        let ghost before = rest;
        bits[i] = if rest % 2 == 1 {
            Bit::One
        } else {
            Bit::Zero
        };
        rest = rest / 2;
        proof {
            assert(bit_at(value as int, i + 0) == bit_at(before as int, 0));
            assert forall|k: int| 0 <= k implies bit_at(value as int, i + 1 + k)
                == #[trigger] bit_at(rest as int, k) by {
                assert(bit_at(before as int, k + 1) == bit_at(rest as int, k));
            }
        }
        i += 1;
    }
    assert(bits@ =~= bits_of(value as int, N as nat));
    bits
}

/// The `N` low bits of a signed `value` in two's complement, least
/// significant first.
pub(crate) fn low_bits_signed<const N: usize>(value: i32) -> (bits: [Bit; N])
    requires
        N <= 32,
    ensures
        bits@ == bits_of(value as int, N as nat),
{
    let lifted: u64 = (value as i64 + 0x1_0000_0000) as u64;
    proof {
        lemma2_to64();
        assert forall|i: int| 0 <= i < N implies bit_at(lifted as int, i) == bit_at(
            value as int,
            i,
        ) by {
            lemma_bit_at_wraps(value as int, 32, i);
        }
        assert(bits_of(lifted as int, N as nat) =~= bits_of(value as int, N as nat));
    }
    low_bits::<N>(lifted)
}

} // verus!
