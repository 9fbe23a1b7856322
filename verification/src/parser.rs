//! The grammar of a source line.
//!
//! A line is a sequence of characters, and every rule of the grammar reads it
//! from a position: `register_at(line, from)` is the register that stands at
//! position `from`, together with the position behind it, or `None` where no
//! register stands there. The executable parsers take text and give back what
//! is left of it behind what they read.

use vstd::prelude::*;
use vstd::slice::slice_subrange;
use vstd::string::*;
use crate::condition::Condition;
use crate::generator::decimal_text;
use crate::immediate::{Immediate12, Immediate16, Immediate19, Immediate26, Immediate6, Immediate9};
use crate::instruction::Instruction;
use crate::register::Register;
use crate::shift16::Shift16;

verus! {

/// White space: blank, tab, carriage return and line feed.
pub open spec fn is_space(c: char) -> bool {
    c == ' ' || c == '\t' || c == '\r' || c == '\n'
}

/// A decimal digit.
pub open spec fn is_digit(c: char) -> bool {
    '0' <= c && c <= '9'
}

/// The number that a decimal digit stands for.
pub open spec fn digit_value(c: char) -> nat {
    (c as int - '0' as int) as nat
}

/// The first position from `from` on that holds no white space; the line's
/// length where only white space follows.
pub open spec fn skip_spaces(line: Seq<char>, from: int) -> int
    decreases line.len() - from,
{
    if 0 <= from < line.len() && is_space(line[from]) {
        skip_spaces(line, from + 1)
    } else {
        from
    }
}

/// The first position from `from` on that holds no digit; the line's length
/// where only digits follow.
pub open spec fn skip_digits(line: Seq<char>, from: int) -> int
    decreases line.len() - from,
{
    if 0 <= from < line.len() && is_digit(line[from]) {
        skip_digits(line, from + 1)
    } else {
        from
    }
}

/// The number that a sequence of digits is the decimal numeral of. Leading
/// zeros count for nothing, and the empty sequence stands for 0.
pub open spec fn decimal_value(digits: Seq<char>) -> nat
    decreases digits.len(),
{
    if digits.len() == 0 {
        0
    } else {
        10 * decimal_value(digits.drop_last()) + digit_value(digits.last())
    }
}

/// A number's decimal numeral is made of digits and stands for the number.
pub proof fn lemma_numeral_stands_for_number(number: nat)
    ensures
        decimal_value(decimal_text(number)) == number,
        forall|i: int|
            0 <= i < decimal_text(number).len() ==> is_digit(#[trigger] decimal_text(number)[i]),
    decreases number,
{
    let numeral = decimal_text(number);
    if number < 10 {
        assert(numeral.drop_last().len() == 0);
        assert(decimal_value(numeral.drop_last()) == 0);
    } else {
        lemma_numeral_stands_for_number(number / 10);
        assert(numeral.drop_last() =~= decimal_text(number / 10));
    }
}

/// The character `symbol` with any white space before and behind it: the
/// position behind all of that.
#[verifier::opaque]
pub open spec fn symbol_at(line: Seq<char>, from: int, symbol: char) -> Option<int> {
    let at = skip_spaces(line, from);
    if 0 <= at < line.len() && line[at] == symbol {
        Some(skip_spaces(line, at + 1))
    } else {
        None
    }
}

/// The register with the given number: X0 to X30 for 0 to 30.
pub open spec fn numbered_register(number: int) -> Register {
    choose|register: Register| register.ordinal() == number
}

/// A register: `X` and then either `ZR` or the longest run of digits, which
/// has to be the numeral, without a leading zero, of a number from 0 to 30.
#[verifier::opaque]
pub open spec fn register_at(line: Seq<char>, from: int) -> Option<(Register, int)> {
    if 0 <= from < line.len() && line[from] == 'X' {
        let end = skip_digits(line, from + 1);
        let digits = line.subrange(from + 1, end);
        let number = decimal_value(digits);
        if end > from + 1 {
            if number <= 30 && digits == decimal_text(number) {
                Some((numbered_register(number as int), end))
            } else {
                None
            }
        } else if from + 3 <= line.len() && line[from + 1] == 'Z' && line[from + 2] == 'R' {
            Some((Register::XZR, from + 3))
        } else {
            None
        }
    } else {
        None
    }
}

/// A signed number: an optional `-` and then the longest run of digits, which
/// has to hold a digit and to stand for a number of at most `limit`.
#[verifier::opaque]
pub open spec fn immediate_at(line: Seq<char>, from: int, limit: int) -> Option<(int, int)> {
    let negative = 0 <= from < line.len() && line[from] == '-';
    let start = if negative {
        from + 1
    } else {
        from
    };
    let end = skip_digits(line, start);
    let magnitude = decimal_value(line.subrange(start, end));
    if end > start && magnitude <= limit {
        Some((
            if negative {
                -magnitude
            } else {
                magnitude as int
            },
            end,
        ))
    } else {
        None
    }
}

/// The condition that two letters name.
pub open spec fn condition_named(first: char, second: char) -> Option<Condition> {
    if first == 'E' && second == 'Q' {
        Some(Condition::Equal)
    } else if first == 'N' && second == 'E' {
        Some(Condition::NotEqual)
    } else if first == 'H' && second == 'S' {
        Some(Condition::HigherSame)
    } else if first == 'L' && second == 'O' {
        Some(Condition::Lower)
    } else if first == 'M' && second == 'I' {
        Some(Condition::Minus)
    } else if first == 'P' && second == 'L' {
        Some(Condition::PositiveZero)
    } else if first == 'V' && second == 'S' {
        Some(Condition::SignedOverflow)
    } else if first == 'V' && second == 'C' {
        Some(Condition::NoSignedOverflow)
    } else if first == 'H' && second == 'I' {
        Some(Condition::Higher)
    } else if first == 'L' && second == 'S' {
        Some(Condition::LowerSame)
    } else if first == 'G' && second == 'E' {
        Some(Condition::GreaterThanEqual)
    } else if first == 'L' && second == 'T' {
        Some(Condition::LessThan)
    } else if first == 'G' && second == 'T' {
        Some(Condition::GreaterThan)
    } else if first == 'L' && second == 'E' {
        Some(Condition::LessThanEqual)
    } else if first == 'A' && second == 'L' {
        Some(Condition::Always)
    } else if first == 'N' && second == 'V' {
        Some(Condition::Reserved)
    } else {
        None
    }
}

/// A condition: the two letters of its name.
#[verifier::opaque]
pub open spec fn condition_at(line: Seq<char>, from: int) -> Option<(Condition, int)> {
    if 0 <= from && from + 2 <= line.len() {
        match condition_named(line[from], line[from + 1]) {
            Some(condition) => Some((condition, from + 2)),
            None => None,
        }
    } else {
        None
    }
}

/// The shift by `amount` bits, where `amount` is 0, 16, 32 or 48.
pub open spec fn shift_by(amount: int) -> Shift16 {
    if amount == 0 {
        Shift16::Shift0
    } else if amount == 16 {
        Shift16::Shift16
    } else if amount == 32 {
        Shift16::Shift32
    } else {
        Shift16::Shift48
    }
}

/// A shift: `LSL` with any white space before and behind it, and then the
/// longest run of digits, which has to be one of the numerals `0`, `16`, `32`
/// and `48`.
#[verifier::opaque]
pub open spec fn shift_at(line: Seq<char>, from: int) -> Option<(Shift16, int)> {
    let at = skip_spaces(line, from);
    if 0 <= at && at + 3 <= line.len() && line[at] == 'L' && line[at + 1] == 'S' && line[at + 2]
        == 'L' {
        let start = skip_spaces(line, at + 3);
        let end = skip_digits(line, start);
        let digits = line.subrange(start, end);
        let amount = decimal_value(digits);
        if end > start && digits == decimal_text(amount) && (amount == 0 || amount == 16 || amount
            == 32 || amount == 48) {
            Some((shift_by(amount as int), end))
        } else {
            None
        }
    } else {
        None
    }
}

/// A register and the comma behind it.
pub open spec fn register_comma_at(line: Seq<char>, from: int) -> Option<(Register, int)> {
    match register_at(line, from) {
        Some((register, behind)) => match symbol_at(line, behind, ',') {
            Some(next) => Some((register, next)),
            None => None,
        },
        None => None,
    }
}

/// `Rd, Rn, Rm`: the three registers in the order in which they stand.
pub open spec fn three_registers_at(line: Seq<char>, from: int) -> Option<
    ((Register, Register, Register), int),
> {
    match register_comma_at(line, from) {
        Some((first, second_at)) => match register_comma_at(line, second_at) {
            Some((second, third_at)) => match register_at(line, third_at) {
                Some((third, behind)) => Some(((first, second, third), behind)),
                None => None,
            },
            None => None,
        },
        None => None,
    }
}

/// `Rd, Rn, number`: the two registers and the number, which may be `limit`
/// at most in size.
pub open spec fn two_registers_number_at(line: Seq<char>, from: int, limit: int) -> Option<
    ((Register, Register, int), int),
> {
    match register_comma_at(line, from) {
        Some((first, second_at)) => match register_comma_at(line, second_at) {
            Some((second, number_at)) => match immediate_at(line, number_at, limit) {
                Some((number, behind)) => Some(((first, second, number), behind)),
                None => None,
            },
            None => None,
        },
        None => None,
    }
}

/// `Rt, [Rn, offset]`: the data register, the base register and the offset.
pub open spec fn memory_operands_at(line: Seq<char>, from: int) -> Option<
    ((Register, Register, int), int),
> {
    match register_comma_at(line, from) {
        Some((data, bracket_at)) => match symbol_at(line, bracket_at, '[') {
            Some(base_at) => match register_comma_at(line, base_at) {
                Some((base, offset_at)) => match immediate_at(line, offset_at, i16::MAX as int) {
                    Some((offset, closing_at)) => match symbol_at(line, closing_at, ']') {
                        Some(behind) => Some(((data, base, offset), behind)),
                        None => None,
                    },
                    None => None,
                },
                None => None,
            },
            None => None,
        },
        None => None,
    }
}

/// `Rd, number` and then, where it follows, `, LSL amount`: the register, the
/// number and the shift. Where no comma with a shift behind it follows the
/// number, the shift is zero and nothing behind the number is read.
pub open spec fn move_operands_at(line: Seq<char>, from: int) -> Option<
    ((Register, int, Shift16), int),
> {
    match register_comma_at(line, from) {
        Some((destination, number_at)) => match immediate_at(line, number_at, i16::MAX as int) {
            Some((number, comma_at)) => {
                let shift = match symbol_at(line, comma_at, ',') {
                    Some(suffix_at) => shift_at(line, suffix_at),
                    None => None,
                };
                match shift {
                    Some((shift, behind)) => Some(((destination, number, shift), behind)),
                    None => Some(((destination, number, Shift16::Shift0), comma_at)),
                }
            },
            None => None,
        },
        None => None,
    }
}

/// `Rt, number`: the register and the number.
pub open spec fn register_number_at(line: Seq<char>, from: int) -> Option<((Register, int), int)> {
    match register_comma_at(line, from) {
        Some((register, number_at)) => match immediate_at(line, number_at, i32::MAX as int) {
            Some((number, behind)) => Some(((register, number), behind)),
            None => None,
        },
        None => None,
    }
}

/// The target of a conditional branch: a condition and a number, each with
/// any white space before and behind it.
pub open spec fn conditional_target_at(line: Seq<char>, from: int) -> Option<
    ((Condition, int), int),
> {
    match condition_at(line, skip_spaces(line, from)) {
        Some((condition, behind)) => match immediate_at(
            line,
            skip_spaces(line, behind),
            i32::MAX as int,
        ) {
            Some((number, end)) => Some(((condition, number), skip_spaces(line, end))),
            None => None,
        },
        None => None,
    }
}

/// The target of a branch: a number with any white space before and behind
/// it.
pub open spec fn target_at(line: Seq<char>, from: int) -> Option<(int, int)> {
    match immediate_at(line, skip_spaces(line, from), i32::MAX as int) {
        Some((number, end)) => Some((number, skip_spaces(line, end))),
        None => None,
    }
}

/// What an instruction does, without its operands.
#[derive(Copy, Clone, Debug, PartialEq, Eq, Structural)]
pub enum Mnemonic {
    /// `ADD`
    Add,
    /// `SUB`
    Subtract,
    /// `ADDI`
    AddImmediate,
    /// `SUBI`
    SubtractImmediate,
    /// `ADDS`
    AddSetFlags,
    /// `SUBS`
    SubtractSetFlags,
    /// `ADDIS`
    AddImmediateSetFlags,
    /// `SUBIS`
    SubtractImmediateSetFlags,
    /// `STUR`
    Store,
    /// `LDUR`
    Load,
    /// `STURB`
    StoreByte,
    /// `LDURB`
    LoadByte,
    /// `MOVZ`
    MoveZero,
    /// `MOVK`
    MoveKeep,
    /// `AND`
    And,
    /// `ORR`
    Or,
    /// `EOR`
    Xor,
    /// `ANDI`
    AndImmediate,
    /// `ORRI`
    OrImmediate,
    /// `EORI`
    XorImmediate,
    /// `ANDS`
    AndSetFlags,
    /// `ANDIS`
    AndImmediateSetFlags,
    /// `LSR`
    LogicalShiftRight,
    /// `LSL`
    LogicalShiftLeft,
    /// `CBZ`
    CompareBranchZero,
    /// `CBNZ`
    CompareBranchNotZero,
    /// `B`
    Branch,
    /// `BR`
    BranchRegister,
    /// `BL`
    BranchLink,
}

/// The mnemonic that a word is; `B` is the mnemonic of both the branch and
/// the conditional branch.
pub open spec fn mnemonic_named(word: Seq<char>) -> Option<Mnemonic> {
    if word == "ADD"@ {
        Some(Mnemonic::Add)
    } else if word == "SUB"@ {
        Some(Mnemonic::Subtract)
    } else if word == "ADDI"@ {
        Some(Mnemonic::AddImmediate)
    } else if word == "SUBI"@ {
        Some(Mnemonic::SubtractImmediate)
    } else if word == "ADDS"@ {
        Some(Mnemonic::AddSetFlags)
    } else if word == "SUBS"@ {
        Some(Mnemonic::SubtractSetFlags)
    } else if word == "ADDIS"@ {
        Some(Mnemonic::AddImmediateSetFlags)
    } else if word == "SUBIS"@ {
        Some(Mnemonic::SubtractImmediateSetFlags)
    } else if word == "STUR"@ {
        Some(Mnemonic::Store)
    } else if word == "LDUR"@ {
        Some(Mnemonic::Load)
    } else if word == "STURB"@ {
        Some(Mnemonic::StoreByte)
    } else if word == "LDURB"@ {
        Some(Mnemonic::LoadByte)
    } else if word == "MOVZ"@ {
        Some(Mnemonic::MoveZero)
    } else if word == "MOVK"@ {
        Some(Mnemonic::MoveKeep)
    } else if word == "AND"@ {
        Some(Mnemonic::And)
    } else if word == "ORR"@ {
        Some(Mnemonic::Or)
    } else if word == "EOR"@ {
        Some(Mnemonic::Xor)
    } else if word == "ANDI"@ {
        Some(Mnemonic::AndImmediate)
    } else if word == "ORRI"@ {
        Some(Mnemonic::OrImmediate)
    } else if word == "EORI"@ {
        Some(Mnemonic::XorImmediate)
    } else if word == "ANDS"@ {
        Some(Mnemonic::AndSetFlags)
    } else if word == "ANDIS"@ {
        Some(Mnemonic::AndImmediateSetFlags)
    } else if word == "LSR"@ {
        Some(Mnemonic::LogicalShiftRight)
    } else if word == "LSL"@ {
        Some(Mnemonic::LogicalShiftLeft)
    } else if word == "CBZ"@ {
        Some(Mnemonic::CompareBranchZero)
    } else if word == "CBNZ"@ {
        Some(Mnemonic::CompareBranchNotZero)
    } else if word == "B"@ {
        Some(Mnemonic::Branch)
    } else if word == "BR"@ {
        Some(Mnemonic::BranchRegister)
    } else if word == "BL"@ {
        Some(Mnemonic::BranchLink)
    } else {
        None
    }
}

/// The instruction that a mnemonic makes with the operands that stand at
/// `from`. For the mnemonic `B` the conditional branch is tried first, the
/// branch second.
pub open spec fn operands_at(mnemonic: Mnemonic, line: Seq<char>, from: int) -> Option<
    (Instruction, int),
> {
    match mnemonic {
        Mnemonic::Add => match three_registers_at(line, from) {
            Some(((destination, n, m), behind)) => Some(
                (Instruction::Add { n, m, destination }, behind),
            ),
            None => None,
        },
        Mnemonic::Subtract => match three_registers_at(line, from) {
            Some(((destination, n, m), behind)) => Some(
                (Instruction::Subtract { n, m, destination }, behind),
            ),
            None => None,
        },
        Mnemonic::AddImmediate => match two_registers_number_at(line, from, i16::MAX as int) {
            Some(((destination, n, number), behind)) => Some(
                (
                    Instruction::AddImmediate { n, m: Immediate12(number as i16), destination },
                    behind,
                ),
            ),
            None => None,
        },
        Mnemonic::SubtractImmediate => match two_registers_number_at(line, from, i16::MAX as int) {
            Some(((destination, n, number), behind)) => Some(
                (
                    Instruction::SubtractImmediate {
                        n,
                        m: Immediate12(number as i16),
                        destination,
                    },
                    behind,
                ),
            ),
            None => None,
        },
        Mnemonic::AddSetFlags => match three_registers_at(line, from) {
            Some(((destination, n, m), behind)) => Some(
                (Instruction::AddSetFlags { n, m, destination }, behind),
            ),
            None => None,
        },
        Mnemonic::SubtractSetFlags => match three_registers_at(line, from) {
            Some(((destination, n, m), behind)) => Some(
                (Instruction::SubtractSetFlags { n, m, destination }, behind),
            ),
            None => None,
        },
        Mnemonic::AddImmediateSetFlags => match two_registers_number_at(
            line,
            from,
            i16::MAX as int,
        ) {
            Some(((destination, n, number), behind)) => Some(
                (
                    Instruction::AddImmediateSetFlags {
                        n,
                        m: Immediate12(number as i16),
                        destination,
                    },
                    behind,
                ),
            ),
            None => None,
        },
        Mnemonic::SubtractImmediateSetFlags => match two_registers_number_at(
            line,
            from,
            i16::MAX as int,
        ) {
            Some(((destination, n, number), behind)) => Some(
                (
                    Instruction::SubtractImmediateSetFlags {
                        n,
                        m: Immediate12(number as i16),
                        destination,
                    },
                    behind,
                ),
            ),
            None => None,
        },
        Mnemonic::Store => match memory_operands_at(line, from) {
            Some(((data, address, offset), behind)) => Some(
                (Instruction::Store { address, offset: Immediate9(offset as i16), data }, behind),
            ),
            None => None,
        },
        Mnemonic::Load => match memory_operands_at(line, from) {
            Some(((data, address, offset), behind)) => Some(
                (Instruction::Load { address, offset: Immediate9(offset as i16), data }, behind),
            ),
            None => None,
        },
        Mnemonic::StoreByte => match memory_operands_at(line, from) {
            Some(((data, address, offset), behind)) => Some(
                (
                    Instruction::StoreByte { address, offset: Immediate9(offset as i16), data },
                    behind,
                ),
            ),
            None => None,
        },
        Mnemonic::LoadByte => match memory_operands_at(line, from) {
            Some(((data, address, offset), behind)) => Some(
                (
                    Instruction::LoadByte { address, offset: Immediate9(offset as i16), data },
                    behind,
                ),
            ),
            None => None,
        },
        Mnemonic::MoveZero => match move_operands_at(line, from) {
            Some(((destination, number, shift), behind)) => Some(
                (
                    Instruction::MoveZero {
                        immediate: Immediate16(number as i16),
                        shift,
                        destination,
                    },
                    behind,
                ),
            ),
            None => None,
        },
        Mnemonic::MoveKeep => match move_operands_at(line, from) {
            Some(((destination, number, shift), behind)) => Some(
                (
                    Instruction::MoveKeep {
                        immediate: Immediate16(number as i16),
                        shift,
                        destination,
                    },
                    behind,
                ),
            ),
            None => None,
        },
        Mnemonic::And => match three_registers_at(line, from) {
            Some(((destination, n, m), behind)) => Some(
                (Instruction::And { n, m, destination }, behind),
            ),
            None => None,
        },
        Mnemonic::Or => match three_registers_at(line, from) {
            Some(((destination, n, m), behind)) => Some(
                (Instruction::Or { n, m, destination }, behind),
            ),
            None => None,
        },
        Mnemonic::Xor => match three_registers_at(line, from) {
            Some(((destination, n, m), behind)) => Some(
                (Instruction::Xor { n, m, destination }, behind),
            ),
            None => None,
        },
        Mnemonic::AndImmediate => match two_registers_number_at(line, from, i16::MAX as int) {
            Some(((destination, n, number), behind)) => Some(
                (
                    Instruction::AndImmediate { n, m: Immediate12(number as i16), destination },
                    behind,
                ),
            ),
            None => None,
        },
        Mnemonic::OrImmediate => match two_registers_number_at(line, from, i16::MAX as int) {
            Some(((destination, n, number), behind)) => Some(
                (
                    Instruction::OrImmediate { n, m: Immediate12(number as i16), destination },
                    behind,
                ),
            ),
            None => None,
        },
        Mnemonic::XorImmediate => match two_registers_number_at(line, from, i16::MAX as int) {
            Some(((destination, n, number), behind)) => Some(
                (
                    Instruction::XorImmediate { n, m: Immediate12(number as i16), destination },
                    behind,
                ),
            ),
            None => None,
        },
        Mnemonic::AndSetFlags => match three_registers_at(line, from) {
            Some(((destination, n, m), behind)) => Some(
                (Instruction::AndSetFlags { n, m, destination }, behind),
            ),
            None => None,
        },
        Mnemonic::AndImmediateSetFlags => match two_registers_number_at(
            line,
            from,
            i16::MAX as int,
        ) {
            Some(((destination, n, number), behind)) => Some(
                (
                    Instruction::AndImmediateSetFlags {
                        n,
                        m: Immediate12(number as i16),
                        destination,
                    },
                    behind,
                ),
            ),
            None => None,
        },
        Mnemonic::LogicalShiftRight => match two_registers_number_at(line, from, i8::MAX as int) {
            Some(((destination, n, number), behind)) => Some(
                (
                    Instruction::LogicalShiftRight { n, m: Immediate6(number as i8), destination },
                    behind,
                ),
            ),
            None => None,
        },
        Mnemonic::LogicalShiftLeft => match two_registers_number_at(line, from, i8::MAX as int) {
            Some(((destination, n, number), behind)) => Some(
                (
                    Instruction::LogicalShiftLeft { n, m: Immediate6(number as i8), destination },
                    behind,
                ),
            ),
            None => None,
        },
        Mnemonic::CompareBranchZero => match register_number_at(line, from) {
            Some(((r, number), behind)) => Some(
                (Instruction::CompareBranchZero { address: Immediate19(number as i32), r }, behind),
            ),
            None => None,
        },
        Mnemonic::CompareBranchNotZero => match register_number_at(line, from) {
            Some(((r, number), behind)) => Some(
                (
                    Instruction::CompareBranchNotZero { address: Immediate19(number as i32), r },
                    behind,
                ),
            ),
            None => None,
        },
        Mnemonic::Branch => match conditional_target_at(line, from) {
            Some(((condition, number), behind)) => Some(
                (
                    Instruction::ConditionalBranch {
                        address: Immediate19(number as i32),
                        condition,
                    },
                    behind,
                ),
            ),
            None => match target_at(line, from) {
                Some((number, behind)) => Some(
                    (Instruction::Branch { address: Immediate26(number as i32) }, behind),
                ),
                None => None,
            },
        },
        Mnemonic::BranchRegister => match register_at(line, from) {
            Some((r, behind)) => Some((Instruction::BranchRegister { r }, behind)),
            None => None,
        },
        Mnemonic::BranchLink => match immediate_at(line, from, i32::MAX as int) {
            Some((number, behind)) => Some(
                (Instruction::BranchLink { address: Immediate26(number as i32) }, behind),
            ),
            None => None,
        },
    }
}

/// The length of a line's first word: the number of characters before the
/// first blank or full stop from `from` on.
pub open spec fn word_length(line: Seq<char>, from: int) -> nat
    decreases line.len() - from,
{
    if 0 <= from < line.len() && line[from] != ' ' && line[from] != '.' {
        1 + word_length(line, from + 1)
    } else {
        0
    }
}

/// The instruction that a line starts with: a mnemonic, then one blank or
/// full stop, then the mnemonic's operands. What follows the operands is not
/// read.
pub open spec fn instruction_of(line: Seq<char>) -> Option<(Instruction, int)> {
    let end = word_length(line, 0) as int;
    if end < line.len() {
        match mnemonic_named(line.take(end)) {
            Some(mnemonic) => operands_at(mnemonic, line, end + 1),
            None => None,
        }
    } else {
        None
    }
}


/// What a source line is.
#[derive(PartialEq, Debug)]
pub enum AsmLine<'a> {
    /// A line that starts with an instruction.
    Instruction(Instruction),
    /// A comment. The grammar has no rule for comments, so no line is one.
    Comment(&'a str),
    /// A line of white space only, or of nothing.
    Blank,
    /// Any other line.
    Error,
}

/// Whether a line holds white space only.
pub open spec fn is_blank(line: Seq<char>) -> bool {
    skip_spaces(line, 0) >= line.len()
}

/// A line that the grammar accepts, with the position up to which it was
/// read: an instruction, or else a blank line, which is read to its end.
pub open spec fn line_at(line: Seq<char>) -> Option<(AsmLine<'static>, int)> {
    match instruction_of(line) {
        Some((instruction, behind)) => Some((AsmLine::Instruction(instruction), behind)),
        None => if is_blank(line) {
            Some((AsmLine::Blank, line.len() as int))
        } else {
            None
        },
    }
}

/// What a line is: an instruction where it starts with one, blank where it
/// holds white space only, and an error otherwise.
pub open spec fn classify(line: Seq<char>) -> AsmLine<'static> {
    match line_at(line) {
        Some((kind, _)) => kind,
        None => AsmLine::Error,
    }
}

/// No line is a comment.
pub proof fn lemma_no_comment(line: Seq<char>)
    ensures
        !(classify(line) is Comment),
{
}

/// The number of characters from `from` up to the next line feed, or up to
/// the end of the text.
pub open spec fn line_length(text: Seq<char>, from: int) -> nat
    decreases text.len() - from,
{
    if 0 <= from < text.len() && text[from] != '\n' {
        1 + line_length(text, from + 1)
    } else {
        0
    }
}

/// The line that starts at `from` and ends before `end`, where `end` is the
/// place of its line feed or the end of the text: a carriage return just
/// before the line feed belongs to the line ending, not to the line.
pub open spec fn line_between(text: Seq<char>, from: int, end: int) -> Seq<char> {
    if from < end < text.len() && text[end - 1] == '\r' {
        text.subrange(from, end - 1)
    } else {
        text.subrange(from, end)
    }
}

/// The lines of the text from `from` on. A line ends with a line feed, or
/// with the text; behind the last line feed no further line begins.
pub open spec fn lines_from(text: Seq<char>, from: int) -> Seq<Seq<char>>
    decreases text.len() - from,
{
    if 0 <= from < text.len() {
        let end = from + line_length(text, from);
        seq![line_between(text, from, end)] + if end < text.len() {
            lines_from(text, end + 1)
        } else {
            Seq::empty()
        }
    } else {
        Seq::empty()
    }
}

/// The lines of a text.
pub open spec fn lines_of(text: Seq<char>) -> Seq<Seq<char>> {
    lines_from(text, 0)
}

/// What each line of a text is, in the order of the lines.
pub open spec fn parsed_lines(text: Seq<char>) -> Seq<AsmLine<'static>> {
    Seq::new(lines_of(text).len(), |i: int| classify(lines_of(text)[i]))
}

/// Whether `c` is white space.
fn is_space_char(c: char) -> (space: bool)
    ensures
        space == is_space(c),
{
    c == ' ' || c == '\t' || c == '\r' || c == '\n'
}

/// The digit's number, where `c` is a digit.
fn digit_of(c: char) -> (digit: Option<u8>)
    ensures
        is_digit(c) ==> digit == Some(digit_value(c) as u8) && digit_value(c) <= 9,
        !is_digit(c) ==> digit is None,
{
    match c {
        '0' => Some(0),
        '1' => Some(1),
        '2' => Some(2),
        '3' => Some(3),
        '4' => Some(4),
        '5' => Some(5),
        '6' => Some(6),
        '7' => Some(7),
        '8' => Some(8),
        '9' => Some(9),
        _ => None,
    }
}

/// Skips white space from `from` on.
fn read_spaces(line: &[char], from: usize) -> (at: usize)
    requires
        from <= line@.len(),
    ensures
        at == skip_spaces(line@, from as int),
        from <= at <= line@.len(),
{
    let mut at: usize = from;
    while at < line.len() && is_space_char(line[at])
        invariant
            from <= at <= line@.len(),
            skip_spaces(line@, at as int) == skip_spaces(line@, from as int),
        decreases line@.len() - at,
    {
        at += 1;
    }
    at
}

/// Reads `symbol` and the white space around it.
fn read_symbol(line: &[char], from: usize, symbol: char) -> (next: Option<usize>)
    requires
        from <= line@.len(),
    ensures
        match symbol_at(line@, from as int, symbol) {
            Some(behind) => next matches Some(end) && end == behind && from < behind <= line@.len(),
            None => next is None,
        },
{
    reveal(symbol_at);
    let at = read_spaces(line, from);
    if at < line.len() && line[at] == symbol {
        Some(read_spaces(line, at + 1))
    } else {
        None
    }
}

/// Reads the longest run of digits from `from` on: the position behind it,
/// and the number it stands for where that is at most `limit`.
fn read_digits(line: &[char], from: usize, limit: u32) -> (run: (usize, Option<u32>))
    requires
        from <= line@.len(),
    ensures
        run.0 == skip_digits(line@, from as int),
        from <= run.0 <= line@.len(),
        decimal_value(line@.subrange(from as int, run.0 as int)) <= limit ==> run.1 == Some(
            decimal_value(line@.subrange(from as int, run.0 as int)) as u32,
        ),
        decimal_value(line@.subrange(from as int, run.0 as int)) > limit ==> run.1 is None,
{
    let mut at: usize = from;
    let mut value: u64 = 0;
    let mut fits: bool = true;
    loop
        invariant
            from <= at <= line@.len(),
            skip_digits(line@, at as int) == skip_digits(line@, from as int),
            fits ==> value == decimal_value(line@.subrange(from as int, at as int)) && value
                <= limit,
            !fits ==> decimal_value(line@.subrange(from as int, at as int)) > limit,
        ensures
            at == skip_digits(line@, from as int),
        decreases line@.len() - at,
    {
        if at >= line.len() {
            break;
        }
        let digit = match digit_of(line[at]) {
            Some(digit) => digit,
            None => {
                break;
            },
        };
        proof {
            let longer = line@.subrange(from as int, at + 1);
            assert(longer.drop_last() =~= line@.subrange(from as int, at as int));
            assert(longer.last() == line@[at as int]);
        }
        if fits {
            value = value * 10 + digit as u64;
            if value > limit as u64 {
                fits = false;
            }
        }
        at += 1;
    }
    if fits {
        (at, Some(value as u32))
    } else {
        (at, None)
    }
}

/// The register with the given number.
fn register_numbered(number: u32) -> (register: Register)
    requires
        number <= 30,
    ensures
        register == numbered_register(number as int),
{
    let register = match number {
        0 => Register::X0,
        1 => Register::X1,
        2 => Register::X2,
        3 => Register::X3,
        4 => Register::X4,
        5 => Register::X5,
        6 => Register::X6,
        7 => Register::X7,
        8 => Register::X8,
        9 => Register::X9,
        10 => Register::X10,
        11 => Register::X11,
        12 => Register::X12,
        13 => Register::X13,
        14 => Register::X14,
        15 => Register::X15,
        16 => Register::X16,
        17 => Register::X17,
        18 => Register::X18,
        19 => Register::X19,
        20 => Register::X20,
        21 => Register::X21,
        22 => Register::X22,
        23 => Register::X23,
        24 => Register::X24,
        25 => Register::X25,
        26 => Register::X26,
        27 => Register::X27,
        28 => Register::X28,
        29 => Register::X29,
        _ => Register::X30,
    };
    assert(register.ordinal() == number);
    register
}

/// A run of digits is the numeral of a number below 100 without a leading
/// zero exactly if it is one digit, or two digits of which the first is no
/// zero.
proof fn lemma_short_numeral(digits: Seq<char>)
    requires
        digits.len() > 0,
        forall|i: int| 0 <= i < digits.len() ==> is_digit(#[trigger] digits[i]),
        decimal_value(digits) < 100,
    ensures
        digits == decimal_text(decimal_value(digits)) <==> digits.len() == 1 || (digits.len() == 2
            && digits[0] != '0'),
{
    let number = decimal_value(digits);
    reveal_with_fuel(decimal_value, 3);
    reveal_with_fuel(decimal_text, 3);
    if digits.len() == 1 {
        assert(digits.drop_last().len() == 0);
        assert(number == digit_value(digits[0]));
        assert(digits =~= decimal_text(number));
    } else if digits.len() == 2 {
        let front = digits.drop_last();
        assert(front.drop_last().len() == 0);
        assert(front.last() == digits[0]);
        assert(number == 10 * digit_value(digits[0]) + digit_value(digits[1]));
        if digits[0] != '0' {
            assert(number / 10 == digit_value(digits[0]));
            assert(number % 10 == digit_value(digits[1]));
            assert(digits =~= decimal_text(number));
        } else {
            assert(decimal_text(number).len() == 1);
        }
    } else {
        assert(decimal_text(number).len() <= 2);
    }
}

/// Every position of a run of digits holds a digit.
proof fn lemma_digit_run(line: Seq<char>, from: int, at: int)
    requires
        0 <= from <= at < skip_digits(line, from),
    ensures
        0 <= at < line.len(),
        is_digit(line[at]),
    decreases at - from,
{
    if from < at {
        lemma_digit_run(line, from + 1, at);
    }
}

/// Reads a register.
fn read_register(line: &[char], from: usize) -> (found: Option<(Register, usize)>)
    requires
        from <= line@.len(),
    ensures
        match register_at(line@, from as int) {
            Some((register, behind)) => found matches Some((value, end)) && value == register
                && end == behind && from < behind <= line@.len(),
            None => found is None,
        },
{
    reveal(register_at);
    if from < line.len() && line[from] == 'X' {
        let start = from + 1;
        let (end, number) = read_digits(line, start, 30);
        let ghost digits = line@.subrange(start as int, end as int);
        if end > start {
            proof {
                assert forall|i: int| 0 <= i < digits.len() implies is_digit(
                    #[trigger] digits[i],
                ) by {
                    lemma_digit_run(line@, start as int, start + i);
                }
                if decimal_value(digits) < 100 {
                    lemma_short_numeral(digits);
                }
            }
            match number {
                Some(number) => {
                    if end - start == 1 || (end - start == 2 && line[start] != '0') {
                        Some((register_numbered(number), end))
                    } else {
                        None
                    }
                },
                None => None,
            }
        } else if line.len() - from >= 3 && line[from + 1] == 'Z' && line[from + 2] == 'R' {
            Some((Register::XZR, from + 3))
        } else {
            None
        }
    } else {
        None
    }
}

/// Reads a signed number of at most `limit` in size.
fn read_immediate(line: &[char], from: usize, limit: u32) -> (found: Option<(i32, usize)>)
    requires
        from <= line@.len(),
        limit <= i32::MAX,
    ensures
        match immediate_at(line@, from as int, limit as int) {
            Some((number, behind)) => found matches Some((value, end)) && value == number && end
                == behind && -limit <= number <= limit && from < behind <= line@.len(),
            None => found is None,
        },
{
    reveal(immediate_at);
    let negative = from < line.len() && line[from] == '-';
    let start = if negative {
        from + 1
    } else {
        from
    };
    let (end, magnitude) = read_digits(line, start, limit);
    if end == start {
        return None;
    }
    match magnitude {
        Some(magnitude) => {
            if negative {
                Some((-(magnitude as i32), end))
            } else {
                Some((magnitude as i32, end))
            }
        },
        None => None,
    }
}

/// The condition that two letters name.
fn condition_of(first: char, second: char) -> (condition: Option<Condition>)
    ensures
        condition == condition_named(first, second),
{
    if first == 'E' && second == 'Q' {
        Some(Condition::Equal)
    } else if first == 'N' && second == 'E' {
        Some(Condition::NotEqual)
    } else if first == 'H' && second == 'S' {
        Some(Condition::HigherSame)
    } else if first == 'L' && second == 'O' {
        Some(Condition::Lower)
    } else if first == 'M' && second == 'I' {
        Some(Condition::Minus)
    } else if first == 'P' && second == 'L' {
        Some(Condition::PositiveZero)
    } else if first == 'V' && second == 'S' {
        Some(Condition::SignedOverflow)
    } else if first == 'V' && second == 'C' {
        Some(Condition::NoSignedOverflow)
    } else if first == 'H' && second == 'I' {
        Some(Condition::Higher)
    } else if first == 'L' && second == 'S' {
        Some(Condition::LowerSame)
    } else if first == 'G' && second == 'E' {
        Some(Condition::GreaterThanEqual)
    } else if first == 'L' && second == 'T' {
        Some(Condition::LessThan)
    } else if first == 'G' && second == 'T' {
        Some(Condition::GreaterThan)
    } else if first == 'L' && second == 'E' {
        Some(Condition::LessThanEqual)
    } else if first == 'A' && second == 'L' {
        Some(Condition::Always)
    } else if first == 'N' && second == 'V' {
        Some(Condition::Reserved)
    } else {
        None
    }
}

/// Reads a condition.
fn read_condition(line: &[char], from: usize) -> (found: Option<(Condition, usize)>)
    requires
        from <= line@.len(),
    ensures
        match condition_at(line@, from as int) {
            Some((condition, behind)) => found matches Some((value, end)) && value == condition
                && end == behind && from < behind <= line@.len(),
            None => found is None,
        },
{
    reveal(condition_at);
    if line.len() - from >= 2 {
        match condition_of(line[from], line[from + 1]) {
            Some(condition) => Some((condition, from + 2)),
            None => None,
        }
    } else {
        None
    }
}

/// Reads a shift.
fn read_shift(line: &[char], from: usize) -> (found: Option<(Shift16, usize)>)
    requires
        from <= line@.len(),
    ensures
        match shift_at(line@, from as int) {
            Some((shift, behind)) => found matches Some((value, end)) && value == shift
                && end == behind && from < behind <= line@.len(),
            None => found is None,
        },
{
    reveal(shift_at);
    let at = read_spaces(line, from);
    if line.len() - at >= 3 && line[at] == 'L' && line[at + 1] == 'S' && line[at + 2] == 'L' {
        let start = read_spaces(line, at + 3);
        let (end, amount) = read_digits(line, start, 48);
        let ghost digits = line@.subrange(start as int, end as int);
        if end == start {
            return None;
        }
        proof {
            assert forall|i: int| 0 <= i < digits.len() implies is_digit(#[trigger] digits[i]) by {
                lemma_digit_run(line@, start as int, start + i);
            }
            if decimal_value(digits) < 100 {
                lemma_short_numeral(digits);
            }
        }
        let plain = end - start == 1 || (end - start == 2 && line[start] != '0');
        match amount {
            Some(0) => if plain {
                Some((Shift16::Shift0, end))
            } else {
                None
            },
            Some(16) => if plain {
                Some((Shift16::Shift16, end))
            } else {
                None
            },
            Some(32) => if plain {
                Some((Shift16::Shift32, end))
            } else {
                None
            },
            Some(48) => if plain {
                Some((Shift16::Shift48, end))
            } else {
                None
            },
            _ => None,
        }
    } else {
        None
    }
}

/// Reads a register and the comma behind it.
fn read_register_comma(line: &[char], from: usize) -> (found: Option<(Register, usize)>)
    requires
        from <= line@.len(),
    ensures
        match register_comma_at(line@, from as int) {
            Some((register, behind)) => found matches Some((value, end)) && value == register
                && end == behind && from < behind <= line@.len(),
            None => found is None,
        },
{
    match read_register(line, from) {
        Some((register, behind)) => match read_symbol(line, behind, ',') {
            Some(next) => Some((register, next)),
            None => None,
        },
        None => None,
    }
}

/// Reads `Rd, Rn, Rm`.
fn read_three_registers(line: &[char], from: usize) -> (found: Option<
    ((Register, Register, Register), usize),
>)
    requires
        from <= line@.len(),
    ensures
        match three_registers_at(line@, from as int) {
            Some((registers, behind)) => found matches Some((value, end)) && value == registers
                && end == behind && from < behind <= line@.len(),
            None => found is None,
        },
{
    match read_register_comma(line, from) {
        Some((first, second_at)) => match read_register_comma(line, second_at) {
            Some((second, third_at)) => match read_register(line, third_at) {
                Some((third, behind)) => Some(((first, second, third), behind)),
                None => None,
            },
            None => None,
        },
        None => None,
    }
}

/// Reads `Rd, Rn, number`.
fn read_two_registers_number(line: &[char], from: usize, limit: u32) -> (found: Option<
    ((Register, Register, i32), usize),
>)
    requires
        from <= line@.len(),
        limit <= i32::MAX,
    ensures
        match two_registers_number_at(line@, from as int, limit as int) {
            Some((operands, behind)) => found matches Some((values, end)) && values.0 == operands.0
                && values.1 == operands.1 && values.2 == operands.2 && end == behind && -limit
                <= operands.2 <= limit && from < behind <= line@.len(),
            None => found is None,
        },
{
    match read_register_comma(line, from) {
        Some((first, second_at)) => match read_register_comma(line, second_at) {
            Some((second, number_at)) => match read_immediate(line, number_at, limit) {
                Some((number, behind)) => Some(((first, second, number), behind)),
                None => None,
            },
            None => None,
        },
        None => None,
    }
}

/// Reads `Rt, [Rn, offset]`.
fn read_memory_operands(line: &[char], from: usize) -> (found: Option<
    ((Register, Register, i32), usize),
>)
    requires
        from <= line@.len(),
    ensures
        match memory_operands_at(line@, from as int) {
            Some((operands, behind)) => found matches Some((values, end)) && values.0 == operands.0
                && values.1 == operands.1 && values.2 == operands.2 && end == behind && -i16::MAX
                <= operands.2 <= i16::MAX && from < behind <= line@.len(),
            None => found is None,
        },
{
    match read_register_comma(line, from) {
        Some((data, bracket_at)) => match read_symbol(line, bracket_at, '[') {
            Some(base_at) => match read_register_comma(line, base_at) {
                Some((base, offset_at)) => match read_immediate(line, offset_at, 0x7fff) {
                    Some((offset, closing_at)) => match read_symbol(line, closing_at, ']') {
                        Some(behind) => Some(((data, base, offset), behind)),
                        None => None,
                    },
                    None => None,
                },
                None => None,
            },
            None => None,
        },
        None => None,
    }
}

/// Reads `Rd, number` and the shift that may follow.
fn read_move_operands(line: &[char], from: usize) -> (found: Option<
    ((Register, i32, Shift16), usize),
>)
    requires
        from <= line@.len(),
    ensures
        match move_operands_at(line@, from as int) {
            Some((operands, behind)) => found matches Some((values, end)) && values.0 == operands.0
                && values.1 == operands.1 && values.2 == operands.2 && end == behind && -i16::MAX
                <= operands.1 <= i16::MAX && from < behind <= line@.len(),
            None => found is None,
        },
{
    match read_register_comma(line, from) {
        Some((destination, number_at)) => match read_immediate(line, number_at, 0x7fff) {
            Some((number, comma_at)) => {
                let shift = match read_symbol(line, comma_at, ',') {
                    Some(suffix_at) => read_shift(line, suffix_at),
                    None => None,
                };
                match shift {
                    Some((shift, behind)) => Some(((destination, number, shift), behind)),
                    None => Some(((destination, number, Shift16::Shift0), comma_at)),
                }
            },
            None => None,
        },
        None => None,
    }
}

/// Reads `Rt, number`.
fn read_register_number(line: &[char], from: usize) -> (found: Option<((Register, i32), usize)>)
    requires
        from <= line@.len(),
    ensures
        match register_number_at(line@, from as int) {
            Some((operands, behind)) => found matches Some((values, end)) && values.0 == operands.0
                && values.1 == operands.1 && end == behind && from < behind <= line@.len(),
            None => found is None,
        },
{
    match read_register_comma(line, from) {
        Some((register, number_at)) => match read_immediate(line, number_at, 0x7fff_ffff) {
            Some((number, behind)) => Some(((register, number), behind)),
            None => None,
        },
        None => None,
    }
}

/// Reads the condition and the number of a conditional branch.
fn read_conditional_target(line: &[char], from: usize) -> (found: Option<
    ((Condition, i32), usize),
>)
    requires
        from <= line@.len(),
    ensures
        match conditional_target_at(line@, from as int) {
            Some((operands, behind)) => found matches Some((values, end)) && values.0 == operands.0
                && values.1 == operands.1 && end == behind && from < behind <= line@.len(),
            None => found is None,
        },
{
    let at = read_spaces(line, from);
    match read_condition(line, at) {
        Some((condition, behind)) => {
            let number_at = read_spaces(line, behind);
            match read_immediate(line, number_at, 0x7fff_ffff) {
                Some((number, end)) => Some(((condition, number), read_spaces(line, end))),
                None => None,
            }
        },
        None => None,
    }
}

/// Reads the number of a branch.
fn read_target(line: &[char], from: usize) -> (found: Option<(i32, usize)>)
    requires
        from <= line@.len(),
    ensures
        match target_at(line@, from as int) {
            Some((number, behind)) => found matches Some((value, end)) && value == number && end
                == behind && from < behind <= line@.len(),
            None => found is None,
        },
{
    let at = read_spaces(line, from);
    match read_immediate(line, at, 0x7fff_ffff) {
        Some((number, end)) => Some((number, read_spaces(line, end))),
        None => None,
    }
}

/// Whether the first `end` characters of the line are the word.
fn is_word(line: &[char], end: usize, word: &str) -> (same: bool)
    requires
        end <= line@.len(),
    ensures
        same == (line@.take(end as int) == word@),
{
    if word.unicode_len() != end {
        return false;
    }
    let mut i: usize = 0;
    while i < end
        invariant
            i <= end <= line@.len(),
            word@.len() == end,
            forall|j: int| 0 <= j < i ==> line@[j] == word@[j],
        decreases end - i,
    {
        if line[i] != word.get_char(i) {
            assert(line@.take(end as int)[i as int] != word@[i as int]);
            return false;
        }
        i += 1;
    }
    assert(line@.take(end as int) =~= word@);
    true
}

/// The mnemonic that the first `end` characters of the line are.
fn read_mnemonic(line: &[char], end: usize) -> (found: Option<Mnemonic>)
    requires
        end <= line@.len(),
    ensures
        found == mnemonic_named(line@.take(end as int)),
{
    if is_word(line, end, "ADD") {
        Some(Mnemonic::Add)
    } else if is_word(line, end, "SUB") {
        Some(Mnemonic::Subtract)
    } else if is_word(line, end, "ADDI") {
        Some(Mnemonic::AddImmediate)
    } else if is_word(line, end, "SUBI") {
        Some(Mnemonic::SubtractImmediate)
    } else if is_word(line, end, "ADDS") {
        Some(Mnemonic::AddSetFlags)
    } else if is_word(line, end, "SUBS") {
        Some(Mnemonic::SubtractSetFlags)
    } else if is_word(line, end, "ADDIS") {
        Some(Mnemonic::AddImmediateSetFlags)
    } else if is_word(line, end, "SUBIS") {
        Some(Mnemonic::SubtractImmediateSetFlags)
    } else if is_word(line, end, "STUR") {
        Some(Mnemonic::Store)
    } else if is_word(line, end, "LDUR") {
        Some(Mnemonic::Load)
    } else if is_word(line, end, "STURB") {
        Some(Mnemonic::StoreByte)
    } else if is_word(line, end, "LDURB") {
        Some(Mnemonic::LoadByte)
    } else if is_word(line, end, "MOVZ") {
        Some(Mnemonic::MoveZero)
    } else if is_word(line, end, "MOVK") {
        Some(Mnemonic::MoveKeep)
    } else if is_word(line, end, "AND") {
        Some(Mnemonic::And)
    } else if is_word(line, end, "ORR") {
        Some(Mnemonic::Or)
    } else if is_word(line, end, "EOR") {
        Some(Mnemonic::Xor)
    } else if is_word(line, end, "ANDI") {
        Some(Mnemonic::AndImmediate)
    } else if is_word(line, end, "ORRI") {
        Some(Mnemonic::OrImmediate)
    } else if is_word(line, end, "EORI") {
        Some(Mnemonic::XorImmediate)
    } else if is_word(line, end, "ANDS") {
        Some(Mnemonic::AndSetFlags)
    } else if is_word(line, end, "ANDIS") {
        Some(Mnemonic::AndImmediateSetFlags)
    } else if is_word(line, end, "LSR") {
        Some(Mnemonic::LogicalShiftRight)
    } else if is_word(line, end, "LSL") {
        Some(Mnemonic::LogicalShiftLeft)
    } else if is_word(line, end, "CBZ") {
        Some(Mnemonic::CompareBranchZero)
    } else if is_word(line, end, "CBNZ") {
        Some(Mnemonic::CompareBranchNotZero)
    } else if is_word(line, end, "B") {
        Some(Mnemonic::Branch)
    } else if is_word(line, end, "BR") {
        Some(Mnemonic::BranchRegister)
    } else if is_word(line, end, "BL") {
        Some(Mnemonic::BranchLink)
    } else {
        None
    }
}

/// Reads the operands of a mnemonic and makes the instruction.
fn read_operands(mnemonic: Mnemonic, line: &[char], from: usize) -> (found: Option<
    (Instruction, usize),
>)
    requires
        from <= line@.len(),
    ensures
        match operands_at(mnemonic, line@, from as int) {
            Some((instruction, behind)) => found matches Some((value, end)) && value
                == instruction && end == behind && from <= behind <= line@.len(),
            None => found is None,
        },
{
    match mnemonic {
        Mnemonic::Add => match read_three_registers(line, from) {
            Some(((destination, n, m), behind)) => Some(
                (Instruction::Add { n, m, destination }, behind),
            ),
            None => None,
        },
        Mnemonic::Subtract => match read_three_registers(line, from) {
            Some(((destination, n, m), behind)) => Some(
                (Instruction::Subtract { n, m, destination }, behind),
            ),
            None => None,
        },
        Mnemonic::AddImmediate => match read_two_registers_number(line, from, 0x7fff) {
            Some(((destination, n, number), behind)) => Some(
                (
                    Instruction::AddImmediate { n, m: Immediate12(number as i16), destination },
                    behind,
                ),
            ),
            None => None,
        },
        Mnemonic::SubtractImmediate => match read_two_registers_number(line, from, 0x7fff) {
            Some(((destination, n, number), behind)) => Some(
                (
                    Instruction::SubtractImmediate {
                        n,
                        m: Immediate12(number as i16),
                        destination,
                    },
                    behind,
                ),
            ),
            None => None,
        },
        Mnemonic::AddSetFlags => match read_three_registers(line, from) {
            Some(((destination, n, m), behind)) => Some(
                (Instruction::AddSetFlags { n, m, destination }, behind),
            ),
            None => None,
        },
        Mnemonic::SubtractSetFlags => match read_three_registers(line, from) {
            Some(((destination, n, m), behind)) => Some(
                (Instruction::SubtractSetFlags { n, m, destination }, behind),
            ),
            None => None,
        },
        Mnemonic::AddImmediateSetFlags => match read_two_registers_number(line, from, 0x7fff) {
            Some(((destination, n, number), behind)) => Some(
                (
                    Instruction::AddImmediateSetFlags {
                        n,
                        m: Immediate12(number as i16),
                        destination,
                    },
                    behind,
                ),
            ),
            None => None,
        },
        Mnemonic::SubtractImmediateSetFlags => match read_two_registers_number(line, from, 0x7fff) {
            Some(((destination, n, number), behind)) => Some(
                (
                    Instruction::SubtractImmediateSetFlags {
                        n,
                        m: Immediate12(number as i16),
                        destination,
                    },
                    behind,
                ),
            ),
            None => None,
        },
        Mnemonic::Store => match read_memory_operands(line, from) {
            Some(((data, address, offset), behind)) => Some(
                (Instruction::Store { address, offset: Immediate9(offset as i16), data }, behind),
            ),
            None => None,
        },
        Mnemonic::Load => match read_memory_operands(line, from) {
            Some(((data, address, offset), behind)) => Some(
                (Instruction::Load { address, offset: Immediate9(offset as i16), data }, behind),
            ),
            None => None,
        },
        Mnemonic::StoreByte => match read_memory_operands(line, from) {
            Some(((data, address, offset), behind)) => Some(
                (
                    Instruction::StoreByte { address, offset: Immediate9(offset as i16), data },
                    behind,
                ),
            ),
            None => None,
        },
        Mnemonic::LoadByte => match read_memory_operands(line, from) {
            Some(((data, address, offset), behind)) => Some(
                (
                    Instruction::LoadByte { address, offset: Immediate9(offset as i16), data },
                    behind,
                ),
            ),
            None => None,
        },
        Mnemonic::MoveZero => match read_move_operands(line, from) {
            Some(((destination, number, shift), behind)) => Some(
                (
                    Instruction::MoveZero {
                        immediate: Immediate16(number as i16),
                        shift,
                        destination,
                    },
                    behind,
                ),
            ),
            None => None,
        },
        Mnemonic::MoveKeep => match read_move_operands(line, from) {
            Some(((destination, number, shift), behind)) => Some(
                (
                    Instruction::MoveKeep {
                        immediate: Immediate16(number as i16),
                        shift,
                        destination,
                    },
                    behind,
                ),
            ),
            None => None,
        },
        Mnemonic::And => match read_three_registers(line, from) {
            Some(((destination, n, m), behind)) => Some(
                (Instruction::And { n, m, destination }, behind),
            ),
            None => None,
        },
        Mnemonic::Or => match read_three_registers(line, from) {
            Some(((destination, n, m), behind)) => Some(
                (Instruction::Or { n, m, destination }, behind),
            ),
            None => None,
        },
        Mnemonic::Xor => match read_three_registers(line, from) {
            Some(((destination, n, m), behind)) => Some(
                (Instruction::Xor { n, m, destination }, behind),
            ),
            None => None,
        },
        Mnemonic::AndImmediate => match read_two_registers_number(line, from, 0x7fff) {
            Some(((destination, n, number), behind)) => Some(
                (
                    Instruction::AndImmediate { n, m: Immediate12(number as i16), destination },
                    behind,
                ),
            ),
            None => None,
        },
        Mnemonic::OrImmediate => match read_two_registers_number(line, from, 0x7fff) {
            Some(((destination, n, number), behind)) => Some(
                (
                    Instruction::OrImmediate { n, m: Immediate12(number as i16), destination },
                    behind,
                ),
            ),
            None => None,
        },
        Mnemonic::XorImmediate => match read_two_registers_number(line, from, 0x7fff) {
            Some(((destination, n, number), behind)) => Some(
                (
                    Instruction::XorImmediate { n, m: Immediate12(number as i16), destination },
                    behind,
                ),
            ),
            None => None,
        },
        Mnemonic::AndSetFlags => match read_three_registers(line, from) {
            Some(((destination, n, m), behind)) => Some(
                (Instruction::AndSetFlags { n, m, destination }, behind),
            ),
            None => None,
        },
        Mnemonic::AndImmediateSetFlags => match read_two_registers_number(line, from, 0x7fff) {
            Some(((destination, n, number), behind)) => Some(
                (
                    Instruction::AndImmediateSetFlags {
                        n,
                        m: Immediate12(number as i16),
                        destination,
                    },
                    behind,
                ),
            ),
            None => None,
        },
        Mnemonic::LogicalShiftRight => match read_two_registers_number(line, from, 0x7f) {
            Some(((destination, n, number), behind)) => Some(
                (
                    Instruction::LogicalShiftRight { n, m: Immediate6(number as i8), destination },
                    behind,
                ),
            ),
            None => None,
        },
        Mnemonic::LogicalShiftLeft => match read_two_registers_number(line, from, 0x7f) {
            Some(((destination, n, number), behind)) => Some(
                (
                    Instruction::LogicalShiftLeft { n, m: Immediate6(number as i8), destination },
                    behind,
                ),
            ),
            None => None,
        },
        Mnemonic::CompareBranchZero => match read_register_number(line, from) {
            Some(((r, number), behind)) => Some(
                (Instruction::CompareBranchZero { address: Immediate19(number as i32), r }, behind),
            ),
            None => None,
        },
        Mnemonic::CompareBranchNotZero => match read_register_number(line, from) {
            Some(((r, number), behind)) => Some(
                (
                    Instruction::CompareBranchNotZero { address: Immediate19(number as i32), r },
                    behind,
                ),
            ),
            None => None,
        },
        Mnemonic::Branch => match read_conditional_target(line, from) {
            Some(((condition, number), behind)) => Some(
                (
                    Instruction::ConditionalBranch {
                        address: Immediate19(number as i32),
                        condition,
                    },
                    behind,
                ),
            ),
            None => match read_target(line, from) {
                Some((number, behind)) => Some(
                    (Instruction::Branch { address: Immediate26(number as i32) }, behind),
                ),
                None => None,
            },
        },
        Mnemonic::BranchRegister => match read_register(line, from) {
            Some((r, behind)) => Some((Instruction::BranchRegister { r }, behind)),
            None => None,
        },
        Mnemonic::BranchLink => match read_immediate(line, from, 0x7fff_ffff) {
            Some((number, behind)) => Some(
                (Instruction::BranchLink { address: Immediate26(number as i32) }, behind),
            ),
            None => None,
        },
    }
}

/// The length of the line's first word.
fn read_word(line: &[char]) -> (end: usize)
    ensures
        end == word_length(line@, 0),
        end <= line@.len(),
{
    let mut end: usize = 0;
    while end < line.len() && line[end] != ' ' && line[end] != '.'
        invariant
            end <= line@.len(),
            end + word_length(line@, end as int) == word_length(line@, 0),
        decreases line@.len() - end,
    {
        end += 1;
    }
    end
}

/// Reads the instruction that the line starts with.
fn read_instruction(line: &[char]) -> (found: Option<(Instruction, usize)>)
    ensures
        match instruction_of(line@) {
            Some((instruction, behind)) => found matches Some((value, end)) && value
                == instruction && end == behind && behind <= line@.len(),
            None => found is None,
        },
{
    let end = read_word(line);
    if end < line.len() {
        match read_mnemonic(line, end) {
            Some(mnemonic) => read_operands(mnemonic, line, end + 1),
            None => None,
        }
    } else {
        None
    }
}


/// Reads a line that is an instruction or blank.
fn read_line(line: &[char]) -> (found: Option<(AsmLine<'static>, usize)>)
    ensures
        match line_at(line@) {
            Some((kind, behind)) => found matches Some((value, end)) && value == kind && end
                == behind && behind <= line@.len(),
            None => found is None,
        },
{
    match read_instruction(line) {
        Some((instruction, behind)) => Some((AsmLine::Instruction(instruction), behind)),
        None => {
            if read_spaces(line, 0) >= line.len() {
                Some((AsmLine::Blank, line.len()))
            } else {
                None
            }
        },
    }
}

/// The characters of a text.
fn chars_of(text: &str) -> (chars: Vec<char>)
    ensures
        chars@ == text@,
{
    let mut chars: Vec<char> = Vec::new();
    for c in it: text.chars()
        invariant
            it.seq() == text@,
            chars@ == it.seq().take(it.index()),
    {
        chars.push(c);
    }
    assert(chars@ =~= text@);
    chars
}

/// The text from the character at position `from` on.
fn rest_of<'a>(text: &'a str, length: usize, from: usize) -> (rest: &'a str)
    requires
        length == text@.len(),
        from <= length,
    ensures
        rest@ == text@.skip(from as int),
{
    text.substring_char(from, length)
}

/// Reads a register at the start of the text: the register and the text
/// behind it.
pub fn parse_register<'a>(input: &'a str) -> (parsed: Option<(&'a str, Register)>)
    ensures
        match register_at(input@, 0) {
            Some((register, behind)) => parsed matches Some((rest, value)) && value == register
                && rest@ == input@.skip(behind),
            None => parsed is None,
        },
{
    let chars = chars_of(input);
    match read_register(chars.as_slice(), 0) {
        Some((register, behind)) => Some((rest_of(input, chars.len(), behind), register)),
        None => None,
    }
}

/// Reads a number for a 6-bit field at the start of the text: the immediate
/// and the text behind it. The number may be as large as an `i8` holds, with
/// either sign.
pub fn parse_immediate_6<'a>(input: &'a str) -> (parsed: Option<(&'a str, Immediate6)>)
    ensures
        match immediate_at(input@, 0, i8::MAX as int) {
            Some((number, behind)) => parsed matches Some((rest, value)) && value.0 == number
                && rest@ == input@.skip(behind),
            None => parsed is None,
        },
{
    let chars = chars_of(input);
    match read_immediate(chars.as_slice(), 0, 0x7f) {
        Some((number, behind)) => Some(
            (rest_of(input, chars.len(), behind), Immediate6(number as i8)),
        ),
        None => None,
    }
}

/// Reads a number for a 9-bit field at the start of the text: the immediate
/// and the text behind it. The number may be as large as an `i16` holds, with
/// either sign.
pub fn parse_immediate_9<'a>(input: &'a str) -> (parsed: Option<(&'a str, Immediate9)>)
    ensures
        match immediate_at(input@, 0, i16::MAX as int) {
            Some((number, behind)) => parsed matches Some((rest, value)) && value.0 == number
                && rest@ == input@.skip(behind),
            None => parsed is None,
        },
{
    let chars = chars_of(input);
    match read_immediate(chars.as_slice(), 0, 0x7fff) {
        Some((number, behind)) => Some(
            (rest_of(input, chars.len(), behind), Immediate9(number as i16)),
        ),
        None => None,
    }
}

/// Reads a number for a 12-bit field at the start of the text: the immediate
/// and the text behind it. The number may be as large as an `i16` holds, with
/// either sign.
pub fn parse_immediate_12<'a>(input: &'a str) -> (parsed: Option<(&'a str, Immediate12)>)
    ensures
        match immediate_at(input@, 0, i16::MAX as int) {
            Some((number, behind)) => parsed matches Some((rest, value)) && value.0 == number
                && rest@ == input@.skip(behind),
            None => parsed is None,
        },
{
    let chars = chars_of(input);
    match read_immediate(chars.as_slice(), 0, 0x7fff) {
        Some((number, behind)) => Some(
            (rest_of(input, chars.len(), behind), Immediate12(number as i16)),
        ),
        None => None,
    }
}

/// Reads a number for a 16-bit field at the start of the text: the immediate
/// and the text behind it. The number may be as large as an `i16` holds, with
/// either sign.
pub fn parse_immediate_16<'a>(input: &'a str) -> (parsed: Option<(&'a str, Immediate16)>)
    ensures
        match immediate_at(input@, 0, i16::MAX as int) {
            Some((number, behind)) => parsed matches Some((rest, value)) && value.0 == number
                && rest@ == input@.skip(behind),
            None => parsed is None,
        },
{
    let chars = chars_of(input);
    match read_immediate(chars.as_slice(), 0, 0x7fff) {
        Some((number, behind)) => Some(
            (rest_of(input, chars.len(), behind), Immediate16(number as i16)),
        ),
        None => None,
    }
}

/// Reads a number for a 19-bit field at the start of the text: the immediate
/// and the text behind it. The number may be as large as an `i32` holds, with
/// either sign.
pub fn parse_immediate_19<'a>(input: &'a str) -> (parsed: Option<(&'a str, Immediate19)>)
    ensures
        match immediate_at(input@, 0, i32::MAX as int) {
            Some((number, behind)) => parsed matches Some((rest, value)) && value.0 == number
                && rest@ == input@.skip(behind),
            None => parsed is None,
        },
{
    let chars = chars_of(input);
    match read_immediate(chars.as_slice(), 0, 0x7fff_ffff) {
        Some((number, behind)) => Some(
            (rest_of(input, chars.len(), behind), Immediate19(number as i32)),
        ),
        None => None,
    }
}

/// Reads a number for a 26-bit field at the start of the text: the immediate
/// and the text behind it. The number may be as large as an `i32` holds, with
/// either sign.
pub fn parse_immediate_26<'a>(input: &'a str) -> (parsed: Option<(&'a str, Immediate26)>)
    ensures
        match immediate_at(input@, 0, i32::MAX as int) {
            Some((number, behind)) => parsed matches Some((rest, value)) && value.0 == number
                && rest@ == input@.skip(behind),
            None => parsed is None,
        },
{
    let chars = chars_of(input);
    match read_immediate(chars.as_slice(), 0, 0x7fff_ffff) {
        Some((number, behind)) => Some(
            (rest_of(input, chars.len(), behind), Immediate26(number as i32)),
        ),
        None => None,
    }
}

/// Reads a shift in the form `LSL 16` at the start of the text: the shift and
/// the text behind it.
pub fn parse_shift<'a>(input: &'a str) -> (parsed: Option<(&'a str, Shift16)>)
    ensures
        match shift_at(input@, 0) {
            Some((shift, behind)) => parsed matches Some((rest, value)) && value == shift && rest@
                == input@.skip(behind),
            None => parsed is None,
        },
{
    let chars = chars_of(input);
    match read_shift(chars.as_slice(), 0) {
        Some((shift, behind)) => Some((rest_of(input, chars.len(), behind), shift)),
        None => None,
    }
}

/// Reads a condition at the start of the text: the condition and the text
/// behind it.
pub fn parse_condition<'a>(input: &'a str) -> (parsed: Option<(&'a str, Condition)>)
    ensures
        match condition_at(input@, 0) {
            Some((condition, behind)) => parsed matches Some((rest, value)) && value == condition
                && rest@ == input@.skip(behind),
            None => parsed is None,
        },
{
    let chars = chars_of(input);
    match read_condition(chars.as_slice(), 0) {
        Some((condition, behind)) => Some((rest_of(input, chars.len(), behind), condition)),
        None => None,
    }
}

/// Reads an instruction and its operands at the start of the text: the
/// instruction and the text behind it.
pub fn parse_instruction<'a>(input: &'a str) -> (parsed: Option<(&'a str, Instruction)>)
    ensures
        match instruction_of(input@) {
            Some((instruction, behind)) => parsed matches Some((rest, value)) && value
                == instruction && rest@ == input@.skip(behind),
            None => parsed is None,
        },
{
    let chars = chars_of(input);
    match read_instruction(chars.as_slice()) {
        Some((instruction, behind)) => Some((rest_of(input, chars.len(), behind), instruction)),
        None => None,
    }
}

/// Reads a line: an instruction with the text behind it, or a blank line with
/// nothing behind it. `None` for a line that is neither.
pub fn parse_line<'a>(line: &'a str) -> (parsed: Option<(&'a str, AsmLine<'a>)>)
    ensures
        match line_at(line@) {
            Some((kind, behind)) => parsed matches Some((rest, value)) && value == kind && rest@
                == line@.skip(behind),
            None => parsed is None,
        },
{
    let chars = chars_of(line);
    match read_line(chars.as_slice()) {
        Some((kind, behind)) => Some((rest_of(line, chars.len(), behind), kind)),
        None => None,
    }
}

/// Parse lines to instructions
pub fn parse_lines<'a>(lines: &'a str) -> (parsed: Vec<AsmLine<'a>>)
    ensures
        parsed@ == parsed_lines(lines@),
{
    let chars = chars_of(lines);
    let text = chars.as_slice();
    let mut parsed: Vec<AsmLine<'a>> = Vec::new();
    let mut from: usize = 0;
    while from < text.len()
        invariant
            text@ == lines@,
            from <= text@.len(),
            parsed@.len() + lines_from(text@, from as int).len() == lines_of(text@).len(),
            forall|i: int| 0 <= i < parsed@.len() ==> parsed@[i] == classify(lines_of(text@)[i]),
            forall|i: int|
                0 <= i < lines_from(text@, from as int).len() ==> lines_from(text@, from as int)[i]
                    == lines_of(text@)[parsed@.len() + i],
        decreases text@.len() - from,
    {
        let mut end: usize = from;
        while end < text.len() && text[end] != '\n'
            invariant
                from <= end <= text@.len(),
                end + line_length(text@, end as int) == from + line_length(text@, from as int),
            decreases text@.len() - end,
        {
            end += 1;
        }
        let stop = if from < end && end < text.len() && text[end - 1] == '\r' {
            end - 1
        } else {
            end
        };
        let line = slice_subrange(text, from, stop);
        let kind = match read_line(line) {
            Some((kind, _)) => kind,
            None => AsmLine::Error,
        };
        proof {
            let rest = lines_from(text@, from as int);
            let later = if end < text@.len() {
                lines_from(text@, end + 1)
            } else {
                Seq::empty()
            };
            assert(later == lines_from(text@, if end < text@.len() {
                end + 1
            } else {
                end as int
            }));
            assert(line@ == line_between(text@, from as int, end as int));
            assert(rest == seq![line@] + later);
            assert(rest[0] == line@);
            assert forall|i: int| 0 <= i < later.len() implies later[i] == lines_of(
                text@,
            )[parsed@.len() + 1 + i] by {
                assert(later[i] == rest[i + 1]);
            }
        }
        parsed.push(kind);
        from = if end < text.len() {
            end + 1
        } else {
            end
        };
    }
    assert(parsed@ =~= parsed_lines(lines@));
    parsed
}

} // verus!
