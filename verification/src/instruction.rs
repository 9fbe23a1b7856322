//! The instructions and their 32-bit words.
//!
//! A word is a sequence of 32 bits with the least significant bit first. An
//! instruction's word is laid out by its format: the operand fields from bit 0
//! up, zeros where the format leaves bits unused, and the opcode in the
//! highest bits.

use vstd::prelude::*;
use vstd::std_specs::convert::FromSpecImpl;
use crate::bit::{array_of, bits_of, lemma_array_of, low_bits, Bit};
use crate::condition::Condition;
use crate::immediate::{Immediate12, Immediate16, Immediate19, Immediate26, Immediate6, Immediate9};
use crate::register::Register;
use crate::shift16::Shift16;

verus! {

/// One machine instruction with its operands.
#[allow(inconsistent_fields)]
#[derive(Copy, Clone, Debug, PartialEq, Eq, Structural)]
pub enum Instruction {
    /// `ADD Rd, Rn, Rm`
    Add {
        n: Register,
        m: Register,
        destination: Register,
    },
    /// `SUB Rd, Rn, Rm`
    Subtract {
        n: Register,
        m: Register,
        destination: Register,
    },
    /// `ADDI Rd, Rn, imm`
    AddImmediate {
        n: Register,
        m: Immediate12,
        destination: Register,
    },
    /// `SUBI Rd, Rn, imm`
    SubtractImmediate {
        n: Register,
        m: Immediate12,
        destination: Register,
    },
    /// `ADDS Rd, Rn, Rm`
    AddSetFlags {
        n: Register,
        m: Register,
        destination: Register,
    },
    /// `SUBS Rd, Rn, Rm`
    SubtractSetFlags {
        n: Register,
        m: Register,
        destination: Register,
    },
    /// `ADDIS Rd, Rn, imm`
    AddImmediateSetFlags {
        n: Register,
        m: Immediate12,
        destination: Register,
    },
    /// `SUBIS Rd, Rn, imm`
    SubtractImmediateSetFlags {
        n: Register,
        m: Immediate12,
        destination: Register,
    },
    /// `STUR Rt, [Rn, offset]`
    Store {
        address: Register,
        offset: Immediate9,
        data: Register,
    },
    /// `LDUR Rt, [Rn, offset]`
    Load {
        address: Register,
        offset: Immediate9,
        data: Register,
    },
    /// `STURB Rt, [Rn, offset]`
    StoreByte {
        address: Register,
        offset: Immediate9,
        data: Register,
    },
    /// `LDURB Rt, [Rn, offset]`
    LoadByte {
        address: Register,
        offset: Immediate9,
        data: Register,
    },
    /// `MOVZ Rd, imm, LSL shift`
    MoveZero {
        immediate: Immediate16,
        shift: Shift16,
        destination: Register,
    },
    /// `MOVK Rd, imm, LSL shift`
    MoveKeep {
        immediate: Immediate16,
        shift: Shift16,
        destination: Register,
    },
    /// `AND Rd, Rn, Rm`
    And {
        n: Register,
        m: Register,
        destination: Register,
    },
    /// `ORR Rd, Rn, Rm`
    Or {
        n: Register,
        m: Register,
        destination: Register,
    },
    /// `EOR Rd, Rn, Rm`
    Xor {
        n: Register,
        m: Register,
        destination: Register,
    },
    /// `ANDI Rd, Rn, imm`
    AndImmediate {
        n: Register,
        m: Immediate12,
        destination: Register,
    },
    /// `ORRI Rd, Rn, imm`
    OrImmediate {
        n: Register,
        m: Immediate12,
        destination: Register,
    },
    /// `EORI Rd, Rn, imm`
    XorImmediate {
        n: Register,
        m: Immediate12,
        destination: Register,
    },
    /// `ANDS Rd, Rn, Rm`
    AndSetFlags {
        n: Register,
        m: Register,
        destination: Register,
    },
    /// `ANDIS Rd, Rn, imm`
    AndImmediateSetFlags {
        n: Register,
        m: Immediate12,
        destination: Register,
    },
    /// `LSR Rd, Rn, amount`
    LogicalShiftRight {
        n: Register,
        m: Immediate6,
        destination: Register,
    },
    /// `LSL Rd, Rn, amount`
    LogicalShiftLeft {
        n: Register,
        m: Immediate6,
        destination: Register,
    },
    /// `CBZ Rt, address`
    CompareBranchZero {
        address: Immediate19,
        r: Register,
    },
    /// `CBNZ Rt, address`
    CompareBranchNotZero {
        address: Immediate19,
        r: Register,
    },
    /// `B.cond address`
    ConditionalBranch {
        address: Immediate19,
        condition: Condition,
    },
    /// `B address`
    Branch {
        address: Immediate26,
    },
    /// `BR Rn`
    BranchRegister {
        r: Register,
    },
    /// `BL address`
    BranchLink {
        address: Immediate26,
    },
}

/// `count` zero bits.
pub open spec fn zeros(count: nat) -> Seq<Bit> {
    Seq::new(count, |i: int| Bit::Zero)
}

/// Register format: Rd in bits 0 to 4, Rn in bits 5 to 9, Rm in bits 16 to
/// 20, and an opcode of eleven bits from bit 21.
pub open spec fn register_format(
    opcode: int,
    m: Register,
    n: Register,
    destination: Register,
) -> Seq<Bit> {
    destination.bits() + n.bits() + zeros(6) + m.bits() + bits_of(opcode, 11)
}

/// Immediate format: Rd in bits 0 to 4, Rn in bits 5 to 9, the immediate in
/// bits 10 to 21, and an opcode of ten bits from bit 22.
pub open spec fn immediate_format(
    opcode: int,
    m: Immediate12,
    n: Register,
    destination: Register,
) -> Seq<Bit> {
    destination.bits() + n.bits() + m.bits() + bits_of(opcode, 10)
}

/// Data format: Rt in bits 0 to 4, the base register in bits 5 to 9, the
/// offset in bits 12 to 20, and an opcode of eleven bits from bit 21.
pub open spec fn data_format(
    opcode: int,
    offset: Immediate9,
    address: Register,
    data: Register,
) -> Seq<Bit> {
    data.bits() + address.bits() + zeros(2) + offset.bits() + bits_of(opcode, 11)
}

/// Wide-move format: Rd in bits 0 to 4, the immediate in bits 5 to 20, the
/// shift in bits 21 and 22, and an opcode of nine bits from bit 23.
pub open spec fn wide_move_format(
    opcode: int,
    shift: Shift16,
    immediate: Immediate16,
    destination: Register,
) -> Seq<Bit> {
    destination.bits() + immediate.bits() + shift.bits() + bits_of(opcode, 9)
}

/// Shift format: Rd in bits 0 to 4, Rn in bits 5 to 9, the shift amount in
/// bits 10 to 15, and an opcode of eleven bits from bit 21.
pub open spec fn shift_format(
    opcode: int,
    m: Immediate6,
    n: Register,
    destination: Register,
) -> Seq<Bit> {
    destination.bits() + n.bits() + m.bits() + zeros(5) + bits_of(opcode, 11)
}

/// Compare-and-branch format: Rt in bits 0 to 4, the address in bits 5 to 23,
/// and an opcode of eight bits from bit 24.
pub open spec fn compare_branch_format(opcode: int, address: Immediate19, r: Register) -> Seq<Bit> {
    r.bits() + address.bits() + bits_of(opcode, 8)
}

/// Conditional-branch format: the condition in bits 0 to 4, the address in
/// bits 5 to 23, and an opcode of eight bits from bit 24.
pub open spec fn conditional_branch_format(
    opcode: int,
    address: Immediate19,
    condition: Condition,
) -> Seq<Bit> {
    condition.bits() + address.bits() + bits_of(opcode, 8)
}

/// Branch format: the address in bits 0 to 25, and an opcode of six bits from
/// bit 26.
pub open spec fn branch_format(opcode: int, address: Immediate26) -> Seq<Bit> {
    address.bits() + bits_of(opcode, 6)
}

/// Branch-to-register format: Rn in bits 0 to 4, and an opcode of eleven bits
/// from bit 21.
pub open spec fn branch_register_format(opcode: int, r: Register) -> Seq<Bit> {
    r.bits() + zeros(16) + bits_of(opcode, 11)
}

impl Instruction {
    /// The instruction's word: 32 bits, least significant first.
    pub open spec fn bits(self) -> Seq<Bit> {
        match self {
            Instruction::Add { n, m, destination } => register_format(0x458, m, n, destination),
            Instruction::Subtract { n, m, destination } => register_format(
                0x658,
                m,
                n,
                destination,
            ),
            Instruction::AddImmediate { n, m, destination } => immediate_format(
                0x244,
                m,
                n,
                destination,
            ),
            Instruction::SubtractImmediate { n, m, destination } => immediate_format(
                0x344,
                m,
                n,
                destination,
            ),
            Instruction::AddSetFlags { n, m, destination } => register_format(
                0x558,
                m,
                n,
                destination,
            ),
            Instruction::SubtractSetFlags { n, m, destination } => register_format(
                0x758,
                m,
                n,
                destination,
            ),
            Instruction::AddImmediateSetFlags { n, m, destination } => immediate_format(
                0x2C4,
                m,
                n,
                destination,
            ),
            Instruction::SubtractImmediateSetFlags { n, m, destination } => immediate_format(
                0x3C4,
                m,
                n,
                destination,
            ),
            Instruction::Store { address, offset, data } => data_format(
                0x7C0,
                offset,
                address,
                data,
            ),
            Instruction::Load { address, offset, data } => data_format(
                0x7C2,
                offset,
                address,
                data,
            ),
            Instruction::StoreByte { address, offset, data } => data_format(
                0x1C0,
                offset,
                address,
                data,
            ),
            Instruction::LoadByte { address, offset, data } => data_format(
                0x1C2,
                offset,
                address,
                data,
            ),
            Instruction::MoveZero { immediate, shift, destination } => wide_move_format(
                0x1A5,
                shift,
                immediate,
                destination,
            ),
            Instruction::MoveKeep { immediate, shift, destination } => wide_move_format(
                0x1E5,
                shift,
                immediate,
                destination,
            ),
            Instruction::And { n, m, destination } => register_format(0x450, m, n, destination),
            Instruction::Or { n, m, destination } => register_format(0x550, m, n, destination),
            Instruction::Xor { n, m, destination } => register_format(0x650, m, n, destination),
            Instruction::AndImmediate { n, m, destination } => immediate_format(
                0x248,
                m,
                n,
                destination,
            ),
            Instruction::OrImmediate { n, m, destination } => immediate_format(
                0x2C8,
                m,
                n,
                destination,
            ),
            Instruction::XorImmediate { n, m, destination } => immediate_format(
                0x348,
                m,
                n,
                destination,
            ),
            Instruction::AndSetFlags { n, m, destination } => register_format(
                0x750,
                m,
                n,
                destination,
            ),
            Instruction::AndImmediateSetFlags { n, m, destination } => immediate_format(
                0x3C8,
                m,
                n,
                destination,
            ),
            Instruction::LogicalShiftRight { n, m, destination } => shift_format(
                0x69A,
                m,
                n,
                destination,
            ),
            Instruction::LogicalShiftLeft { n, m, destination } => shift_format(
                0x69B,
                m,
                n,
                destination,
            ),
            Instruction::CompareBranchZero { address, r } => compare_branch_format(
                0xB4,
                address,
                r,
            ),
            Instruction::CompareBranchNotZero { address, r } => compare_branch_format(
                0xB5,
                address,
                r,
            ),
            Instruction::ConditionalBranch { address, condition } => conditional_branch_format(
                0x54,
                address,
                condition,
            ),
            Instruction::Branch { address } => branch_format(0x5, address),
            Instruction::BranchRegister { r } => branch_register_format(0x6B0, r),
            Instruction::BranchLink { address } => branch_format(0x25, address),
        }
    }

    /// Whether the instruction is in register format: two source registers
    /// and a destination register.
    pub open spec fn is_register_format(self) -> bool {
        match self {
            Instruction::Add { .. }
            | Instruction::Subtract { .. }
            | Instruction::AddSetFlags { .. }
            | Instruction::SubtractSetFlags { .. }
            | Instruction::And { .. }
            | Instruction::Or { .. }
            | Instruction::Xor { .. }
            | Instruction::AndSetFlags { .. } => true,
            _ => false,
        }
    }

    /// The instruction with another destination register, where it is in
    /// register format; the instruction itself where it is not.
    pub open spec fn with_destination(self, destination: Register) -> Instruction {
        match self {
            Instruction::Add { n, m, .. } => Instruction::Add { n, m, destination },
            Instruction::Subtract { n, m, .. } => Instruction::Subtract { n, m, destination },
            Instruction::AddSetFlags { n, m, .. } => Instruction::AddSetFlags { n, m, destination },
            Instruction::SubtractSetFlags { n, m, .. } => Instruction::SubtractSetFlags {
                n,
                m,
                destination,
            },
            Instruction::And { n, m, .. } => Instruction::And { n, m, destination },
            Instruction::Or { n, m, .. } => Instruction::Or { n, m, destination },
            Instruction::Xor { n, m, .. } => Instruction::Xor { n, m, destination },
            Instruction::AndSetFlags { n, m, .. } => Instruction::AndSetFlags { n, m, destination },
            _ => self,
        }
    }
}


/// Writes `field` into `word` from bit `start` up, and leaves the other bits.
fn place<const N: usize>(word: &mut [Bit; 32], start: usize, field: [Bit; N])
    requires
        start + N <= 32,
    ensures
        forall|i: int|
            0 <= i < 32 ==> final(word)@[i] == (if start <= i < start + N {
                field@[i - start]
            } else {
                old(word)@[i]
            }),
{
    let mut k: usize = 0;
    while k < N
        invariant
            k <= N,
            start + N <= 32,
            forall|i: int|
                0 <= i < 32 ==> word@[i] == (if start <= i < start + k {
                    field@[i - start]
                } else {
                    old(word)@[i]
                }),
        decreases N - k,
    {
        word[start + k] = field[k];
        k += 1;
    }
}

/// The word of an instruction in register format.
fn register_word(opcode: u64, m: Register, n: Register, destination: Register) -> (word: [Bit; 32])
    ensures
        word@ == register_format(opcode as int, m, n, destination),
{
    let mut word: [Bit; 32] = [Bit::Zero; 32];
    place(&mut word, 0, <[Bit; 5]>::from(destination));
    place(&mut word, 5, <[Bit; 5]>::from(n));
    place(&mut word, 16, <[Bit; 5]>::from(m));
    place(&mut word, 21, low_bits::<11>(opcode));
    assert(word@ =~= register_format(opcode as int, m, n, destination));
    word
}

/// The word of an instruction in immediate format.
fn immediate_word(
    opcode: u64,
    m: Immediate12,
    n: Register,
    destination: Register,
) -> (word: [Bit; 32])
    ensures
        word@ == immediate_format(opcode as int, m, n, destination),
{
    let mut word: [Bit; 32] = [Bit::Zero; 32];
    place(&mut word, 0, <[Bit; 5]>::from(destination));
    place(&mut word, 5, <[Bit; 5]>::from(n));
    place(&mut word, 10, <[Bit; 12]>::from(m));
    place(&mut word, 22, low_bits::<10>(opcode));
    assert(word@ =~= immediate_format(opcode as int, m, n, destination));
    word
}

/// The word of an instruction in data format.
fn data_word(
    opcode: u64,
    offset: Immediate9,
    address: Register,
    data: Register,
) -> (word: [Bit; 32])
    ensures
        word@ == data_format(opcode as int, offset, address, data),
{
    let mut word: [Bit; 32] = [Bit::Zero; 32];
    place(&mut word, 0, <[Bit; 5]>::from(data));
    place(&mut word, 5, <[Bit; 5]>::from(address));
    place(&mut word, 12, <[Bit; 9]>::from(offset));
    place(&mut word, 21, low_bits::<11>(opcode));
    assert(word@ =~= data_format(opcode as int, offset, address, data));
    word
}

/// The word of an instruction in wide-move format.
fn wide_move_word(
    opcode: u64,
    shift: Shift16,
    immediate: Immediate16,
    destination: Register,
) -> (word: [Bit; 32])
    ensures
        word@ == wide_move_format(opcode as int, shift, immediate, destination),
{
    let mut word: [Bit; 32] = [Bit::Zero; 32];
    place(&mut word, 0, <[Bit; 5]>::from(destination));
    place(&mut word, 5, <[Bit; 16]>::from(immediate));
    place(&mut word, 21, <[Bit; 2]>::from(shift));
    place(&mut word, 23, low_bits::<9>(opcode));
    assert(word@ =~= wide_move_format(opcode as int, shift, immediate, destination));
    word
}

/// The word of an instruction in shift format.
fn shift_word(opcode: u64, m: Immediate6, n: Register, destination: Register) -> (word: [Bit; 32])
    ensures
        word@ == shift_format(opcode as int, m, n, destination),
{
    let mut word: [Bit; 32] = [Bit::Zero; 32];
    place(&mut word, 0, <[Bit; 5]>::from(destination));
    place(&mut word, 5, <[Bit; 5]>::from(n));
    place(&mut word, 10, <[Bit; 6]>::from(m));
    place(&mut word, 21, low_bits::<11>(opcode));
    assert(word@ =~= shift_format(opcode as int, m, n, destination));
    word
}

/// The word of an instruction in compare-and-branch format.
fn compare_branch_word(opcode: u64, address: Immediate19, r: Register) -> (word: [Bit; 32])
    ensures
        word@ == compare_branch_format(opcode as int, address, r),
{
    let mut word: [Bit; 32] = [Bit::Zero; 32];
    place(&mut word, 0, <[Bit; 5]>::from(r));
    place(&mut word, 5, <[Bit; 19]>::from(address));
    place(&mut word, 24, low_bits::<8>(opcode));
    assert(word@ =~= compare_branch_format(opcode as int, address, r));
    word
}

/// The word of an instruction in conditional-branch format.
fn conditional_branch_word(
    opcode: u64,
    address: Immediate19,
    condition: Condition,
) -> (word: [Bit; 32])
    ensures
        word@ == conditional_branch_format(opcode as int, address, condition),
{
    let mut word: [Bit; 32] = [Bit::Zero; 32];
    place(&mut word, 0, <[Bit; 5]>::from(condition));
    place(&mut word, 5, <[Bit; 19]>::from(address));
    place(&mut word, 24, low_bits::<8>(opcode));
    assert(word@ =~= conditional_branch_format(opcode as int, address, condition));
    word
}

/// The word of an instruction in branch format.
fn branch_word(opcode: u64, address: Immediate26) -> (word: [Bit; 32])
    ensures
        word@ == branch_format(opcode as int, address),
{
    let mut word: [Bit; 32] = [Bit::Zero; 32];
    place(&mut word, 0, <[Bit; 26]>::from(address));
    place(&mut word, 26, low_bits::<6>(opcode));
    assert(word@ =~= branch_format(opcode as int, address));
    word
}

/// The word of an instruction in branch-to-register format.
fn branch_register_word(opcode: u64, r: Register) -> (word: [Bit; 32])
    ensures
        word@ == branch_register_format(opcode as int, r),
{
    let mut word: [Bit; 32] = [Bit::Zero; 32];
    place(&mut word, 0, <[Bit; 5]>::from(r));
    place(&mut word, 21, low_bits::<11>(opcode));
    assert(word@ =~= branch_register_format(opcode as int, r));
    word
}

/// The 32-bit word of an instruction, least significant bit first.
impl From<Instruction> for [Bit; 32] {
    fn from(instruction: Instruction) -> (word: [Bit; 32])
        ensures
            word@ == instruction.bits(),
    {
        let word = match instruction {
            Instruction::Add { n, m, destination } => register_word(0x458, m, n, destination),
            Instruction::Subtract { n, m, destination } => register_word(0x658, m, n, destination),
            Instruction::AddImmediate { n, m, destination } => immediate_word(
                0x244,
                m,
                n,
                destination,
            ),
            Instruction::SubtractImmediate { n, m, destination } => immediate_word(
                0x344,
                m,
                n,
                destination,
            ),
            Instruction::AddSetFlags { n, m, destination } => register_word(
                0x558,
                m,
                n,
                destination,
            ),
            Instruction::SubtractSetFlags { n, m, destination } => register_word(
                0x758,
                m,
                n,
                destination,
            ),
            Instruction::AddImmediateSetFlags { n, m, destination } => immediate_word(
                0x2C4,
                m,
                n,
                destination,
            ),
            Instruction::SubtractImmediateSetFlags { n, m, destination } => immediate_word(
                0x3C4,
                m,
                n,
                destination,
            ),
            Instruction::Store { address, offset, data } => data_word(0x7C0, offset, address, data),
            Instruction::Load { address, offset, data } => data_word(0x7C2, offset, address, data),
            Instruction::StoreByte { address, offset, data } => data_word(
                0x1C0,
                offset,
                address,
                data,
            ),
            Instruction::LoadByte { address, offset, data } => data_word(
                0x1C2,
                offset,
                address,
                data,
            ),
            Instruction::MoveZero { immediate, shift, destination } => wide_move_word(
                0x1A5,
                shift,
                immediate,
                destination,
            ),
            Instruction::MoveKeep { immediate, shift, destination } => wide_move_word(
                0x1E5,
                shift,
                immediate,
                destination,
            ),
            Instruction::And { n, m, destination } => register_word(0x450, m, n, destination),
            Instruction::Or { n, m, destination } => register_word(0x550, m, n, destination),
            Instruction::Xor { n, m, destination } => register_word(0x650, m, n, destination),
            Instruction::AndImmediate { n, m, destination } => immediate_word(
                0x248,
                m,
                n,
                destination,
            ),
            Instruction::OrImmediate { n, m, destination } => immediate_word(
                0x2C8,
                m,
                n,
                destination,
            ),
            Instruction::XorImmediate { n, m, destination } => immediate_word(
                0x348,
                m,
                n,
                destination,
            ),
            Instruction::AndSetFlags { n, m, destination } => register_word(
                0x750,
                m,
                n,
                destination,
            ),
            Instruction::AndImmediateSetFlags { n, m, destination } => immediate_word(
                0x3C8,
                m,
                n,
                destination,
            ),
            Instruction::LogicalShiftRight { n, m, destination } => shift_word(
                0x69A,
                m,
                n,
                destination,
            ),
            Instruction::LogicalShiftLeft { n, m, destination } => shift_word(
                0x69B,
                m,
                n,
                destination,
            ),
            Instruction::CompareBranchZero { address, r } => compare_branch_word(0xB4, address, r),
            Instruction::CompareBranchNotZero { address, r } => compare_branch_word(
                0xB5,
                address,
                r,
            ),
            Instruction::ConditionalBranch { address, condition } => conditional_branch_word(
                0x54,
                address,
                condition,
            ),
            Instruction::Branch { address } => branch_word(0x5, address),
            Instruction::BranchRegister { r } => branch_register_word(0x6B0, r),
            Instruction::BranchLink { address } => branch_word(0x25, address),
        };
        proof {
            lemma_word_array(instruction, word);
        }
        word
    }
}

/// The array that holds an instruction's word is the one that `from_spec`
/// names.
proof fn lemma_word_array(instruction: Instruction, word: [Bit; 32])
    requires
        word@ == instruction.bits(),
    ensures
        word == array_of::<32>(instruction.bits()),
{
    lemma_array_of(word);
}

impl FromSpecImpl<Instruction> for [Bit; 32] {
    open spec fn obeys_from_spec() -> bool {
        true
    }

    open spec fn from_spec(instruction: Instruction) -> [Bit; 32] {
        array_of::<32>(instruction.bits())
    }
}

/// Encoding is a function of the instruction: whatever two calls give for one
/// instruction is the same word.
pub proof fn lemma_encoding_is_function(
    instruction: Instruction,
    first: [Bit; 32],
    second: [Bit; 32],
)
    requires
        call_ensures(<[Bit; 32] as From<Instruction>>::from, (instruction,), first),
        call_ensures(<[Bit; 32] as From<Instruction>>::from, (instruction,), second),
    ensures
        first == second,
{
    assert(first@ == second@);
    assert(first =~= second);
}

/// Every instruction's word has 32 bits.
pub proof fn lemma_word_length(instruction: Instruction)
    ensures
        instruction.bits().len() == 32,
{
}

/// In a register-format instruction the destination register fills bits 0 to
/// 4 and nothing else: with another destination, bits 5 to 31 stay as they
/// were.
pub proof fn lemma_destination_field(instruction: Instruction, destination: Register)
    requires
        instruction.is_register_format(),
    ensures
        instruction.with_destination(destination).bits().subrange(0, 5) == destination.bits(),
        instruction.with_destination(destination).bits().subrange(5, 32)
            == instruction.bits().subrange(5, 32),
{
    let changed = instruction.with_destination(destination);
    assert(changed.bits().subrange(0, 5) =~= destination.bits());
    assert(changed.bits().subrange(5, 32) =~= instruction.bits().subrange(5, 32));
}

} // verus!
