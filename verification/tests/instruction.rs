use legv8_asm::bit::{bit_array, Bit};
use legv8_asm::condition::Condition;
use legv8_asm::immediate::{
    Immediate12, Immediate16, Immediate19, Immediate26, Immediate6, Immediate9,
};
use legv8_asm::instruction::Instruction;
use legv8_asm::register::Register;
use legv8_asm::shift16::Shift16;

#[test]
fn instruction_test_add() {
    assert_eq!(
        <[Bit; 32]>::from(Instruction::Add {
            m: Register::X1,
            n: Register::X2,
            destination: Register::X3
        }),
        bit_array([
            1, 1, 0, 0, 0, 0, 1, 0, 0, 0, 0, 0, 0, 0, 0, 0, 1, 0, 0, 0, 0, 0, 0, 0, 1, 1, 0, 1, 0,
            0, 0, 1
        ])
    );
}

#[test]
fn test_subtract() {
    assert_eq!(
        <[Bit; 32]>::from(Instruction::Subtract {
            m: Register::X1,
            n: Register::X2,
            destination: Register::X3
        }),
        bit_array([
            1, 1, 0, 0, 0, 0, 1, 0, 0, 0, 0, 0, 0, 0, 0, 0, 1, 0, 0, 0, 0, 0, 0, 0, 1, 1, 0, 1, 0,
            0, 1, 1
        ])
    );
}

#[test]
fn test_add_immediate() {
    assert_eq!(
        <[Bit; 32]>::from(Instruction::AddImmediate {
            m: Immediate12(3_i16),
            n: Register::X1,
            destination: Register::X3
        }),
        bit_array([
            1, 1, 0, 0, 0, 1, 0, 0, 0, 0, 1, 1, 0, 0, 0, 0, 0, 0, 0, 0, 0, 0, 0, 0, 1, 0, 0, 0, 1,
            0, 0, 1
        ])
    );
}

#[test]
fn test_subtract_immediate() {
    assert_eq!(
        <[Bit; 32]>::from(Instruction::SubtractImmediate {
            m: Immediate12(3_i16),
            n: Register::X1,
            destination: Register::X3
        }),
        bit_array([
            1, 1, 0, 0, 0, 1, 0, 0, 0, 0, 1, 1, 0, 0, 0, 0, 0, 0, 0, 0, 0, 0, 0, 0, 1, 0, 0, 0, 1,
            0, 1, 1
        ])
    );
}

#[test]
fn test_add_set_flags() {
    assert_eq!(
        <[Bit; 32]>::from(Instruction::AddSetFlags {
            m: Register::X1,
            n: Register::X2,
            destination: Register::X3
        }),
        bit_array([
            1, 1, 0, 0, 0, 0, 1, 0, 0, 0, 0, 0, 0, 0, 0, 0, 1, 0, 0, 0, 0, 0, 0, 0, 1, 1, 0, 1, 0,
            1, 0, 1
        ])
    );
}

#[test]
fn test_subtract_set_flags() {
    assert_eq!(
        <[Bit; 32]>::from(Instruction::SubtractSetFlags {
            m: Register::X1,
            n: Register::X2,
            destination: Register::X3
        }),
        bit_array([
            1, 1, 0, 0, 0, 0, 1, 0, 0, 0, 0, 0, 0, 0, 0, 0, 1, 0, 0, 0, 0, 0, 0, 0, 1, 1, 0, 1, 0,
            1, 1, 1
        ])
    );
}

#[test]
fn test_add_immediate_set_flags() {
    assert_eq!(
        <[Bit; 32]>::from(Instruction::AddImmediateSetFlags {
            m: Immediate12(3_i16),
            n: Register::X1,
            destination: Register::X3
        }),
        bit_array([
            1, 1, 0, 0, 0, 1, 0, 0, 0, 0, 1, 1, 0, 0, 0, 0, 0, 0, 0, 0, 0, 0, 0, 0, 1, 0, 0, 0, 1,
            1, 0, 1
        ])
    );
}

#[test]
fn test_subtract_immediate_set_flags() {
    assert_eq!(
        <[Bit; 32]>::from(Instruction::SubtractImmediateSetFlags {
            m: Immediate12(3_i16),
            n: Register::X1,
            destination: Register::X3
        }),
        bit_array([
            1, 1, 0, 0, 0, 1, 0, 0, 0, 0, 1, 1, 0, 0, 0, 0, 0, 0, 0, 0, 0, 0, 0, 0, 1, 0, 0, 0, 1,
            1, 1, 1
        ])
    );
}

#[test]
fn test_store() {
    assert_eq!(
        <[Bit; 32]>::from(Instruction::Store {
            address: Register::X1,
            offset: Immediate9(4_i16),
            data: Register::X2
        }),
        bit_array([
            0, 1, 0, 0, 0, 1, 0, 0, 0, 0, 0, 0, 0, 0, 1, 0, 0, 0, 0, 0, 0, 0, 0, 0, 0, 0, 0, 1, 1,
            1, 1, 1
        ])
    );
}

#[test]
fn test_load() {
    assert_eq!(
        <[Bit; 32]>::from(Instruction::Load {
            address: Register::X1,
            offset: Immediate9(4_i16),
            data: Register::X2
        }),
        bit_array([
            0, 1, 0, 0, 0, 1, 0, 0, 0, 0, 0, 0, 0, 0, 1, 0, 0, 0, 0, 0, 0, 0, 1, 0, 0, 0, 0, 1, 1,
            1, 1, 1
        ])
    );
}

#[test]
fn test_store_byte() {
    assert_eq!(
        <[Bit; 32]>::from(Instruction::StoreByte {
            address: Register::X1,
            offset: Immediate9(4_i16),
            data: Register::X2
        }),
        bit_array([
            0, 1, 0, 0, 0, 1, 0, 0, 0, 0, 0, 0, 0, 0, 1, 0, 0, 0, 0, 0, 0, 0, 0, 0, 0, 0, 0, 1, 1,
            1, 0, 0
        ])
    );
}

#[test]
fn test_load_byte() {
    assert_eq!(
        <[Bit; 32]>::from(Instruction::LoadByte {
            address: Register::X1,
            offset: Immediate9(4_i16),
            data: Register::X2
        }),
        bit_array([
            0, 1, 0, 0, 0, 1, 0, 0, 0, 0, 0, 0, 0, 0, 1, 0, 0, 0, 0, 0, 0, 0, 1, 0, 0, 0, 0, 1, 1,
            1, 0, 0
        ])
    );
}

#[test]
fn test_move_zero() {
    assert_eq!(
        <[Bit; 32]>::from(Instruction::MoveZero {
           immediate: Immediate16(5_i16),
           shift: Shift16::Shift16,
           destination: Register::X1
       }),
        bit_array([
            1, 0, 0, 0, 0, 1, 0, 1, 0, 0, 0, 0, 0, 0, 0, 0, 0, 0, 0, 0, 0, 1, 0, 1, 0, 1, 0, 0, 1,
            0, 1, 1
        ])
    );
}

#[test]
fn test_move_keep() {
    assert_eq!(
        <[Bit; 32]>::from(Instruction::MoveKeep {
           immediate: Immediate16(5_i16),
           shift: Shift16::Shift16,
           destination: Register::X1
       }),
        bit_array([
            1, 0, 0, 0, 0, 1, 0, 1, 0, 0, 0, 0, 0, 0, 0, 0, 0, 0, 0, 0, 0, 1, 0, 1, 0, 1, 0, 0, 1,
            1, 1, 1
        ])
    );
}

#[test]
fn test_and() {
    assert_eq!(
        <[Bit; 32]>::from(Instruction::And{
            m: Register::X1,
            n: Register::X2,
            destination: Register::X3
        }),
        bit_array([
            1, 1, 0, 0, 0, 0, 1, 0, 0, 0, 0, 0, 0, 0, 0, 0, 1, 0, 0, 0, 0, 0, 0, 0, 0, 1, 0, 1, 0,
            0, 0, 1
        ])
    );
}

#[test]
fn test_or() {
    assert_eq!(
        <[Bit; 32]>::from(Instruction::Or{
            m: Register::X1,
            n: Register::X2,
            destination: Register::X3
        }),
        bit_array([
            1, 1, 0, 0, 0, 0, 1, 0, 0, 0, 0, 0, 0, 0, 0, 0, 1, 0, 0, 0, 0, 0, 0, 0, 0, 1, 0, 1, 0,
            1, 0, 1
        ])
    );
}

#[test]
fn test_xor() {
    assert_eq!(
        <[Bit; 32]>::from(Instruction::Xor{
            m: Register::X1,
            n: Register::X2,
            destination: Register::X3
        }),
        bit_array([
            1, 1, 0, 0, 0, 0, 1, 0, 0, 0, 0, 0, 0, 0, 0, 0, 1, 0, 0, 0, 0, 0, 0, 0, 0, 1, 0, 1, 0,
            0, 1, 1
        ])
    );
}

#[test]
fn test_and_immediate() {
    assert_eq!(
        <[Bit; 32]>::from(Instruction::AndImmediate {
            m: Immediate12(3_i16),
            n: Register::X1,
            destination: Register::X3
        }),
        bit_array([
            1, 1, 0, 0, 0, 1, 0, 0, 0, 0, 1, 1, 0, 0, 0, 0, 0, 0, 0, 0, 0, 0, 0, 0, 0, 1, 0, 0, 1,
            0, 0, 1
        ])
    );
}

#[test]
fn test_or_immediate() {
    assert_eq!(
        <[Bit; 32]>::from(Instruction::OrImmediate {
            m: Immediate12(3_i16),
            n: Register::X1,
            destination: Register::X3
        }),
        bit_array([
            1, 1, 0, 0, 0, 1, 0, 0, 0, 0, 1, 1, 0, 0, 0, 0, 0, 0, 0, 0, 0, 0, 0, 0, 0, 1, 0, 0, 1,
            1, 0, 1
        ])
    );
}

#[test]
fn test_xor_immediate() {
    assert_eq!(
        <[Bit; 32]>::from(Instruction::XorImmediate {
            m: Immediate12(3_i16),
            n: Register::X1,
            destination: Register::X3
        }),
        bit_array([
            1, 1, 0, 0, 0, 1, 0, 0, 0, 0, 1, 1, 0, 0, 0, 0, 0, 0, 0, 0, 0, 0, 0, 0, 0, 1, 0, 0, 1,
            0, 1, 1
        ])
    );
}

#[test]
fn test_and_set_flags() {
    assert_eq!(
        <[Bit; 32]>::from(Instruction::AndSetFlags {
            m: Register::X1,
            n: Register::X2,
            destination: Register::X3
        }),
        bit_array([
            1, 1, 0, 0, 0, 0, 1, 0, 0, 0, 0, 0, 0, 0, 0, 0, 1, 0, 0, 0, 0, 0, 0, 0, 0, 1, 0, 1, 0,
            1, 1, 1
        ])
    );
}

#[test]
fn test_and_immediate_set_flags() {
    assert_eq!(
        <[Bit; 32]>::from(Instruction::AndImmediateSetFlags {
            m: Immediate12(3_i16),
            n: Register::X1,
            destination: Register::X3
        }),
        bit_array([
            1, 1, 0, 0, 0, 1, 0, 0, 0, 0, 1, 1, 0, 0, 0, 0, 0, 0, 0, 0, 0, 0, 0, 0, 0, 1, 0, 0, 1,
            1, 1, 1
        ])
    );
}

#[test]
fn test_logical_shift_right() {
    assert_eq!(
        <[Bit; 32]>::from(Instruction::LogicalShiftRight {
            n: Register::X1,
            m: Immediate6(6_i8),
            destination: Register::X2
        }),
        bit_array([
            0, 1, 0, 0, 0, 1, 0, 0, 0, 0, 0, 1, 1, 0, 0, 0, 0, 0, 0, 0, 0, 0, 1, 0, 1, 1, 0, 0, 1,
            0, 1, 1
        ])
    );
}

#[test]
fn test_logical_shift_left() {
    assert_eq!(
        <[Bit; 32]>::from(Instruction::LogicalShiftLeft {
            n: Register::X1,
            m: Immediate6(6_i8),
            destination: Register::X2
        }),
        bit_array([
            0, 1, 0, 0, 0, 1, 0, 0, 0, 0, 0, 1, 1, 0, 0, 0, 0, 0, 0, 0, 0, 1, 1, 0, 1, 1, 0, 0, 1,
            0, 1, 1
        ])
    );
}

#[test]
fn test_compare_branch_zero() {
    assert_eq!(
        <[Bit; 32]>::from(Instruction::CompareBranchZero{
            address: Immediate19(12_i32),
            r: Register::X1
        }),
        bit_array([
            1, 0, 0, 0, 0, 0, 0, 1, 1, 0, 0, 0, 0, 0, 0, 0, 0, 0, 0, 0, 0, 0, 0, 0, 0, 0, 1, 0, 1,
            1, 0, 1
        ])
    );
}

#[test]
fn test_compare_branch_not_zero() {
    assert_eq!(
        <[Bit; 32]>::from(Instruction::CompareBranchNotZero{
            address: Immediate19(12_i32),
            r: Register::X1
        }),
        bit_array([
            1, 0, 0, 0, 0, 0, 0, 1, 1, 0, 0, 0, 0, 0, 0, 0, 0, 0, 0, 0, 0, 0, 0, 0, 1, 0, 1, 0, 1,
            1, 0, 1
        ])
    );
}

#[test]
fn test_conditional_branch() {
    assert_eq!(
        <[Bit; 32]>::from(Instruction::ConditionalBranch{
            address: Immediate19(12_i32),
            condition: Condition::NoSignedOverflow
        }),
        bit_array([
            1, 1, 1, 0, 0, 0, 0, 1, 1, 0, 0, 0, 0, 0, 0, 0, 0, 0, 0, 0, 0, 0, 0, 0, 0, 0, 1, 0, 1,
            0, 1, 0
        ])
    );
}

#[test]
fn test_branch() {
    assert_eq!(
        <[Bit; 32]>::from(Instruction::Branch{
            address: Immediate26(12_i32)
        }),
        bit_array([
            0, 0, 1, 1, 0, 0, 0, 0, 0, 0, 0, 0, 0, 0, 0, 0, 0, 0, 0, 0, 0, 0, 0, 0, 0, 0, 1, 0, 1,
            0, 0, 0
        ])
    );
}

#[test]
fn test_branch_register() {
    assert_eq!(
        <[Bit; 32]>::from(Instruction::BranchRegister {
            r: Register::X1,
        }),
        bit_array([
            1, 0, 0, 0, 0, 0, 0, 0, 0, 0, 0, 0, 0, 0, 0, 0, 0, 0, 0, 0, 0, 0, 0, 0, 0, 1, 1, 0, 1,
            0, 1, 1
        ])
    );
}

#[test]
fn test_branch_link() {
    assert_eq!(
        <[Bit; 32]>::from(Instruction::BranchLink{
            address: Immediate26(12_i32)
        }),
        bit_array([
            0, 0, 1, 1, 0, 0, 0, 0, 0, 0, 0, 0, 0, 0, 0, 0, 0, 0, 0, 0, 0, 0, 0, 0, 0, 0, 1, 0, 1,
            0, 0, 1
        ])
    );
}
