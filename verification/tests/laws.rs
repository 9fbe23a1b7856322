use legv8_asm::bit::Bit;
use legv8_asm::condition::Condition;
use legv8_asm::immediate::{
    Immediate12, Immediate16, Immediate19, Immediate26, Immediate6, Immediate9,
};
use legv8_asm::instruction::Instruction;
use legv8_asm::register::Register;
use legv8_asm::shift16::Shift16;

const REGISTERS: [Register; 32] = [
    Register::X0,
    Register::X1,
    Register::X2,
    Register::X3,
    Register::X4,
    Register::X5,
    Register::X6,
    Register::X7,
    Register::X8,
    Register::X9,
    Register::X10,
    Register::X11,
    Register::X12,
    Register::X13,
    Register::X14,
    Register::X15,
    Register::X16,
    Register::X17,
    Register::X18,
    Register::X19,
    Register::X20,
    Register::X21,
    Register::X22,
    Register::X23,
    Register::X24,
    Register::X25,
    Register::X26,
    Register::X27,
    Register::X28,
    Register::X29,
    Register::X30,
    Register::XZR,
];

const CONDITIONS: [Condition; 16] = [
    Condition::Equal,
    Condition::NotEqual,
    Condition::HigherSame,
    Condition::Lower,
    Condition::Minus,
    Condition::PositiveZero,
    Condition::SignedOverflow,
    Condition::NoSignedOverflow,
    Condition::Higher,
    Condition::LowerSame,
    Condition::GreaterThanEqual,
    Condition::LessThan,
    Condition::GreaterThan,
    Condition::LessThanEqual,
    Condition::Always,
    Condition::Reserved,
];

/// The number that the bits stand for, the first bit counting least.
fn number(bits: &[Bit]) -> u32 {
    bits.iter()
        .rev()
        .fold(0, |sum, bit| 2 * sum + u32::from(u8::from(*bit)))
}

#[test]
fn encoding_is_repeatable() {
    let instruction = Instruction::Store {
        address: Register::X7,
        offset: Immediate9(50),
        data: Register::X23,
    };
    let first = <[Bit; 32]>::from(instruction);
    let second = <[Bit; 32]>::from(instruction);
    assert_eq!(first, second);
    assert_eq!(number(&first), 0xF803_20F7);
}

#[test]
fn destination_changes_the_low_five_bits_only() {
    let base = <[Bit; 32]>::from(Instruction::Add {
        n: Register::X9,
        m: Register::X21,
        destination: Register::X0,
    });
    for destination in REGISTERS {
        let word = <[Bit; 32]>::from(Instruction::Add {
            n: Register::X9,
            m: Register::X21,
            destination,
        });
        assert_eq!(word[5..], base[5..]);
        assert_eq!(word[..5], <[Bit; 5]>::from(destination));
    }
    let other = <[Bit; 32]>::from(Instruction::AndSetFlags {
        n: Register::X1,
        m: Register::X2,
        destination: Register::X3,
    });
    let changed = <[Bit; 32]>::from(Instruction::AndSetFlags {
        n: Register::X1,
        m: Register::X2,
        destination: Register::X28,
    });
    assert_eq!(other[5..], changed[5..]);
    assert_ne!(other[..5], changed[..5]);
}

#[test]
fn immediates_wrap_at_the_width_of_their_field() {
    assert_eq!(<[Bit; 6]>::from(Immediate6(-5)), <[Bit; 6]>::from(Immediate6(59)));
    assert_eq!(<[Bit; 6]>::from(Immediate6(-64)), <[Bit; 6]>::from(Immediate6(64)));
    assert_eq!(<[Bit; 9]>::from(Immediate9(-512)), <[Bit; 9]>::from(Immediate9(0)));
    assert_eq!(<[Bit; 9]>::from(Immediate9(3)), <[Bit; 9]>::from(Immediate9(515)));
    assert_eq!(
        <[Bit; 12]>::from(Immediate12(-1)),
        <[Bit; 12]>::from(Immediate12(4095))
    );
    assert_eq!(
        <[Bit; 12]>::from(Immediate12(5)),
        <[Bit; 12]>::from(Immediate12(4101))
    );
    assert_eq!(
        <[Bit; 19]>::from(Immediate19(-7)),
        <[Bit; 19]>::from(Immediate19(524_281))
    );
    assert_eq!(
        <[Bit; 26]>::from(Immediate26(12)),
        <[Bit; 26]>::from(Immediate26(67_108_876))
    );
}

#[test]
fn immediates_keep_their_low_bits() {
    assert_eq!(number(&<[Bit; 6]>::from(Immediate6(127))), 63);
    assert_eq!(number(&<[Bit; 6]>::from(Immediate6(-128))), 0);
    assert_eq!(number(&<[Bit; 9]>::from(Immediate9(-1))), 511);
    assert_eq!(number(&<[Bit; 12]>::from(Immediate12(32_767))), 4095);
    assert_eq!(number(&<[Bit; 12]>::from(Immediate12(-32_768))), 0);
    assert_eq!(number(&<[Bit; 16]>::from(Immediate16(-2))), 65_534);
    assert_eq!(number(&<[Bit; 16]>::from(Immediate16(i16::MIN))), 32_768);
    assert_eq!(number(&<[Bit; 19]>::from(Immediate19(i32::MAX))), 524_287);
    assert_eq!(number(&<[Bit; 19]>::from(Immediate19(i32::MIN))), 0);
    assert_eq!(number(&<[Bit; 26]>::from(Immediate26(-1))), 67_108_863);
}

#[test]
fn immediates_are_made_from_numbers_unchanged() {
    assert_eq!(Immediate6::from(-128_i8), Immediate6(-128));
    assert_eq!(Immediate9::from(12_345_i16), Immediate9(12_345));
    assert_eq!(Immediate12::from(-4097_i16), Immediate12(-4097));
    assert_eq!(Immediate16::from(i16::MAX), Immediate16(32_767));
    assert_eq!(Immediate19::from(i32::MIN), Immediate19(i32::MIN));
    assert_eq!(Immediate26::from(1 << 30), Immediate26(1_073_741_824));
}

#[test]
fn registers_have_their_number_as_field() {
    for (index, register) in REGISTERS.into_iter().enumerate() {
        assert_eq!(register.number() as usize, index);
        assert_eq!(number(&<[Bit; 5]>::from(register)) as usize, index);
    }
}

#[test]
fn conditions_have_their_number_as_field() {
    for (index, condition) in CONDITIONS.into_iter().enumerate() {
        assert_eq!(condition.number() as usize, index);
        let field = <[Bit; 5]>::from(condition);
        assert_eq!(number(&field) as usize, index);
        assert_eq!(field[4], Bit::Zero);
    }
}

#[test]
fn shifts_have_their_number_as_field() {
    let shifts = [Shift16::Shift0, Shift16::Shift16, Shift16::Shift32, Shift16::Shift48];
    for (index, shift) in shifts.into_iter().enumerate() {
        assert_eq!(shift.number() as usize, index);
        assert_eq!(number(&<[Bit; 2]>::from(shift)) as usize, index);
    }
}

#[test]
fn distinct_registers_have_distinct_fields() {
    for first in REGISTERS {
        for second in REGISTERS {
            assert_eq!(
                first == second,
                <[Bit; 5]>::from(first) == <[Bit; 5]>::from(second)
            );
        }
    }
}

#[test]
fn bits_are_made_of_zero_and_one_only() {
    assert_eq!(Bit::from_u8(0), Some(Bit::Zero));
    assert_eq!(Bit::from_u8(1), Some(Bit::One));
    for other in 2..=255_u8 {
        assert_eq!(Bit::from_u8(other), None);
    }
}

#[test]
fn words_of_the_formats() {
    let word = |instruction: Instruction| number(&<[Bit; 32]>::from(instruction));
    // register format: opcode, Rm at 16, Rn at 5, Rd at 0
    assert_eq!(
        word(Instruction::Subtract { n: Register::X2, m: Register::X1, destination: Register::X3 }),
        (0x658 << 21) | (1 << 16) | (2 << 5) | 3
    );
    // immediate format: opcode, immediate at 10, Rn at 5, Rd at 0
    assert_eq!(
        word(Instruction::AddImmediate {
            n: Register::X7,
            m: Immediate12(1),
            destination: Register::X7
        }),
        0x9100_04E7
    );
    assert_eq!(
        word(Instruction::SubtractImmediateSetFlags {
            n: Register::XZR,
            m: Immediate12(-1),
            destination: Register::X0
        }),
        (0x3C4 << 22) | (0xFFF << 10) | (31 << 5)
    );
    // data format: opcode, offset at 12, base at 5, Rt at 0
    assert_eq!(
        word(Instruction::LoadByte {
            address: Register::X30,
            offset: Immediate9(-1),
            data: Register::X4
        }),
        (0x1C2 << 21) | (0x1FF << 12) | (30 << 5) | 4
    );
    // wide-move format: opcode, shift at 21, immediate at 5, Rd at 0
    assert_eq!(
        word(Instruction::MoveKeep {
            immediate: Immediate16(-1),
            shift: Shift16::Shift48,
            destination: Register::X17
        }),
        (0x1E5 << 23) | (3 << 21) | (0xFFFF << 5) | 17
    );
    // shift format: opcode, amount at 10, Rn at 5, Rd at 0
    assert_eq!(
        word(Instruction::LogicalShiftLeft {
            n: Register::X1,
            m: Immediate6(63),
            destination: Register::X2
        }),
        (0x69B << 21) | (63 << 10) | (1 << 5) | 2
    );
    // compare-and-branch format: opcode, address at 5, Rt at 0
    assert_eq!(
        word(Instruction::CompareBranchNotZero { address: Immediate19(-2), r: Register::X9 }),
        (0xB5 << 24) | (0x7FFFE << 5) | 9
    );
    // conditional-branch format: opcode, address at 5, condition at 0
    assert_eq!(
        word(Instruction::ConditionalBranch {
            address: Immediate19(25),
            condition: Condition::LessThan
        }),
        (0x54 << 24) | (25 << 5) | 11
    );
    // branch format: opcode, address at 0
    assert_eq!(word(Instruction::Branch { address: Immediate26(6) }), 0x1400_0006);
    assert_eq!(
        word(Instruction::BranchLink { address: Immediate26(-1) }),
        (0x25 << 26) | 0x3FF_FFFF
    );
    // branch-to-register format: opcode, Rn at 0
    assert_eq!(word(Instruction::BranchRegister { r: Register::XZR }), (0x6B0 << 21) | 31);
}
