use legv8_asm::condition::Condition;
use legv8_asm::immediate::{
    Immediate12, Immediate16, Immediate19, Immediate26, Immediate6, Immediate9,
};
use legv8_asm::instruction::Instruction;
use legv8_asm::parser::{
    parse_condition, parse_immediate_12, parse_immediate_16, parse_immediate_19,
    parse_immediate_26, parse_immediate_6, parse_immediate_9, parse_instruction, parse_line,
    parse_register, parse_shift, AsmLine,
};
use legv8_asm::register::Register;
use legv8_asm::shift16::Shift16;

#[test]
fn register_numbers_end_at_thirty() {
    assert_eq!(parse_register("X30"), Some(("", Register::X30)));
    assert_eq!(parse_register("X31"), None);
    assert_eq!(parse_register("X100"), None);
    assert_eq!(parse_register("XZR"), Some(("", Register::XZR)));
}

#[test]
fn register_numbers_have_no_leading_zero() {
    assert_eq!(parse_register("X0"), Some(("", Register::X0)));
    assert_eq!(parse_register("X07"), None);
    assert_eq!(parse_register("X00"), None);
    assert_eq!(parse_register("X007"), None);
}

#[test]
fn register_takes_all_digits_that_follow() {
    assert_eq!(parse_register("X1, X2"), Some((", X2", Register::X1)));
    assert_eq!(parse_register("X12]"), Some(("]", Register::X12)));
    assert_eq!(parse_register("X1a"), Some(("a", Register::X1)));
    assert_eq!(parse_register("XZR5"), Some(("5", Register::XZR)));
    assert_eq!(parse_register("X301"), None);
}

#[test]
fn register_needs_its_letter() {
    assert_eq!(parse_register(""), None);
    assert_eq!(parse_register("X"), None);
    assert_eq!(parse_register("x1"), None);
    assert_eq!(parse_register("1"), None);
    assert_eq!(parse_register(" X1"), None);
    assert_eq!(parse_register("XZ"), None);
    assert_eq!(parse_register("Xzr"), None);
}

#[test]
fn immediate_is_bounded_by_its_container() {
    assert_eq!(parse_immediate_6("127"), Some(("", Immediate6(127))));
    assert_eq!(parse_immediate_6("-127"), Some(("", Immediate6(-127))));
    assert_eq!(parse_immediate_6("128"), None);
    assert_eq!(parse_immediate_6("-128"), None);
    assert_eq!(parse_immediate_9("32767"), Some(("", Immediate9(32_767))));
    assert_eq!(parse_immediate_9("32768"), None);
    assert_eq!(parse_immediate_12("-32767"), Some(("", Immediate12(-32_767))));
    assert_eq!(parse_immediate_12("-32768"), None);
    assert_eq!(parse_immediate_16("32767"), Some(("", Immediate16(32_767))));
    assert_eq!(parse_immediate_16("65535"), None);
    assert_eq!(parse_immediate_19("2147483647"), Some(("", Immediate19(i32::MAX))));
    assert_eq!(parse_immediate_19("2147483648"), None);
    assert_eq!(parse_immediate_26("-2147483647"), Some(("", Immediate26(-i32::MAX))));
    assert_eq!(parse_immediate_26("-2147483648"), None);
    assert_eq!(parse_immediate_26("99999999999999999999999999"), None);
}

#[test]
fn immediate_is_not_checked_against_its_field() {
    assert_eq!(parse_immediate_6("100"), Some(("", Immediate6(100))));
    assert_eq!(parse_immediate_9("1000"), Some(("", Immediate9(1000))));
    assert_eq!(parse_immediate_12("5000"), Some(("", Immediate12(5000))));
    assert_eq!(parse_immediate_19("1000000"), Some(("", Immediate19(1_000_000))));
    assert_eq!(parse_immediate_26("100000000"), Some(("", Immediate26(100_000_000))));
}

#[test]
fn immediate_reads_plain_decimal_digits() {
    assert_eq!(parse_immediate_12("0"), Some(("", Immediate12(0))));
    assert_eq!(parse_immediate_12("-0"), Some(("", Immediate12(0))));
    assert_eq!(parse_immediate_12("00012"), Some(("", Immediate12(12))));
    assert_eq!(parse_immediate_12("000000000000000000000000012"), Some(("", Immediate12(12))));
    assert_eq!(parse_immediate_12("12abc"), Some(("abc", Immediate12(12))));
    assert_eq!(parse_immediate_12("12 34"), Some((" 34", Immediate12(12))));
    assert_eq!(parse_immediate_12(""), None);
    assert_eq!(parse_immediate_12("-"), None);
    assert_eq!(parse_immediate_12("- 1"), None);
    assert_eq!(parse_immediate_12("--1"), None);
    assert_eq!(parse_immediate_12("+1"), None);
    assert_eq!(parse_immediate_12(" 1"), None);
    assert_eq!(parse_immediate_12("0x10"), Some(("x10", Immediate12(0))));
    assert_eq!(parse_immediate_12("\u{0661}"), None);
}

#[test]
fn shift_is_one_of_four() {
    assert_eq!(parse_shift("LSL 0"), Some(("", Shift16::Shift0)));
    assert_eq!(parse_shift("LSL 48"), Some(("", Shift16::Shift48)));
    assert_eq!(parse_shift("LSL 7"), None);
    assert_eq!(parse_shift("LSL 64"), None);
    assert_eq!(parse_shift("LSL 016"), None);
    assert_eq!(parse_shift("LSL 00"), None);
    assert_eq!(parse_shift("LSL 160"), None);
    assert_eq!(parse_shift("LSL"), None);
    assert_eq!(parse_shift("LSR 16"), None);
    assert_eq!(parse_shift("lsl 16"), None);
}

#[test]
fn shift_allows_white_space_around_its_word() {
    assert_eq!(parse_shift("LSL16"), Some(("", Shift16::Shift16)));
    assert_eq!(parse_shift(" \t LSL \t 32"), Some(("", Shift16::Shift32)));
    assert_eq!(parse_shift("LSL 16 "), Some((" ", Shift16::Shift16)));
    assert_eq!(parse_shift("LSL 16x"), Some(("x", Shift16::Shift16)));
}

#[test]
fn condition_is_two_known_letters() {
    assert_eq!(parse_condition("EQ 5"), Some((" 5", Condition::Equal)));
    assert_eq!(parse_condition("NVX"), Some(("X", Condition::Reserved)));
    assert_eq!(parse_condition(""), None);
    assert_eq!(parse_condition("E"), None);
    assert_eq!(parse_condition("eq"), None);
    assert_eq!(parse_condition("XX"), None);
    assert_eq!(parse_condition(" EQ"), None);
    assert_eq!(parse_condition("\u{00c9}Q"), None);
}

#[test]
fn mnemonic_ends_with_one_blank_or_full_stop() {
    let add = Instruction::Add { n: Register::X2, m: Register::X3, destination: Register::X1 };
    assert_eq!(parse_instruction("ADD X1, X2, X3"), Some(("", add)));
    assert_eq!(parse_instruction("ADD.X1, X2, X3"), Some(("", add)));
    assert_eq!(parse_instruction("ADD  X1, X2, X3"), None);
    assert_eq!(parse_instruction("ADD\tX1, X2, X3"), None);
    assert_eq!(parse_instruction(" ADD X1, X2, X3"), None);
    assert_eq!(parse_instruction("ADD"), None);
    assert_eq!(parse_instruction("ADDX1, X2, X3"), None);
    assert_eq!(parse_instruction("add X1, X2, X3"), None);
    assert_eq!(parse_instruction("ADDQ X1, X2, X3"), None);
    assert_eq!(parse_instruction(""), None);
    assert_eq!(parse_instruction(" "), None);
    assert_eq!(parse_instruction("."), None);
}

#[test]
fn commas_allow_white_space_around_them() {
    let add = Instruction::Add { n: Register::X2, m: Register::X3, destination: Register::X1 };
    assert_eq!(parse_instruction("ADD X1,X2,X3"), Some(("", add)));
    assert_eq!(parse_instruction("ADD X1 \t,\r X2  ,  X3"), Some(("", add)));
    assert_eq!(parse_instruction("ADD X1 X2 X3"), None);
    assert_eq!(parse_instruction("ADD X1, X2"), None);
    assert_eq!(parse_instruction("ADD X1, X2,"), None);
    assert_eq!(parse_instruction("ADD X1, X2, 3"), None);
}

#[test]
fn text_behind_the_operands_is_left() {
    assert_eq!(
        parse_instruction("ADD X1, X2, X3 and more"),
        Some((
            " and more",
            Instruction::Add { n: Register::X2, m: Register::X3, destination: Register::X1 }
        ))
    );
    assert_eq!(
        parse_line("BR X5 // return"),
        Some((" // return", AsmLine::Instruction(Instruction::BranchRegister { r: Register::X5 })))
    );
    assert_eq!(
        parse_instruction("STUR X1, [X2, 40]  tail"),
        Some((
            "tail",
            Instruction::Store {
                address: Register::X2,
                offset: Immediate9(40),
                data: Register::X1
            }
        ))
    );
}

#[test]
fn mnemonics_that_begin_alike_are_told_apart() {
    assert_eq!(
        parse_instruction("B 25"),
        Some(("", Instruction::Branch { address: Immediate26(25) }))
    );
    assert_eq!(
        parse_instruction("BL 25"),
        Some(("", Instruction::BranchLink { address: Immediate26(25) }))
    );
    assert_eq!(
        parse_instruction("BR X25"),
        Some(("", Instruction::BranchRegister { r: Register::X25 }))
    );
    assert_eq!(parse_instruction("BR 25"), None);
    assert_eq!(parse_instruction("BL X25"), None);
    assert_eq!(
        parse_instruction("ADDIS X1, X2, 3"),
        Some((
            "",
            Instruction::AddImmediateSetFlags {
                n: Register::X2,
                m: Immediate12(3),
                destination: Register::X1
            }
        ))
    );
    assert_eq!(parse_instruction("ADDS X1, X2, 3"), None);
    assert_eq!(
        parse_instruction("STURB X1, [X2, 3]"),
        Some((
            "",
            Instruction::StoreByte {
                address: Register::X2,
                offset: Immediate9(3),
                data: Register::X1
            }
        ))
    );
}

#[test]
fn branch_tries_the_conditional_form_first() {
    assert_eq!(
        parse_instruction("B.GE -4"),
        Some((
            "",
            Instruction::ConditionalBranch {
                address: Immediate19(-4),
                condition: Condition::GreaterThanEqual
            }
        ))
    );
    assert_eq!(
        parse_instruction("B EQ 4"),
        Some((
            "",
            Instruction::ConditionalBranch { address: Immediate19(4), condition: Condition::Equal }
        ))
    );
    assert_eq!(
        parse_instruction("B.  NE  7  "),
        Some((
            "",
            Instruction::ConditionalBranch {
                address: Immediate19(7),
                condition: Condition::NotEqual
            }
        ))
    );
    assert_eq!(
        parse_instruction("B.LT25"),
        Some((
            "",
            Instruction::ConditionalBranch {
                address: Immediate19(25),
                condition: Condition::LessThan
            }
        ))
    );
    assert_eq!(
        parse_instruction("B.6"),
        Some(("", Instruction::Branch { address: Immediate26(6) }))
    );
    assert_eq!(
        parse_instruction("B   -12 next"),
        Some(("next", Instruction::Branch { address: Immediate26(-12) }))
    );
    assert_eq!(parse_instruction("B.XX 4"), None);
    assert_eq!(parse_instruction("B.LT"), None);
    assert_eq!(parse_instruction("B "), None);
    assert_eq!(parse_instruction("B"), None);
}

#[test]
fn branch_link_and_register_take_no_white_space_before_the_operand() {
    assert_eq!(parse_instruction("BL  25"), None);
    assert_eq!(parse_instruction("BR  X1"), None);
    assert_eq!(
        parse_instruction("BL -25"),
        Some(("", Instruction::BranchLink { address: Immediate26(-25) }))
    );
}

#[test]
fn memory_operand_stands_in_brackets() {
    let load =
        Instruction::Load { address: Register::X2, offset: Immediate9(-8), data: Register::X1 };
    assert_eq!(parse_instruction("LDUR X1, [X2, -8]"), Some(("", load)));
    assert_eq!(parse_instruction("LDUR X1,[X2,-8]"), Some(("", load)));
    assert_eq!(parse_instruction("LDUR X1 , [ X2 , -8 ]"), Some(("", load)));
    assert_eq!(parse_instruction("LDUR X1, [X2, -8"), None);
    assert_eq!(parse_instruction("LDUR X1, X2, -8"), None);
    assert_eq!(parse_instruction("LDUR X1, [X2]"), None);
    assert_eq!(parse_instruction("LDUR X1, [X2, 40000]"), None);
    assert_eq!(parse_instruction("LDUR X1 [X2, 8]"), None);
}

#[test]
fn wide_move_shift_is_optional() {
    assert_eq!(
        parse_instruction("MOVZ X9, 255 ,LSL48"),
        Some((
            "",
            Instruction::MoveZero {
                immediate: Immediate16(255),
                shift: Shift16::Shift48,
                destination: Register::X9
            }
        ))
    );
    assert_eq!(
        parse_instruction("MOVZ X9, 255, LSL 7"),
        Some((
            ", LSL 7",
            Instruction::MoveZero {
                immediate: Immediate16(255),
                shift: Shift16::Shift0,
                destination: Register::X9
            }
        ))
    );
    assert_eq!(
        parse_instruction("MOVK X9, -1 LSL 16"),
        Some((
            " LSL 16",
            Instruction::MoveKeep {
                immediate: Immediate16(-1),
                shift: Shift16::Shift0,
                destination: Register::X9
            }
        ))
    );
    assert_eq!(parse_instruction("MOVZ X9, 40000"), None);
    assert_eq!(parse_instruction("MOVZ X9"), None);
}

#[test]
fn immediate_operands_are_bounded_by_their_container() {
    assert_eq!(
        parse_instruction("ADDI X1, X2, 32767"),
        Some((
            "",
            Instruction::AddImmediate {
                n: Register::X2,
                m: Immediate12(32_767),
                destination: Register::X1
            }
        ))
    );
    assert_eq!(parse_instruction("ADDI X1, X2, 32768"), None);
    assert_eq!(
        parse_instruction("LSR X1, X2, 127"),
        Some((
            "",
            Instruction::LogicalShiftRight {
                n: Register::X2,
                m: Immediate6(127),
                destination: Register::X1
            }
        ))
    );
    assert_eq!(parse_instruction("LSR X1, X2, 128"), None);
    assert_eq!(
        parse_instruction("CBZ XZR, -2147483647"),
        Some((
            "",
            Instruction::CompareBranchZero { address: Immediate19(-i32::MAX), r: Register::XZR }
        ))
    );
    assert_eq!(parse_instruction("CBZ X1, 2147483648"), None);
    assert_eq!(parse_instruction("CBZ X1 25"), None);
}

#[test]
fn line_of_white_space_is_blank() {
    assert_eq!(parse_line(""), Some(("", AsmLine::Blank)));
    assert_eq!(parse_line(" \t\r \n"), Some(("", AsmLine::Blank)));
    assert_eq!(parse_line("\u{00a0}"), None);
    assert_eq!(parse_line(" x"), None);
    assert_eq!(parse_line("ADD"), None);
    assert_eq!(parse_line("ADD X1, X2, X99"), None);
}

#[test]
fn text_of_other_alphabets_is_read_by_characters() {
    assert_eq!(parse_line("\u{00e4}\u{00f6}\u{00fc}"), None);
    assert_eq!(
        parse_instruction("BR X3\u{20ac}\u{00e9}"),
        Some(("\u{20ac}\u{00e9}", Instruction::BranchRegister { r: Register::X3 }))
    );
    assert_eq!(parse_instruction("B.\u{00c9}\u{00c9} 4"), None);
}
