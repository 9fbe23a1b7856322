use legv8_asm::bit::{bit_array, Bit};
use legv8_asm::immediate::{
    Immediate12, Immediate16, Immediate19, Immediate26, Immediate6, Immediate9,
};

#[test]
fn test_immediate6() {
    assert_eq!(<[Bit; 6]>::from(Immediate6(5)), bit_array([1, 0, 1, 0, 0, 0]));
}

#[test]
fn test_negative_immediate6() {
    assert_eq!(<[Bit; 6]>::from(Immediate6(-5)), bit_array([1, 1, 0, 1, 1, 1]));
}

#[test]
fn test_immediate9() {
    assert_eq!(<[Bit; 9]>::from(Immediate9(5)), bit_array([1, 0, 1, 0, 0, 0, 0, 0, 0]));
}

#[test]
fn test_negative_immediate9() {
    assert_eq!(<[Bit; 9]>::from(Immediate9(-5)), bit_array([1, 1, 0, 1, 1, 1, 1, 1, 1]));
}

#[test]
fn test_immediate12() {
    assert_eq!(<[Bit; 12]>::from(Immediate12(5)), bit_array([1, 0, 1, 0, 0, 0, 0, 0, 0, 0, 0, 0]));
}

#[test]
fn test_negative_immediate12() {
    assert_eq!(<[Bit; 12]>::from(Immediate12(-5)), bit_array([1, 1, 0, 1, 1, 1, 1, 1, 1, 1, 1, 1]));
}

#[test]
fn test_immediate16() {
    assert_eq!(<[Bit; 16]>::from(Immediate16(5)), bit_array([1, 0, 1, 0, 0, 0, 0, 0, 0, 0, 0, 0, 0, 0, 0, 0]));
}

#[test]
fn test_negative_immediate16() {
    assert_eq!(<[Bit; 16]>::from(Immediate16(-5)), bit_array([1, 1, 0, 1, 1, 1, 1, 1, 1, 1, 1, 1, 1, 1, 1, 1]));
}

#[test]
fn test_immediate19() {
    assert_eq!(<[Bit; 19]>::from(Immediate19(5)), bit_array([1, 0, 1, 0, 0, 0, 0, 0, 0, 0, 0, 0, 0, 0, 0, 0, 0, 0, 0]));
}

#[test]
fn test_negative_immediate19() {
    assert_eq!(<[Bit; 19]>::from(Immediate19(-5)), bit_array([1, 1, 0, 1, 1, 1, 1, 1, 1, 1, 1, 1, 1, 1, 1, 1, 1, 1, 1]));
}

#[test]
fn test_immediate26() {
    assert_eq!(<[Bit; 26]>::from(Immediate26(5)), bit_array([1, 0, 1, 0, 0, 0, 0, 0, 0, 0, 0, 0, 0, 0, 0, 0, 0, 0, 0, 0, 0, 0, 0, 0, 0, 0]));
}

#[test]
fn test_negative_immediate26() {
    assert_eq!(<[Bit; 26]>::from(Immediate26(-5)), bit_array([1, 1, 0, 1, 1, 1, 1, 1, 1, 1, 1, 1, 1, 1, 1, 1, 1, 1, 1, 1, 1, 1, 1, 1, 1, 1]));
}
