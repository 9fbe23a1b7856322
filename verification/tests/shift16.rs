use legv8_asm::bit::Bit;
use legv8_asm::shift16::Shift16;

#[test]
fn test_shift0() {
    assert_eq!(<[Bit; 2]>::from(Shift16::Shift0), [Bit::Zero, Bit::Zero]);
}

#[test]
fn test_shift32() {
    assert_eq!(<[Bit; 2]>::from(Shift16::Shift32), [Bit::Zero, Bit::One]);
}
