//! Text output: words as binary digits, and the instruction ROM.
//!
//! A word is printed with its most significant bit first, that is from index
//! 31 down to index 0. The ROM is a hardware module with one case arm per
//! word, addressed by the word's position.

use vstd::prelude::*;
use vstd::string::*;
use crate::bit::Bit;

verus! {

/// The digit that a bit is printed as.
pub open spec fn bit_char(bit: Bit) -> char {
    if bit == Bit::One {
        '1'
    } else {
        '0'
    }
}

/// A word's bits as text, the last bit of the word first.
pub open spec fn binary_text(word: Seq<Bit>) -> Seq<char> {
    Seq::new(word.len(), |i: int| bit_char(word[word.len() - 1 - i]))
}

/// The character of a decimal digit.
pub open spec fn digit_char(digit: int) -> char {
    if digit == 0 {
        '0'
    } else if digit == 1 {
        '1'
    } else if digit == 2 {
        '2'
    } else if digit == 3 {
        '3'
    } else if digit == 4 {
        '4'
    } else if digit == 5 {
        '5'
    } else if digit == 6 {
        '6'
    } else if digit == 7 {
        '7'
    } else if digit == 8 {
        '8'
    } else {
        '9'
    }
}

/// A number in decimal, without leading zeros.
pub open spec fn decimal_text(number: nat) -> Seq<char>
    decreases number,
{
    if number < 10 {
        seq![digit_char(number as int)]
    } else {
        decimal_text(number / 10).push(digit_char((number % 10) as int))
    }
}

/// The contents of each word of a list.
pub open spec fn words_of(instructions: Seq<[Bit; 32]>) -> Seq<Seq<Bit>> {
    Seq::new(instructions.len(), |i: int| instructions[i]@)
}

/// Each word as binary text on a line of its own.
pub open spec fn binary_lines(words: Seq<Seq<Bit>>) -> Seq<char>
    decreases words.len(),
{
    if words.len() == 0 {
        Seq::empty()
    } else {
        binary_lines(words.drop_last()) + binary_text(words.last()).push('\n')
    }
}

/// What the ROM module starts with.
pub open spec fn rom_header() -> Seq<char> {
    "\
module rom_case(out, address);
    output reg [31:0] out;
    input [15:0] address;
    always @ (address) begin
        case (address)
"@
}

/// What the ROM module ends with: the default arm and the closing lines.
pub open spec fn rom_footer() -> Seq<char> {
    "            default: out = 32'hD60003E0; // BR XZR
        endcase
    end
end\n"@
}

/// The case arm that gives `word` at `address`.
pub open spec fn case_text(address: nat, word: Seq<Bit>) -> Seq<char> {
    "            16'd"@ + decimal_text(address) + ": out = 32'b"@ + binary_text(word) + ";\n"@
}

/// One case arm per word, in order: the arm of the word at position `i` has
/// the address `i`.
pub open spec fn cases_text(words: Seq<Seq<Bit>>) -> Seq<char>
    decreases words.len(),
{
    if words.len() == 0 {
        Seq::empty()
    } else {
        cases_text(words.drop_last()) + case_text((words.len() - 1) as nat, words.last())
    }
}

/// The ROM module for a list of words.
pub open spec fn rom_text(words: Seq<Seq<Bit>>) -> Seq<char> {
    rom_header() + cases_text(words) + rom_footer()
}

/// Appends a number in decimal.
pub fn push_decimal(output: &mut String, number: usize)
    ensures
        final(output)@ == old(output)@ + decimal_text(number as nat),
    decreases number,
{
    if number >= 10 {
        push_decimal(output, number / 10);
    }
    proof {
        reveal_strlit("0");
        reveal_strlit("1");
        reveal_strlit("2");
        reveal_strlit("3");
        reveal_strlit("4");
        reveal_strlit("5");
        reveal_strlit("6");
        reveal_strlit("7");
        reveal_strlit("8");
        reveal_strlit("9");
    }
    let digit: &str = match number % 10 {
        0 => "0",
        1 => "1",
        2 => "2",
        3 => "3",
        4 => "4",
        5 => "5",
        6 => "6",
        7 => "7",
        8 => "8",
        _ => "9",
    };
    assert(digit@ =~= seq![digit_char((number % 10) as int)]);
    output.append(digit);
    assert(output@ =~= old(output)@ + decimal_text(number as nat));
}

/// Appends a word as binary text.
pub fn push_binary(output: &mut String, word: &[Bit; 32])
    ensures
        final(output)@ == old(output)@ + binary_text(word@),
{
    let mut i: usize = 0;
    while i < 32
        invariant
            i <= 32,
            output@ == old(output)@ + binary_text(word@).take(i as int),
        decreases 32 - i,
    {
        let ghost before = output@;
        proof {
            reveal_strlit("0");
            reveal_strlit("1");
        }
        match word[31 - i] {
            Bit::One => output.append("1"),
            Bit::Zero => output.append("0"),
        }
        assert(output@ =~= before.push(binary_text(word@)[i as int]));
        assert(binary_text(word@).take(i + 1) =~= binary_text(word@).take(i as int).push(
            binary_text(word@)[i as int],
        ));
        assert(output@ =~= old(output)@ + binary_text(word@).take(i + 1));
        i += 1;
    }
    assert(binary_text(word@).take(32) =~= binary_text(word@));
}

/// Each word as 32 binary digits, most significant bit first, on a line of
/// its own.
pub fn generate_binary_str(instructions: Vec<[Bit; 32]>) -> (output: String)
    ensures
        output@ == binary_lines(words_of(instructions@)),
{
    let ghost words = words_of(instructions@);
    let mut output = String::new();
    let mut i: usize = 0;
    while i < instructions.len()
        invariant
            i <= instructions.len(),
            words == words_of(instructions@),
            output@ == binary_lines(words.take(i as int)),
        decreases instructions.len() - i,
    {
        push_binary(&mut output, &instructions[i]);
        proof {
            reveal_strlit("\n");
        }
        output.append("\n");
        proof {
            let next = words.take(i + 1);
            assert(next.drop_last() =~= words.take(i as int));
            assert(next.last() == instructions@[i as int]@);
            assert(output@ =~= binary_lines(next));
        }
        i += 1;
    }
    assert(words.take(i as int) =~= words);
    output
}

/// The ROM module with one case arm per word: the word at position `i` is
/// what the module gives at address `i`.
///
/// The number of words is not held against the module's address input of 16
/// bits. An address is written with as many digits as it takes, so from the
/// word at position 65536 on the arms have addresses that the input cannot
/// take.
pub fn generate_case_rom(instructions: Vec<[Bit; 32]>) -> (rom: String)
    ensures
        rom@ == rom_text(words_of(instructions@)),
{
    let ghost words = words_of(instructions@);
    let mut rom = String::new();

    // Add the header
    rom.append(
        "\
module rom_case(out, address);
    output reg [31:0] out;
    input [15:0] address;
    always @ (address) begin
        case (address)
",
    );

    // Generate the cases
    let mut i: usize = 0;
    while i < instructions.len()
        invariant
            i <= instructions.len(),
            words == words_of(instructions@),
            rom@ == rom_header() + cases_text(words.take(i as int)),
        decreases instructions.len() - i,
    {
        let ghost before = rom@;
        // Add the line header with the address to match
        rom.append("            16'd");
        push_decimal(&mut rom, i);
        rom.append(": out = 32'b");
        // Add the binary instruction, most significant bit first
        push_binary(&mut rom, &instructions[i]);
        // Add the semicolon and newline
        rom.append(";\n");
        proof {
            let next = words.take(i + 1);
            assert(next.drop_last() =~= words.take(i as int));
            assert(next.last() == instructions@[i as int]@);
            assert(rom@ =~= before + case_text(i as nat, next.last()));
            assert(rom@ =~= rom_header() + cases_text(next));
        }
        i += 1;
    }
    assert(words.take(i as int) =~= words);

    // Add the closing bits of the module
    rom.append(
        "            default: out = 32'hD60003E0; // BR XZR
        endcase
    end
end\n",
    );
    rom
}

} // verus!
