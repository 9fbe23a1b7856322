//! An assembler for LEGv8, a teaching subset of ARMv8.
//!
//! Source text is parsed line by line into [`instruction::Instruction`]
//! values, each instruction is encoded into a 32-bit word, and the words are
//! rendered as the text of an instruction ROM. One line that is neither an
//! instruction nor blank is enough to get a report of such lines in place of
//! the ROM.

use vstd::prelude::*;
use vstd::string::*;

pub mod bit;
pub mod condition;
pub mod generator;
pub mod immediate;
pub mod instruction;
pub mod parser;
pub mod register;
pub mod shift16;

use crate::bit::Bit;
use crate::generator::{decimal_text, generate_case_rom, push_decimal, rom_text, words_of};
use crate::instruction::Instruction;
use crate::parser::{parse_lines, parsed_lines, AsmLine};

verus! {

/// The instructions among the lines, in the order of the lines.
pub open spec fn instructions_of<'a>(lines: Seq<AsmLine<'a>>) -> Seq<Instruction>
    decreases lines.len(),
{
    if lines.len() == 0 {
        Seq::empty()
    } else {
        match lines.last() {
            AsmLine::Instruction(instruction) => instructions_of(lines.drop_last()).push(
                instruction,
            ),
            _ => instructions_of(lines.drop_last()),
        }
    }
}

/// The indices of the lines that are errors, in ascending order. The first
/// line has the index 0.
pub open spec fn error_lines<'a>(lines: Seq<AsmLine<'a>>) -> Seq<int>
    decreases lines.len(),
{
    if lines.len() == 0 {
        Seq::empty()
    } else if lines.last() is Error {
        error_lines(lines.drop_last()).push(lines.len() - 1)
    } else {
        error_lines(lines.drop_last())
    }
}

/// The word of each instruction.
pub open spec fn words_for(instructions: Seq<Instruction>) -> Seq<Seq<Bit>> {
    Seq::new(instructions.len(), |i: int| instructions[i].bits())
}

/// The report of the lines with the given indices: `Error on line` and the
/// index for each of them, with nothing in between.
pub open spec fn error_text(indices: Seq<int>) -> Seq<char>
    decreases indices.len(),
{
    if indices.len() == 0 {
        Seq::empty()
    } else {
        error_text(indices.drop_last()) + "Error on line "@ + decimal_text(indices.last() as nat)
    }
}

/// What assembling a source text gives: the ROM module of its instructions
/// where no line is an error, and else the report of the lines that are.
pub open spec fn assembled_text(source: Seq<char>) -> Seq<char> {
    let lines = parsed_lines(source);
    if error_lines(lines).len() == 0 {
        rom_text(words_for(instructions_of(lines)))
    } else {
        error_text(error_lines(lines))
    }
}

/// The numbers of a list of indices.
pub open spec fn indices_of(indices: Seq<usize>) -> Seq<int> {
    Seq::new(indices.len(), |i: int| indices[i] as int)
}

/// Assembles a source text: the words of its instructions, in order, where
/// no line is an error; else the indices of the lines that are errors, in
/// ascending order.
pub fn assemble(assembly: &str) -> (result: Result<Vec<[Bit; 32]>, Vec<usize>>)
    ensures
        match result {
            Ok(words) => error_lines(parsed_lines(assembly@)).len() == 0 && words_of(words@)
                == words_for(instructions_of(parsed_lines(assembly@))),
            Err(indices) => indices@.len() > 0 && indices_of(indices@) == error_lines(
                parsed_lines(assembly@),
            ),
        },
{
    let parsed = parse_lines(assembly);
    let mut indices: Vec<usize> = Vec::new();
    let mut words: Vec<[Bit; 32]> = Vec::new();
    let mut index: usize = 0;
    while index < parsed.len()
        invariant
            index <= parsed@.len(),
            indices_of(indices@) == error_lines(parsed@.take(index as int)),
            words_of(words@) == words_for(instructions_of(parsed@.take(index as int))),
        decreases parsed@.len() - index,
    {
        proof {
            assert(parsed@.take(index + 1).drop_last() =~= parsed@.take(index as int));
        }
        match parsed[index] {
            AsmLine::Instruction(instruction) => {
                let ghost before = words@;
                let word = <[Bit; 32]>::from(instruction);
                words.push(word);
                assert(instructions_of(parsed@.take(index + 1)) == instructions_of(
                    parsed@.take(index as int),
                ).push(instruction));
                assert(words_of(words@) =~= words_of(before).push(word@));
                assert(words_of(words@) =~= words_for(
                    instructions_of(parsed@.take(index + 1)),
                ));
            },
            AsmLine::Error => {
                indices.push(index);
            },
            _ => {},
        }
        index += 1;
    }
    assert(parsed@.take(index as int) =~= parsed@);
    if indices.len() == 0 {
        Ok(words)
    } else {
        Err(indices)
    }
}

/// Assembles a source text into the text of an instruction ROM. Where a line
/// is an error, the result holds no ROM: it is `Error on line` and the
/// line's index for each such line, with nothing in between.
pub fn parse_to_rom(assembly: &str) -> (output: String)
    ensures
        output@ == assembled_text(assembly@),
{
    match assemble(assembly) {
        Ok(words) => generate_case_rom(words),
        Err(indices) => {
            let mut errors = String::new();
            let mut i: usize = 0;
            while i < indices.len()
                invariant
                    i <= indices@.len(),
                    errors@ == error_text(indices_of(indices@).take(i as int)),
                decreases indices@.len() - i,
            {
                errors.append("Error on line ");
                push_decimal(&mut errors, indices[i]);
                proof {
                    let next = indices_of(indices@).take(i + 1);
                    assert(next.drop_last() =~= indices_of(indices@).take(i as int));
                }
                i += 1;
            }
            assert(indices_of(indices@).take(i as int) =~= indices_of(indices@));
            errors
        },
    }
}

/// The instructions of two runs of lines, one behind the other, are the
/// instructions of the first run and then those of the second.
pub proof fn lemma_instructions_of_concat<'a>(first: Seq<AsmLine<'a>>, second: Seq<AsmLine<'a>>)
    ensures
        instructions_of(first + second) == instructions_of(first) + instructions_of(second),
    decreases second.len(),
{
    if second.len() == 0 {
        assert(first + second =~= first);
        assert(instructions_of(first) + instructions_of(second) =~= instructions_of(first));
    } else {
        assert((first + second).drop_last() =~= first + second.drop_last());
        assert((first + second).last() == second.last());
        lemma_instructions_of_concat(first, second.drop_last());
        assert(instructions_of(first + second) =~= instructions_of(first) + instructions_of(
            second,
        ));
    }
}

/// A line that is no instruction takes no address in the ROM: the
/// instructions are the same without that line.
pub proof fn lemma_line_without_address<'a>(lines: Seq<AsmLine<'a>>, index: int)
    requires
        0 <= index < lines.len(),
        !(lines[index] is Instruction),
    ensures
        instructions_of(lines.remove(index)) == instructions_of(lines),
{
    let before = lines.take(index);
    let line = seq![lines[index]];
    let behind = lines.skip(index + 1);
    assert(lines =~= before + line + behind);
    assert(lines.remove(index) =~= before + behind);
    assert(line.drop_last().len() == 0);
    assert(line.last() == lines[index]);
    assert(instructions_of(line.drop_last()) =~= Seq::<Instruction>::empty());
    assert(instructions_of(line) =~= Seq::<Instruction>::empty());
    lemma_instructions_of_concat(before, line);
    lemma_instructions_of_concat(before + line, behind);
    lemma_instructions_of_concat(before, behind);
    assert(instructions_of(before) + instructions_of(line) =~= instructions_of(before));
}

/// The address of an instruction in the ROM is the number of instructions on
/// the lines before it: the lines between them that are blank, comments or
/// errors are not counted.
pub proof fn lemma_instruction_address<'a>(lines: Seq<AsmLine<'a>>, index: int)
    requires
        0 <= index < lines.len(),
        lines[index] is Instruction,
    ensures
        instructions_of(lines.take(index)).len() < instructions_of(lines).len(),
        AsmLine::Instruction(
            instructions_of(lines)[instructions_of(lines.take(index)).len() as int],
        ) == lines[index],
{
    let before = lines.take(index);
    let through = lines.take(index + 1);
    let behind = lines.skip(index + 1);
    assert(lines =~= through + behind);
    assert(through.drop_last() =~= before);
    assert(through.last() == lines[index]);
    lemma_instructions_of_concat(through, behind);
}

/// There are as many instructions as there are lines that are instructions.
pub proof fn lemma_instruction_count<'a>(lines: Seq<AsmLine<'a>>)
    ensures
        instructions_of(lines).len() == lines.filter(|line: AsmLine<'a>| line is Instruction).len(),
    decreases lines.len(),
{
    reveal(Seq::filter);
    if lines.len() > 0 {
        lemma_instruction_count(lines.drop_last());
    }
}

/// The listed error lines are the lines that are errors, each once, in
/// ascending order.
pub proof fn lemma_error_lines<'a>(lines: Seq<AsmLine<'a>>)
    ensures
        forall|k: int|
            0 <= k < error_lines(lines).len() ==> 0 <= #[trigger] error_lines(lines)[k]
                < lines.len() && lines[error_lines(lines)[k]] is Error,
        forall|j: int, k: int|
            0 <= j < k < error_lines(lines).len() ==> error_lines(lines)[j] < error_lines(
                lines,
            )[k],
        forall|i: int|
            0 <= i < lines.len() && #[trigger] lines[i] is Error ==> error_lines(lines).contains(
                i,
            ),
    decreases lines.len(),
{
    if lines.len() > 0 {
        let front = lines.drop_last();
        lemma_error_lines(front);
        let found = error_lines(lines);
        assert forall|i: int| 0 <= i < lines.len() && #[trigger] lines[i] is Error implies
            found.contains(i) by {
            if i < front.len() {
                assert(front[i] is Error);
                let k = choose|k: int|
                    0 <= k < error_lines(front).len() && error_lines(front)[k] == i;
                assert(found[k] == i);
            } else {
                assert(found[found.len() - 1] == i);
            }
        }
    }
}

/// A report of error lines is never the text of a ROM module.
pub proof fn lemma_report_is_no_rom(indices: Seq<int>, words: Seq<Seq<Bit>>)
    requires
        indices.len() > 0,
    ensures
        error_text(indices) != rom_text(words),
{
    reveal_strlit("Error on line ");
    reveal_strlit(
        "\
module rom_case(out, address);
    output reg [31:0] out;
    input [15:0] address;
    always @ (address) begin
        case (address)
",
    );
    assert(rom_text(words)[0] == 'm');
    lemma_report_start(indices);
}

/// A report of error lines starts with the letter `E`.
proof fn lemma_report_start(indices: Seq<int>)
    requires
        indices.len() > 0,
    ensures
        error_text(indices).len() > 0,
        error_text(indices)[0] == 'E',
    decreases indices.len(),
{
    reveal_strlit("Error on line ");
    if indices.len() > 1 {
        lemma_report_start(indices.drop_last());
    } else {
        assert(error_text(indices.drop_last()) =~= Seq::<char>::empty());
    }
}

/// All or nothing. Where a line of the source is an error, the result is the
/// report of the error lines and no ROM module. Where no line is an error,
/// the result is a ROM module with one case arm for each line that is an
/// instruction.
pub proof fn lemma_all_or_nothing(source: Seq<char>)
    ensures
        ({
            let lines = parsed_lines(source);
            let words = words_for(instructions_of(lines));
            if exists|i: int| 0 <= i < lines.len() && #[trigger] lines[i] is Error {
                &&& assembled_text(source) == error_text(error_lines(lines))
                &&& forall|any: Seq<Seq<Bit>>| assembled_text(source) != #[trigger] rom_text(any)
            } else {
                &&& assembled_text(source) == rom_text(words)
                &&& words.len() == lines.filter(|line: AsmLine<'static>| line is Instruction).len()
            }
        }),
{
    let lines = parsed_lines(source);
    lemma_error_lines(lines);
    lemma_instruction_count(lines);
    if exists|i: int| 0 <= i < lines.len() && #[trigger] lines[i] is Error {
        let i = choose|i: int| 0 <= i < lines.len() && #[trigger] lines[i] is Error;
        assert(error_lines(lines).contains(i));
        assert(error_lines(lines).len() > 0);
        assert forall|any: Seq<Seq<Bit>>| assembled_text(source) != #[trigger] rom_text(any) by {
            lemma_report_is_no_rom(error_lines(lines), any);
        }
    } else {
        if error_lines(lines).len() > 0 {
            let at = error_lines(lines)[0];
            assert(lines[at] is Error);
        }
    }
}

} // verus!
