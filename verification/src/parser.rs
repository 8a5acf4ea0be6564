//! Reading one line of source text.
//!
//! A line is read in three steps. What follows the first `//` is a comment and
//! is dropped. The blanks at both ends of what is left are dropped. The first
//! character of the rest decides: `(` begins a label, `@` an address
//! instruction, anything else a compute instruction. A line with nothing left
//! holds no instruction.

use crate::error::ErrorKind;
use crate::instruction::{
    comp_of, dest_of, jump_of, Comp, Dest, Instruction, InstructionView, Jump, Operand,
    OperandView, MAX_ADDRESS,
};
use crate::text::{
    blank_free, chars_of, decimal, decimal_up_to, decimal_value, drop_blanks,
    find_char, find_comment, is_blank, is_decimal, is_digit, lemma_plain_text, lemma_position,
    no_blank, position,
    skip_blanks, strip_comment, trim,
};
use vstd::prelude::*;
use vstd::string::*;

verus! {

/// What a line holds: an instruction, nothing, or the reason for which it is
/// refused.
pub type Parsed = Result<Option<InstructionView>, ErrorKind>;

/// The instruction part of a line: the line without comment and outer blanks.
pub open spec fn instruction_text(line: Seq<char>) -> Seq<char> {
    trim(strip_comment(line))
}

/// Reads a label declaration. `text` begins with `(`; it must end with `)`,
/// and the name in between must have at least one character and no blank.
pub open spec fn parse_label(text: Seq<char>) -> Parsed {
    let name = text.subrange(1, text.len() - 1);
    if text.len() >= 3 && text.last() == ')' && no_blank(name) {
        Ok(Some(InstructionView::Label(name)))
    } else {
        Err(ErrorKind::MalformedInstruction)
    }
}

/// Reads the operand of an address instruction: what follows the `@`. Digits
/// alone are a literal, which must not exceed [`MAX_ADDRESS`]. Anything else
/// is a symbol, which must have at least one character and no blank.
pub open spec fn parse_operand(operand: Seq<char>) -> Parsed {
    if is_decimal(operand) {
        if decimal_value(operand) <= MAX_ADDRESS {
            Ok(Some(InstructionView::Address(OperandView::Literal(decimal_value(operand) as u16))))
        } else {
            Err(ErrorKind::AddressOutOfRange)
        }
    } else if operand.len() > 0 && no_blank(operand) {
        Ok(Some(InstructionView::Address(OperandView::Symbol(operand))))
    } else {
        Err(ErrorKind::MalformedInstruction)
    }
}

/// The destination field of a compute instruction: what stands before the
/// first `=`, if there is one.
pub open spec fn dest_field(text: Seq<char>) -> Option<Seq<char>> {
    let equals: int = position(text, '=');
    if equals < text.len() {
        Some(text.take(equals))
    } else {
        None
    }
}

/// A compute instruction without its destination field and the `=`.
pub open spec fn after_dest(text: Seq<char>) -> Seq<char> {
    let equals: int = position(text, '=');
    if equals < text.len() {
        text.skip(equals + 1)
    } else {
        text
    }
}

/// The computation field of a compute instruction: what stands behind the
/// destination, up to the first `;` after it.
pub open spec fn comp_field(text: Seq<char>) -> Seq<char> {
    let rest = after_dest(text);
    rest.take(position(rest, ';'))
}

/// The jump field of a compute instruction: what stands behind the first `;`
/// after the destination, if there is one.
pub open spec fn jump_field(text: Seq<char>) -> Option<Seq<char>> {
    let rest = after_dest(text);
    let semicolon: int = position(rest, ';');
    if semicolon < rest.len() {
        Some(rest.skip(semicolon + 1))
    } else {
        None
    }
}

/// The destination that a field names. A field that is absent names
/// [`Dest::Null`].
pub open spec fn dest_named(field: Option<Seq<char>>) -> Option<Dest> {
    match field {
        None => Some(Dest::Null),
        Some(token) => dest_of(token),
    }
}

/// The jump that a field names. A field that is absent names [`Jump::Null`].
pub open spec fn jump_named(field: Option<Seq<char>>) -> Option<Jump> {
    match field {
        None => Some(Jump::Null),
        Some(token) => jump_of(token),
    }
}

/// Reads a compute instruction. Each field that is present must be a mnemonic
/// of its table.
pub open spec fn parse_compute(text: Seq<char>) -> Parsed {
    match (dest_named(dest_field(text)), comp_of(comp_field(text)), jump_named(jump_field(text))) {
        (Some(dest), Some(comp), Some(jump)) => Ok(
            Some(InstructionView::Compute { dest, comp, jump }),
        ),
        _ => Err(ErrorKind::UnknownMnemonic),
    }
}

/// What the line `line` holds.
pub open spec fn parse(line: Seq<char>) -> Parsed {
    let text = instruction_text(line);
    if text.len() == 0 {
        Ok(None)
    } else if text[0] == '(' {
        parse_label(text)
    } else if text[0] == '@' {
        parse_operand(text.drop_first())
    } else {
        parse_compute(text)
    }
}

/// Whether `found` is what `expected` says, the names compared by their
/// characters.
pub open spec fn parsed_as(found: Result<Option<Instruction>, ErrorKind>, expected: Parsed) -> bool {
    match found {
        Ok(Some(instruction)) => expected == Ok::<Option<InstructionView>, ErrorKind>(
            Some(instruction@),
        ),
        Ok(None) => expected == Ok::<Option<InstructionView>, ErrorKind>(None),
        Err(kind) => expected == Err::<Option<InstructionView>, ErrorKind>(kind),
    }
}

/// The characters `lo..hi` of `line`, as a string of their own.
fn copy_of(line: &str, lo: usize, hi: usize) -> (copy: String)
    requires
        lo <= hi <= line@.len(),
    ensures
        copy@ == line@.subrange(lo as int, hi as int),
{
    String::from_str(line.substring_char(lo, hi))
}

/// Reads the label declaration in the window `lo..hi`, which begins with `(`.
fn read_label(line: &str, chars: &Vec<char>, lo: usize, hi: usize) -> (found: Result<
    Option<Instruction>,
    ErrorKind,
>)
    requires
        chars@ == line@,
        lo < hi <= chars.len(),
    ensures
        parsed_as(found, parse_label(chars@.subrange(lo as int, hi as int))),
{
    let ghost text = chars@.subrange(lo as int, hi as int);
    if hi - lo >= 3 && chars[hi - 1] == ')' {
        assert(text.subrange(1, text.len() - 1) =~= chars@.subrange(lo + 1, hi - 1));
        if blank_free(chars, lo + 1, hi - 1) {
            return Ok(Some(Instruction::Label(copy_of(line, lo + 1, hi - 1))));
        }
    }
    Err(ErrorKind::MalformedInstruction)
}

/// Reads the operand in the window `lo..hi`.
fn read_operand(line: &str, chars: &Vec<char>, lo: usize, hi: usize) -> (found: Result<
    Option<Instruction>,
    ErrorKind,
>)
    requires
        chars@ == line@,
        lo <= hi <= chars.len(),
    ensures
        parsed_as(found, parse_operand(chars@.subrange(lo as int, hi as int))),
{
    if decimal(chars, lo, hi) {
        match decimal_up_to(chars, lo, hi, MAX_ADDRESS) {
            Some(value) => Ok(Some(Instruction::Address(Operand::Literal(value)))),
            None => Err(ErrorKind::AddressOutOfRange),
        }
    } else if lo < hi && blank_free(chars, lo, hi) {
        Ok(Some(Instruction::Address(Operand::Symbol(copy_of(line, lo, hi)))))
    } else {
        Err(ErrorKind::MalformedInstruction)
    }
}

/// Reads the compute instruction in the window `lo..hi`.
fn read_compute(chars: &Vec<char>, lo: usize, hi: usize) -> (found: Result<
    Option<Instruction>,
    ErrorKind,
>)
    requires
        lo <= hi <= chars.len(),
    ensures
        parsed_as(found, parse_compute(chars@.subrange(lo as int, hi as int))),
{
    let ghost text = chars@.subrange(lo as int, hi as int);
    let equals: usize = find_char(chars, lo, hi, '=');
    let (dest, rest): (Option<Dest>, usize) = if equals < hi {
        assert(text.take(equals - lo) =~= chars@.subrange(lo as int, equals as int));
        (Dest::read(chars, lo, equals), equals + 1)
    } else {
        (Some(Dest::Null), lo)
    };
    assert(chars@.subrange(rest as int, hi as int) == after_dest(text));
    let ghost tail = chars@.subrange(rest as int, hi as int);
    let semicolon: usize = find_char(chars, rest, hi, ';');
    assert(tail.take(semicolon - rest) =~= chars@.subrange(rest as int, semicolon as int));
    let comp = Comp::read(chars, rest, semicolon);
    let jump = if semicolon < hi {
        assert(tail.skip(semicolon - rest + 1) =~= chars@.subrange(semicolon + 1, hi as int));
        Jump::read(chars, semicolon + 1, hi)
    } else {
        Some(Jump::Null)
    };
    match (dest, comp, jump) {
        (Some(dest), Some(comp), Some(jump)) => Ok(Some(Instruction::Compute { dest, comp, jump })),
        _ => Err(ErrorKind::UnknownMnemonic),
    }
}

/// Reads one line of source text: the instruction it holds, `None` if it
/// holds none, or the reason for which it is refused.
pub fn parse_line(line: &str) -> (found: Result<Option<Instruction>, ErrorKind>)
    ensures
        parsed_as(found, parse(line@)),
{
    let chars = chars_of(line);
    let comment: usize = find_comment(&chars);
    let lo: usize = skip_blanks(&chars, 0, comment);
    let hi: usize = drop_blanks(&chars, lo, comment);
    let ghost text = chars@.subrange(lo as int, hi as int);
    if lo == hi {
        Ok(None)
    } else if chars[lo] == '(' {
        read_label(line, &chars, lo, hi)
    } else if chars[lo] == '@' {
        assert(text.drop_first() =~= chars@.subrange(lo + 1, hi as int));
        read_operand(line, &chars, lo + 1, hi)
    } else {
        read_compute(&chars, lo, hi)
    }
}

/// A line that is an `@` and digits, with nothing around, is an address
/// instruction whose operand is the digits.
pub proof fn lemma_literal_line(digits: Seq<char>)
    requires
        is_decimal(digits),
    ensures
        instruction_text(seq!['@'] + digits) == seq!['@'] + digits,
        parse(seq!['@'] + digits) == parse_operand(digits),
{
    let line = seq!['@'] + digits;
    assert forall|i: int| 0 <= i < line.len() implies !is_blank(#[trigger] line[i]) && line[i]
        != '/' by {
        if i > 0 {
            assert(is_digit(digits[i - 1]));
        }
    }
    lemma_plain_text(line);
    assert(line.drop_first() =~= digits);
}

/// A compute instruction without `=` and without `;` is all computation: it
/// has no destination and no jump.
pub proof fn lemma_bare_computation(text: Seq<char>)
    requires
        !text.contains('='),
        !text.contains(';'),
    ensures
        dest_field(text) == None::<Seq<char>>,
        jump_field(text) == None::<Seq<char>>,
        comp_field(text) == text,
        parse_compute(text) == match comp_of(text) {
            Some(comp) => Ok::<Option<InstructionView>, ErrorKind>(
                Some(InstructionView::Compute { dest: Dest::Null, comp, jump: Jump::Null }),
            ),
            None => Err::<Option<InstructionView>, ErrorKind>(ErrorKind::UnknownMnemonic),
        },
{
    lemma_position(text, '=');
    lemma_position(text, ';');
    assert(text.take(text.len() as int) =~= text);
}

} // verus!
