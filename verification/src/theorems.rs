//! What holds of every program.
//!
//! The statements are about [`assembly`], the function that the executable
//! assembler is proved to compute. Of a program that is accepted they say
//! where the word of an instruction stands, what the word of a literal, of a
//! symbol and of a label is, which names the symbol table holds, and which
//! addresses the variables get. Of a program that is refused they say which
//! line the refusal names.

use crate::assembler::{
    assembly, emit_line, first_pass, holds_instruction, instruction_count,
    lemma_first_pass_refusal_stays, second_pass, Output,
};
use crate::error::ErrorKind;
use crate::instruction::{
    address_word, compute_word, lemma_address_word_value, lemma_word_shape, Comp, Dest,
    InstructionView, Jump, OperandView, MAX_ADDRESS,
};
use crate::parser::{instruction_text, parse};
use crate::symbol_table::{lemma_table_grows, predefined, Symbols, FIRST_VARIABLE};
use crate::text::{binary, binary_value, decimal_value, is_decimal};
use vstd::prelude::*;

verus! {

/// Whether `line` holds `instruction`.
pub open spec fn holds(line: Seq<char>, instruction: InstructionView) -> bool {
    parse(line) == Ok::<Option<InstructionView>, ErrorKind>(Some(instruction))
}

/// Whether `line` declares the label `name`.
pub open spec fn declares(line: Seq<char>, name: Seq<char>) -> bool {
    holds(line, InstructionView::Label(name))
}

/// Whether `line` is an address instruction with the symbol `name`.
pub open spec fn refers_to(line: Seq<char>, name: Seq<char>) -> bool {
    holds(line, InstructionView::Address(OperandView::Symbol(name)))
}

/// Whether one of the first `n` lines declares the label `name`.
pub open spec fn declared_in(lines: Seq<Seq<char>>, n: int, name: Seq<char>) -> bool {
    exists|j: int| 0 <= j < n && declares(#[trigger] lines[j], name)
}

/// Whether one of the first `n` lines is an address instruction with the
/// symbol `name`.
pub open spec fn used_in(lines: Seq<Seq<char>>, n: int, name: Seq<char>) -> bool {
    exists|j: int| 0 <= j < n && refers_to(#[trigger] lines[j], name)
}

/// The symbols that the second pass has at hand when it comes to line `k`
/// of a program that the first pass accepts.
pub open spec fn symbols_before(lines: Seq<Seq<char>>, k: int) -> Symbols {
    second_pass(lines, first_pass(lines, lines.len() as int)->Ok_0, k)->Ok_0.symbols
}

/// The word of `instruction` when the names have the addresses that
/// `symbols` gives them. A label has no word.
pub open spec fn word_with(symbols: Symbols, instruction: InstructionView) -> Option<Seq<char>> {
    match instruction {
        InstructionView::Label(_) => None,
        InstructionView::Address(OperandView::Literal(value)) => Some(address_word(value)),
        InstructionView::Address(OperandView::Symbol(name)) => Some(
            address_word(symbols.entries[name]),
        ),
        InstructionView::Compute { dest, comp, jump } => Some(compute_word(dest, comp, jump)),
    }
}

/// Whether line `k` brings in the variable `name`: it is an address
/// instruction with the symbol `name`, which is not predefined, is not
/// declared as a label anywhere in the program, and is used on no line before.
pub open spec fn introduces(lines: Seq<Seq<char>>, k: int, name: Seq<char>) -> bool {
    &&& 0 <= k < lines.len()
    &&& refers_to(lines[k], name)
    &&& !predefined().contains_key(name)
    &&& !declared_in(lines, lines.len() as int, name)
    &&& !used_in(lines, k, name)
}

/// Whether line `k` brings in a variable.
pub open spec fn introduces_variable(lines: Seq<Seq<char>>, k: int) -> bool {
    parse(lines[k]) matches Ok(Some(InstructionView::Address(OperandView::Symbol(name))))
        && introduces(lines, k, name)
}

/// The number of variables that the first `k` lines bring in.
pub open spec fn variables_before(lines: Seq<Seq<char>>, k: int) -> int
    decreases k,
{
    if k <= 0 {
        0
    } else {
        variables_before(lines, k - 1) + if introduces_variable(lines, k - 1) {
            1int
        } else {
            0int
        }
    }
}

/// The first pass leaves a well-formed table, gives out no variable, and
/// keeps what it had after fewer lines.
pub proof fn lemma_first_pass_grows(lines: Seq<Seq<char>>, m: int, n: int)
    requires
        m <= n,
        first_pass(lines, n) is Ok,
    ensures
        first_pass(lines, m) matches Ok(earlier) && first_pass(lines, n) matches Ok(later) && {
            &&& earlier.wf()
            &&& later.wf()
            &&& later.extends(earlier)
            &&& later.next_variable == FIRST_VARIABLE
        },
    decreases n,
{
    if n > 0 {
        lemma_first_pass_grows(lines, n - 1, n - 1);
        if m < n {
            lemma_first_pass_grows(lines, m, n - 1);
        }
    }
}

/// After the first pass each label stands for the number of instructions
/// before its declaration.
pub proof fn lemma_first_pass_binds(lines: Seq<Seq<char>>, n: int, j: int, name: Seq<char>)
    requires
        0 <= j < n,
        first_pass(lines, n) is Ok,
        declares(lines[j], name),
    ensures
        0 <= instruction_count(lines, j) <= MAX_ADDRESS,
        first_pass(lines, n)->Ok_0.lookup(name) == Some(instruction_count(lines, j) as u16),
{
    lemma_first_pass_grows(lines, j, n);
    lemma_first_pass_grows(lines, j + 1, n);
    lemma_table_grows(first_pass(lines, j)->Ok_0, name, instruction_count(lines, j));
}

/// After the first pass the names with an address are the predefined ones
/// and the labels that the lines declare.
pub proof fn lemma_first_pass_names(lines: Seq<Seq<char>>, n: int, name: Seq<char>)
    requires
        0 <= n,
        first_pass(lines, n) is Ok,
    ensures
        first_pass(lines, n)->Ok_0.entries.contains_key(name) <==> predefined().contains_key(name)
            || declared_in(lines, n, name),
    decreases n,
{
    if n > 0 {
        lemma_first_pass_names(lines, n - 1, name);
        if declared_in(lines, n - 1, name) {
            let j: int = choose|j: int| 0 <= j < n - 1 && declares(#[trigger] lines[j], name);
            assert(0 <= j < n && declares(lines[j], name));
        }
        if declared_in(lines, n, name) && !declares(lines[n - 1], name) {
            let j: int = choose|j: int| 0 <= j < n && declares(#[trigger] lines[j], name);
            assert(0 <= j < n - 1 && declares(lines[j], name));
        }
    }
}

/// The second pass keeps the table well formed, writes one word for each
/// instruction, and keeps the symbols and words it had after fewer lines.
pub proof fn lemma_second_pass_grows(lines: Seq<Seq<char>>, symbols: Symbols, m: int, n: int)
    requires
        symbols.wf(),
        0 <= m <= n,
        second_pass(lines, symbols, n) is Ok,
    ensures
        second_pass(lines, symbols, m) matches Ok(earlier) && second_pass(
            lines,
            symbols,
            n,
        ) matches Ok(later) && {
            &&& earlier.symbols.wf()
            &&& later.symbols.wf()
            &&& later.symbols.extends(earlier.symbols)
            &&& earlier.words.len() == instruction_count(lines, m)
            &&& later.words.len() == instruction_count(lines, n)
            &&& instruction_count(lines, m) <= instruction_count(lines, n)
            &&& earlier.words == later.words.take(instruction_count(lines, m))
        },
    decreases n,
{
    if n > 0 {
        lemma_second_pass_grows(lines, symbols, n - 1, n - 1);
        if m < n {
            lemma_second_pass_grows(lines, symbols, m, n - 1);
        }
    }
}

/// After the second pass the names with an address are those it began with
/// and the symbols of the address instructions.
pub proof fn lemma_second_pass_names(
    lines: Seq<Seq<char>>,
    symbols: Symbols,
    n: int,
    name: Seq<char>,
)
    requires
        symbols.wf(),
        0 <= n,
        second_pass(lines, symbols, n) is Ok,
    ensures
        second_pass(lines, symbols, n)->Ok_0.symbols.entries.contains_key(name)
            <==> symbols.entries.contains_key(name) || used_in(lines, n, name),
    decreases n,
{
    if n > 0 {
        lemma_second_pass_grows(lines, symbols, n - 1, n);
        lemma_second_pass_names(lines, symbols, n - 1, name);
        if used_in(lines, n - 1, name) {
            let j: int = choose|j: int| 0 <= j < n - 1 && refers_to(#[trigger] lines[j], name);
            assert(0 <= j < n && refers_to(lines[j], name));
        }
        if used_in(lines, n, name) && !refers_to(lines[n - 1], name) {
            let j: int = choose|j: int| 0 <= j < n && refers_to(#[trigger] lines[j], name);
            assert(0 <= j < n - 1 && refers_to(lines[j], name));
        }
    }
}

/// The word of the instruction on line `k` is the one that the second pass
/// writes for the line with the symbols it has at hand, behind the words of
/// the lines before. What those symbols hold, the symbols at the end hold too.
proof fn lemma_word_of_line(lines: Seq<Seq<char>>, k: int)
    requires
        0 <= k < lines.len(),
        assembly(lines) is Ok,
        holds_instruction(lines[k]),
    ensures
        ({
            let output = assembly(lines)->Ok_0;
            let before = Output {
                symbols: symbols_before(lines, k),
                words: output.words.take(instruction_count(lines, k)),
            };
            &&& 0 <= instruction_count(lines, k) < output.words.len()
            &&& output.words.len() == instruction_count(lines, lines.len() as int)
            &&& emit_line(before, lines, k) matches Ok(after) && {
                &&& after.words == before.words.push(output.words[instruction_count(lines, k)])
                &&& after.words.last() == output.words[instruction_count(lines, k)]
                &&& after.symbols == symbols_before(lines, k + 1)
                &&& output.symbols.extends(after.symbols)
                &&& after.symbols.extends(before.symbols)
                &&& before.symbols.wf()
            }
        }),
{
    let n: int = lines.len() as int;
    let first = first_pass(lines, n)->Ok_0;
    lemma_first_pass_grows(lines, n, n);
    lemma_second_pass_grows(lines, first, k, n);
    lemma_second_pass_grows(lines, first, k + 1, n);
}

/// Every word that the second pass writes has sixteen characters, each `0`
/// or `1`.
proof fn lemma_second_pass_words(lines: Seq<Seq<char>>, symbols: Symbols, n: int, i: int)
    requires
        second_pass(lines, symbols, n) is Ok,
        0 <= i < second_pass(lines, symbols, n)->Ok_0.words.len(),
    ensures
        second_pass(lines, symbols, n)->Ok_0.words[i].len() == 16,
        forall|j: int|
            0 <= j < 16 ==> #[trigger] second_pass(lines, symbols, n)->Ok_0.words[i][j] == '0'
                || second_pass(lines, symbols, n)->Ok_0.words[i][j] == '1',
    decreases n,
{
    if n > 0 {
        let before = second_pass(lines, symbols, n - 1)->Ok_0;
        if i < before.words.len() {
            lemma_second_pass_words(lines, symbols, n - 1, i);
        } else {
            match parse(lines[n - 1]) {
                Ok(Some(InstructionView::Address(OperandView::Literal(value)))) => {
                    lemma_word_shape(value, Dest::Null, Comp::Zero, Jump::Null);
                },
                Ok(Some(InstructionView::Address(OperandView::Symbol(name)))) => {
                    let address: u16 = before.symbols.allocate_variable(name)->Ok_0.1;
                    lemma_word_shape(address, Dest::Null, Comp::Zero, Jump::Null);
                },
                Ok(Some(InstructionView::Compute { dest, comp, jump })) => {
                    lemma_word_shape(0, dest, comp, jump);
                },
                _ => {},
            }
        }
    }
}

/// When the second pass comes to line `k`, the next free address is 16 and
/// the number of variables that the lines before brought in.
proof fn lemma_next_variable(lines: Seq<Seq<char>>, k: int)
    requires
        0 <= k <= lines.len(),
        assembly(lines) is Ok,
    ensures
        symbols_before(lines, k).next_variable == FIRST_VARIABLE + variables_before(lines, k),
    decreases k,
{
    let n: int = lines.len() as int;
    let first = first_pass(lines, n)->Ok_0;
    lemma_first_pass_grows(lines, n, n);
    if k > 0 {
        lemma_next_variable(lines, k - 1);
        lemma_second_pass_grows(lines, first, k, n);
        if let Ok(Some(InstructionView::Address(OperandView::Symbol(name)))) = parse(lines[k - 1]) {
            lemma_known_symbols(lines, k - 1, name);
        }
    }
}

/// More lines bring in at least as many variables.
proof fn lemma_variables_before_grows(lines: Seq<Seq<char>>, j: int, k: int)
    requires
        j <= k,
    ensures
        variables_before(lines, j) <= variables_before(lines, k),
    decreases k - j,
{
    if j < k {
        lemma_variables_before_grows(lines, j, k - 1);
    }
}

/// No line is passed over: a line that cannot be read refuses the program,
/// for that line or for one before it.
pub proof fn lemma_refused_line(lines: Seq<Seq<char>>, k: int)
    requires
        0 <= k < lines.len(),
        parse(lines[k]) is Err,
    ensures
        assembly(lines) matches Err(failure) && 0 <= failure.index <= k,
{
    let n: int = lines.len() as int;
    lemma_first_refusal(lines, k + 1);
    lemma_first_pass_refusal_stays(lines, k + 1, n);
}

/// A refusal of the first pass among the first `n` lines names one of them,
/// and every line before that one can be read.
proof fn lemma_first_refusal(lines: Seq<Seq<char>>, n: int)
    requires
        0 <= n,
    ensures
        match first_pass(lines, n) {
            Ok(_) => forall|j: int| 0 <= j < n ==> (#[trigger] parse(lines[j])) is Ok,
            Err(failure) => {
                &&& 0 <= failure.index < n
                &&& forall|j: int| 0 <= j < failure.index ==> (#[trigger] parse(lines[j])) is Ok
            },
        },
    decreases n,
{
    if n > 0 {
        lemma_first_refusal(lines, n - 1);
    }
}

/// A refusal of the second pass among the first `n` lines names one of them.
proof fn lemma_second_refusal(lines: Seq<Seq<char>>, symbols: Symbols, n: int)
    requires
        0 <= n,
    ensures
        second_pass(lines, symbols, n) matches Err(failure) ==> 0 <= failure.index < n,
    decreases n,
{
    if n > 0 {
        lemma_second_refusal(lines, symbols, n - 1);
    }
}

/// A program is refused for one of its lines, and every line before that
/// one can be read.
pub proof fn lemma_refusal(lines: Seq<Seq<char>>)
    requires
        assembly(lines) is Err,
    ensures
        0 <= assembly(lines)->Err_0.index < lines.len(),
        forall|j: int|
            0 <= j < assembly(lines)->Err_0.index ==> (#[trigger] parse(lines[j])) is Ok,
{
    let n: int = lines.len() as int;
    lemma_first_refusal(lines, n);
    if let Ok(symbols) = first_pass(lines, n) {
        lemma_second_refusal(lines, symbols, n);
    }
}

/// There is one word for each instruction, and the words stand in the order
/// of the instructions: the word of the instruction on line `k` has as many
/// words before it as there are instructions before line `k`. It is the word
/// of that instruction with the addresses that the names have at the end.
pub proof fn lemma_word_of_instruction(
    lines: Seq<Seq<char>>,
    k: int,
    instruction: InstructionView,
)
    requires
        0 <= k < lines.len(),
        assembly(lines) is Ok,
        holds(lines[k], instruction),
        instruction.is_executable(),
    ensures
        assembly(lines)->Ok_0.words.len() == instruction_count(lines, lines.len() as int),
        0 <= instruction_count(lines, k) < assembly(lines)->Ok_0.words.len(),
        word_with(assembly(lines)->Ok_0.symbols, instruction) == Some(
            assembly(lines)->Ok_0.words[instruction_count(lines, k)],
        ),
{
    lemma_word_of_line(lines, k);
    if let InstructionView::Address(OperandView::Symbol(name)) = instruction {
        lemma_table_grows(symbols_before(lines, k), name, 0);
    }
}

/// Every word of a program has sixteen characters, each `0` or `1`.
pub proof fn lemma_words_are_binary(lines: Seq<Seq<char>>, i: int)
    requires
        assembly(lines) is Ok,
        0 <= i < assembly(lines)->Ok_0.words.len(),
    ensures
        assembly(lines)->Ok_0.words[i].len() == 16,
        forall|j: int|
            0 <= j < 16 ==> #[trigger] assembly(lines)->Ok_0.words[i][j] == '0' || assembly(
                lines,
            )->Ok_0.words[i][j] == '1',
{
    let n: int = lines.len() as int;
    lemma_second_pass_words(lines, first_pass(lines, n)->Ok_0, n, i);
}

/// An address instruction with a decimal literal is accepted only if the
/// literal is at most 32767, and its word is the literal in sixteen binary
/// digits: read as a binary numeral, the word is worth what the literal is
/// worth.
pub proof fn lemma_word_of_literal(lines: Seq<Seq<char>>, k: int, digits: Seq<char>)
    requires
        0 <= k < lines.len(),
        assembly(lines) is Ok,
        instruction_text(lines[k]) == seq!['@'] + digits,
        is_decimal(digits),
    ensures
        decimal_value(digits) <= MAX_ADDRESS,
        0 <= instruction_count(lines, k) < assembly(lines)->Ok_0.words.len(),
        assembly(lines)->Ok_0.words[instruction_count(lines, k)] == binary(
            decimal_value(digits),
            16,
        ),
        binary_value(assembly(lines)->Ok_0.words[instruction_count(lines, k)]) == decimal_value(
            digits,
        ),
{
    let n: int = lines.len() as int;
    assert((seq!['@'] + digits).drop_first() =~= digits);
    lemma_first_pass_grows(lines, k + 1, n);
    lemma_word_of_instruction(lines, k, parse(lines[k])->Ok_0->Some_0);
    lemma_address_word_value(decimal_value(digits) as u16);
}

/// Every use of a symbol gives the word of one address: the one that the
/// symbol has when the program is assembled.
pub proof fn lemma_word_of_symbol(lines: Seq<Seq<char>>, k: int, name: Seq<char>)
    requires
        0 <= k < lines.len(),
        assembly(lines) is Ok,
        refers_to(lines[k], name),
    ensures
        0 <= instruction_count(lines, k) < assembly(lines)->Ok_0.words.len(),
        assembly(lines)->Ok_0.symbols.lookup(name) matches Some(address) && address
            <= MAX_ADDRESS && assembly(lines)->Ok_0.words[instruction_count(lines, k)]
            == address_word(address),
{
    let n: int = lines.len() as int;
    lemma_word_of_instruction(lines, k, InstructionView::Address(OperandView::Symbol(name)));
    lemma_known_symbols(lines, n, name);
    lemma_first_pass_grows(lines, n, n);
    lemma_second_pass_grows(lines, first_pass(lines, n)->Ok_0, n, n);
}

/// A label stands for the number of instructions before its declaration:
/// the address of the instruction that follows it.
pub proof fn lemma_address_of_label(lines: Seq<Seq<char>>, j: int, name: Seq<char>)
    requires
        0 <= j < lines.len(),
        assembly(lines) is Ok,
        declares(lines[j], name),
    ensures
        0 <= instruction_count(lines, j) <= MAX_ADDRESS,
        assembly(lines)->Ok_0.symbols.lookup(name) == Some(instruction_count(lines, j) as u16),
{
    let n: int = lines.len() as int;
    lemma_first_pass_binds(lines, n, j, name);
    lemma_first_pass_grows(lines, n, n);
    lemma_second_pass_grows(lines, first_pass(lines, n)->Ok_0, 0, n);
}

/// A symbol that is declared as a label gives the word of the address of the
/// instruction that follows the declaration, wherever it is used: before the
/// declaration or after it.
pub proof fn lemma_word_of_label(lines: Seq<Seq<char>>, j: int, k: int, name: Seq<char>)
    requires
        0 <= j < lines.len(),
        0 <= k < lines.len(),
        assembly(lines) is Ok,
        declares(lines[j], name),
        refers_to(lines[k], name),
    ensures
        0 <= instruction_count(lines, j) <= MAX_ADDRESS,
        0 <= instruction_count(lines, k) < assembly(lines)->Ok_0.words.len(),
        assembly(lines)->Ok_0.words[instruction_count(lines, k)] == address_word(
            instruction_count(lines, j) as u16,
        ),
{
    lemma_address_of_label(lines, j, name);
    lemma_word_of_symbol(lines, k, name);
}

/// When the second pass comes to line `k`, the names with an address are the
/// predefined ones, the labels that the program declares anywhere, and the
/// symbols of the address instructions before line `k`. At the end they are
/// the names of the whole program.
pub proof fn lemma_known_symbols(lines: Seq<Seq<char>>, k: int, name: Seq<char>)
    requires
        0 <= k <= lines.len(),
        assembly(lines) is Ok,
    ensures
        symbols_before(lines, k).entries.contains_key(name) <==> predefined().contains_key(name)
            || declared_in(lines, lines.len() as int, name) || used_in(lines, k, name),
        symbols_before(lines, lines.len() as int) == assembly(lines)->Ok_0.symbols,
{
    let n: int = lines.len() as int;
    let first = first_pass(lines, n)->Ok_0;
    lemma_first_pass_grows(lines, n, n);
    lemma_first_pass_names(lines, n, name);
    lemma_second_pass_grows(lines, first, k, n);
    lemma_second_pass_names(lines, first, k, name);
}

/// The variables of a program get the addresses from 16 upwards, one after
/// the other, in the order in which the program brings them in: a variable
/// gets 16 and the number of variables brought in before it.
pub proof fn lemma_address_of_variable(lines: Seq<Seq<char>>, k: int, name: Seq<char>)
    requires
        assembly(lines) is Ok,
        introduces(lines, k, name),
    ensures
        0 <= variables_before(lines, k),
        FIRST_VARIABLE + variables_before(lines, k) <= MAX_ADDRESS,
        assembly(lines)->Ok_0.symbols.lookup(name) == Some(
            (FIRST_VARIABLE + variables_before(lines, k)) as u16,
        ),
{
    lemma_next_variable(lines, k);
    lemma_known_symbols(lines, k, name);
    lemma_word_of_line(lines, k);
    lemma_table_grows(symbols_before(lines, k), name, 0);
}

/// Of two variables, the one that the program brings in later gets the
/// higher address.
pub proof fn lemma_variables_in_order(
    lines: Seq<Seq<char>>,
    j: int,
    k: int,
    first: Seq<char>,
    second: Seq<char>,
)
    requires
        assembly(lines) is Ok,
        j < k,
        introduces(lines, j, first),
        introduces(lines, k, second),
    ensures
        ({
            let symbols = assembly(lines)->Ok_0.symbols;
            &&& symbols.entries.contains_key(first)
            &&& symbols.entries.contains_key(second)
            &&& FIRST_VARIABLE <= symbols.entries[first] < symbols.entries[second] <= MAX_ADDRESS
        }),
{
    lemma_address_of_variable(lines, j, first);
    lemma_address_of_variable(lines, k, second);
    lemma_variables_before_grows(lines, j + 1, k);
}

} // verus!
