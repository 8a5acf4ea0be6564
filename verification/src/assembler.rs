//! The assembler: two passes over the lines of a program.
//!
//! The first pass reads every line and gives each label the number of
//! instructions that stand before it, which is the address of the instruction
//! that follows it. The second pass reads the lines again and writes one word
//! for each instruction. A symbol that has no address by then is a variable,
//! and gets the next free one. Since the first pass is over by then, a label
//! may be used before the line that declares it.
//!
//! A program is refused as a whole, for the first line that cannot be
//! accepted, and no word is given out for it.

use crate::error::{AssemblyError, ErrorKind, Failure};
use crate::instruction::{
    address_word, compute_word, encode_address, encode_compute, Instruction, InstructionView,
    Operand, OperandView,
};
use crate::parser::{parse, parse_line};
use crate::symbol_table::{SymbolTable, Symbols};
use crate::text::{chars_of, find_char, position};
use vstd::prelude::*;
use vstd::string::*;

verus! {

/// Whether `line` holds an instruction that takes a place in the program.
pub open spec fn holds_instruction(line: Seq<char>) -> bool {
    parse(line) matches Ok(Some(instruction)) && instruction.is_executable()
}

/// The number of instructions in the first `n` lines: the address of the
/// instruction that comes next.
pub open spec fn instruction_count(lines: Seq<Seq<char>>, n: int) -> int
    decreases n,
{
    if n <= 0 {
        0
    } else {
        instruction_count(lines, n - 1) + if holds_instruction(lines[n - 1]) {
            1int
        } else {
            0int
        }
    }
}

/// What the first pass does with line `k`: a label is declared at the address
/// of the next instruction, and any other line leaves the symbols as they are.
pub open spec fn resolve_line(symbols: Symbols, lines: Seq<Seq<char>>, k: int) -> Result<
    Symbols,
    Failure,
> {
    match parse(lines[k]) {
        Err(kind) => Err(Failure { kind, index: k }),
        Ok(Some(InstructionView::Label(name))) => match symbols.bind_label(
            name,
            instruction_count(lines, k),
        ) {
            Ok(bound) => Ok(bound),
            Err(kind) => Err(Failure { kind, index: k }),
        },
        Ok(_) => Ok(symbols),
    }
}

/// The symbols after the first pass over the first `n` lines, or the first
/// refusal among them.
pub open spec fn first_pass(lines: Seq<Seq<char>>, n: int) -> Result<Symbols, Failure>
    decreases n,
{
    if n <= 0 {
        Ok(Symbols::initial())
    } else {
        match first_pass(lines, n - 1) {
            Err(failure) => Err(failure),
            Ok(symbols) => resolve_line(symbols, lines, n - 1),
        }
    }
}

/// What the second pass has at hand: the symbols, and the words written so
/// far.
pub struct Output {
    pub symbols: Symbols,
    pub words: Seq<Seq<char>>,
}

/// What the second pass does with line `k`: an instruction adds its word, and
/// a symbol without an address becomes a variable on the way.
pub open spec fn emit_line(output: Output, lines: Seq<Seq<char>>, k: int) -> Result<
    Output,
    Failure,
> {
    match parse(lines[k]) {
        Err(kind) => Err(Failure { kind, index: k }),
        Ok(Some(InstructionView::Address(OperandView::Literal(value)))) => Ok(
            Output { words: output.words.push(address_word(value)), ..output },
        ),
        Ok(Some(InstructionView::Address(OperandView::Symbol(name)))) => match output.symbols.allocate_variable(
            name,
        ) {
            Ok((symbols, address)) => Ok(
                Output { symbols, words: output.words.push(address_word(address)) },
            ),
            Err(kind) => Err(Failure { kind, index: k }),
        },
        Ok(Some(InstructionView::Compute { dest, comp, jump })) => Ok(
            Output { words: output.words.push(compute_word(dest, comp, jump)), ..output },
        ),
        Ok(_) => Ok(output),
    }
}

/// The symbols and words after the second pass over the first `n` lines,
/// begun with `symbols`, or the first refusal among them.
pub open spec fn second_pass(lines: Seq<Seq<char>>, symbols: Symbols, n: int) -> Result<
    Output,
    Failure,
>
    decreases n,
{
    if n <= 0 {
        Ok(Output { symbols, words: Seq::empty() })
    } else {
        match second_pass(lines, symbols, n - 1) {
            Err(failure) => Err(failure),
            Ok(output) => emit_line(output, lines, n - 1),
        }
    }
}

/// The words of the program `lines` and the symbols it leaves, or the first
/// refusal: one of the first pass if there is any, else one of the second.
pub open spec fn assembly(lines: Seq<Seq<char>>) -> Result<Output, Failure> {
    match first_pass(lines, lines.len() as int) {
        Err(failure) => Err(failure),
        Ok(symbols) => second_pass(lines, symbols, lines.len() as int),
    }
}

/// A refusal among the first `m` lines is the refusal of every longer part.
pub proof fn lemma_first_pass_refusal_stays(lines: Seq<Seq<char>>, m: int, n: int)
    requires
        m <= n,
        first_pass(lines, m) is Err,
    ensures
        first_pass(lines, n) == first_pass(lines, m),
    decreases n - m,
{
    if m < n {
        lemma_first_pass_refusal_stays(lines, m, n - 1);
    }
}

/// A refusal among the first `m` lines is the refusal of every longer part.
pub proof fn lemma_second_pass_refusal_stays(
    lines: Seq<Seq<char>>,
    symbols: Symbols,
    m: int,
    n: int,
)
    requires
        m <= n,
        second_pass(lines, symbols, m) is Err,
    ensures
        second_pass(lines, symbols, n) == second_pass(lines, symbols, m),
    decreases n - m,
{
    if m < n {
        lemma_second_pass_refusal_stays(lines, symbols, m, n - 1);
    }
}

/// The error for the refusal of line `index`, for the reason `kind`.
fn refusal(lines: &Vec<String>, index: usize, kind: ErrorKind) -> (error: AssemblyError)
    requires
        index < lines.len(),
    ensures
        error.reports((Failure { kind, index: index as int }), lines.deep_view()),
{
    AssemblyError { kind, line: index + 1, text: lines[index].clone() }
}

/// The first pass: the symbol table with every label of the program in it.
pub fn resolve_labels(lines: &Vec<String>) -> (resolved: Result<SymbolTable, AssemblyError>)
    ensures
        match first_pass(lines.deep_view(), lines.len() as int) {
            Ok(symbols) => resolved matches Ok(table) && table@ == symbols,
            Err(failure) => resolved matches Err(error) && error.reports(
                failure,
                lines.deep_view(),
            ),
        },
{
    let ghost source = lines.deep_view();
    let mut table = SymbolTable::new();
    let mut program_counter: usize = 0;
    let mut i: usize = 0;
    while i < lines.len()
        invariant
            i <= lines.len(),
            source == lines.deep_view(),
            first_pass(source, i as int) == Ok::<Symbols, Failure>(table@),
            program_counter == instruction_count(source, i as int),
            program_counter <= i,
        decreases lines.len() - i,
    {
        let failed = match parse_line(lines[i].as_str()) {
            Err(kind) => Some(kind),
            Ok(Some(Instruction::Label(name))) => match table.bind_label(name.as_str(), program_counter) {
                Err(kind) => Some(kind),
                Ok(()) => None,
            },
            Ok(Some(_)) => {
                program_counter += 1;
                None
            },
            Ok(None) => None,
        };
        if let Some(kind) = failed {
            proof {
                lemma_first_pass_refusal_stays(source, i + 1, lines.len() as int);
            }
            return Err(refusal(lines, i, kind));
        }
        i += 1;
    }
    Ok(table)
}

/// The second pass: the words of the program, one for each instruction, and
/// the symbol table with the variables of the program added to `table`.
pub fn generate_code(lines: &Vec<String>, table: SymbolTable) -> (generated: Result<
    (Vec<String>, SymbolTable),
    AssemblyError,
>)
    ensures
        match second_pass(lines.deep_view(), table@, lines.len() as int) {
            Ok(output) => generated matches Ok((words, symbols)) && words.deep_view()
                == output.words && symbols@ == output.symbols,
            Err(failure) => generated matches Err(error) && error.reports(
                failure,
                lines.deep_view(),
            ),
        },
{
    let ghost source = lines.deep_view();
    let mut symbols = table;
    let mut words: Vec<String> = Vec::new();
    let mut i: usize = 0;
    assert(words.deep_view() =~= Seq::<Seq<char>>::empty());
    while i < lines.len()
        invariant
            i <= lines.len(),
            source == lines.deep_view(),
            second_pass(source, table@, i as int) == Ok::<Output, Failure>(
                Output { symbols: symbols@, words: words.deep_view() },
            ),
        decreases lines.len() - i,
    {
        let ghost written = words.deep_view();
        let emitted = match parse_line(lines[i].as_str()) {
            Err(kind) => Err(kind),
            Ok(Some(Instruction::Address(Operand::Literal(value)))) => Ok(
                Some(encode_address(value)),
            ),
            Ok(Some(Instruction::Address(Operand::Symbol(name)))) => match symbols.allocate_variable(
                name.as_str(),
            ) {
                Ok(address) => Ok(Some(encode_address(address))),
                Err(kind) => Err(kind),
            },
            Ok(Some(Instruction::Compute { dest, comp, jump })) => Ok(
                Some(encode_compute(dest, comp, jump)),
            ),
            Ok(_) => Ok(None),
        };
        match emitted {
            Err(kind) => {
                proof {
                    lemma_second_pass_refusal_stays(source, table@, i + 1, lines.len() as int);
                }
                return Err(refusal(lines, i, kind));
            },
            Ok(Some(word)) => {
                words.push(word);
                assert(words.deep_view() =~= written.push(word@));
            },
            Ok(None) => {},
        }
        i += 1;
    }
    Ok((words, symbols))
}

/// Assembles the program `lines`: one word of sixteen binary digits for each
/// instruction, in the order of the instructions. Every call begins with the
/// predefined symbols alone.
pub fn assemble(lines: &Vec<String>) -> (assembled: Result<Vec<String>, AssemblyError>)
    ensures
        match assembly(lines.deep_view()) {
            Ok(output) => assembled matches Ok(words) && words.deep_view() == output.words,
            Err(failure) => assembled matches Err(error) && error.reports(
                failure,
                lines.deep_view(),
            ),
        },
{
    match resolve_labels(lines) {
        Err(error) => Err(error),
        Ok(table) => match generate_code(lines, table) {
            Err(error) => Err(error),
            Ok((words, _)) => Ok(words),
        },
    }
}

/// The name of a source file without its extension: what stands before the
/// first `.`, or the whole name if it has none.
pub open spec fn stem(filename: Seq<char>) -> Seq<char> {
    filename.take(position(filename, '.'))
}

/// Where the words of the source file `filename` belong.
pub open spec fn output_path(filename: Seq<char>) -> Seq<char> {
    "hack-files/"@ + stem(filename) + ".hack"@
}

/// An assembler for one source file: the lines of the file, the symbols of
/// the program, and the place for its words.
pub struct HackAssembler {
    source: Vec<String>,
    symbol_table: SymbolTable,
    output_file: String,
    filename: String,
}

/// A [`HackAssembler`] as contracts see it.
pub struct HackAssemblerView {
    /// The lines of the program.
    pub source: Seq<Seq<char>>,
    /// The symbols: the predefined ones, and after a run those of the program.
    pub symbols: Symbols,
    /// Where the words belong.
    pub output_file: Seq<char>,
    /// The name of the source file without its extension.
    pub filename: Seq<char>,
}

impl View for HackAssembler {
    type V = HackAssemblerView;

    closed spec fn view(&self) -> HackAssemblerView {
        HackAssemblerView {
            source: self.source.deep_view(),
            symbols: self.symbol_table@,
            output_file: self.output_file@,
            filename: self.filename@,
        }
    }
}

impl HackAssembler {
    /// An assembler for the program `source`, read from the file `filename`.
    /// Its symbols are the predefined ones.
    pub fn new(filename: &str, source: Vec<String>) -> (assembler: HackAssembler)
        ensures
            assembler@ == (HackAssemblerView {
                source: source.deep_view(),
                symbols: Symbols::initial(),
                output_file: output_path(filename@),
                filename: stem(filename@),
            }),
    {
        let chars = chars_of(filename);
        assert(chars@.subrange(0, chars@.len() as int) =~= filename@);
        let dot: usize = find_char(&chars, 0, chars.len(), '.');
        let name = String::from_str(filename.substring_char(0, dot));
        let mut output_file = String::from_str("hack-files/");
        output_file.append(name.as_str());
        output_file.append(".hack");
        HackAssembler { source, symbol_table: SymbolTable::new(), output_file, filename: name }
    }

    /// Assembles the program: one word of sixteen binary digits for each
    /// instruction, in the order of the instructions. Every run begins with
    /// the predefined symbols alone and, if the program is accepted, leaves
    /// the symbols of the program behind. A program that is refused leaves
    /// the assembler as it was.
    pub fn execute(&mut self) -> (assembled: Result<Vec<String>, AssemblyError>)
        ensures
            match assembly(old(self)@.source) {
                Ok(output) => {
                    &&& assembled matches Ok(words) && words.deep_view() == output.words
                    &&& final(self)@ == (HackAssemblerView { symbols: output.symbols, ..old(self)@ })
                },
                Err(failure) => {
                    &&& assembled matches Err(error) && error.reports(failure, old(self)@.source)
                    &&& final(self)@ == old(self)@
                },
            },
    {
        match resolve_labels(&self.source) {
            Err(error) => Err(error),
            Ok(table) => match generate_code(&self.source, table) {
                Err(error) => Err(error),
                Ok((words, symbols)) => {
                    self.symbol_table = symbols;
                    Ok(words)
                },
            },
        }
    }

    /// The symbols of the assembler.
    pub fn symbol_table(&self) -> (table: &SymbolTable)
        ensures
            table@ == self@.symbols,
    {
        &self.symbol_table
    }

    /// Where the words belong.
    pub fn output_file(&self) -> (path: &str)
        ensures
            path@ == self@.output_file,
    {
        self.output_file.as_str()
    }

    /// The name of the source file without its extension.
    pub fn filename(&self) -> (name: &str)
        ensures
            name@ == self@.filename,
    {
        self.filename.as_str()
    }
}

} // verus!
