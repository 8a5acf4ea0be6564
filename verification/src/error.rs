//! Why a program is refused.

use vstd::prelude::*;

verus! {

/// The reasons for which a line is refused.
#[derive(Clone, Copy, Debug, PartialEq, Eq, Structural)]
pub enum ErrorKind {
    /// The line has not the shape of an instruction: a label without its
    /// closing parenthesis or without a name, an address instruction without
    /// an operand, or a name with a blank in it.
    MalformedInstruction,
    /// A destination, computation or jump is not in the instruction set.
    UnknownMnemonic,
    /// A label is declared at an address other than the one its name already
    /// has. Declaring a name again at the address it has is accepted and
    /// changes nothing.
    SymbolConflict,
    /// An address needs more than 15 bits: a literal above 32767, a label
    /// behind more than 32767 instructions, or a variable when the addresses
    /// up to 32767 are all given out.
    AddressOutOfRange,
}

/// A refusal as contracts see it: the reason and the index of the line,
/// counted from 0.
pub struct Failure {
    pub kind: ErrorKind,
    pub index: int,
}

/// A refusal, with what a reader needs to find the line.
#[derive(Debug, PartialEq, Eq)]
pub struct AssemblyError {
    /// Why the line is refused.
    pub kind: ErrorKind,
    /// The number of the line, counted from 1.
    pub line: usize,
    /// The line as it was given.
    pub text: String,
}

impl AssemblyError {
    /// Whether this error reports `failure` on the program `lines`.
    pub open spec fn reports(self, failure: Failure, lines: Seq<Seq<char>>) -> bool {
        &&& 0 <= failure.index < lines.len()
        &&& self.kind == failure.kind
        &&& self.line == failure.index + 1
        &&& self.text@ == lines[failure.index]
    }
}

} // verus!
