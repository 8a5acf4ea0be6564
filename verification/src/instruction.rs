//! The instruction set: the three mnemonic tables and the instructions built
//! from them.
//!
//! Each table is closed. A mnemonic that is not listed is not an instruction
//! of the machine, and the functions that read a mnemonic answer `None` for it.

use crate::text::{
    append_binary, binary, binary_value, chars_of, lemma_binary_leading_zero, lemma_binary_shape,
    lemma_binary_value,
};
use vstd::prelude::*;
use vstd::string::*;

verus! {

/// Largest address that an instruction can hold: addresses have 15 bits.
pub const MAX_ADDRESS: u16 = 32767;

/// Where a computation stores its result.
#[derive(Clone, Copy, Debug, PartialEq, Eq, Structural)]
pub enum Dest {
    /// The result is not stored.
    Null,
    /// The memory word.
    M,
    /// The D register.
    D,
    /// The D register and the memory word.
    DM,
    /// The A register.
    A,
    /// The A register and the memory word.
    AM,
    /// The A and D registers.
    AD,
    /// The A and D registers and the memory word.
    ADM,
}

/// The condition on a computation's result under which the machine jumps.
#[derive(Clone, Copy, Debug, PartialEq, Eq, Structural)]
pub enum Jump {
    /// Never.
    Null,
    /// If the result is positive.
    JGT,
    /// If the result is zero.
    JEQ,
    /// If the result is not negative.
    JGE,
    /// If the result is negative.
    JLT,
    /// If the result is not zero.
    JNE,
    /// If the result is not positive.
    JLE,
    /// Always.
    JMP,
}

/// What the arithmetic unit computes.
#[derive(Clone, Copy, Debug, PartialEq, Eq, Structural)]
pub enum Comp {
    /// `0`: the constant 0.
    Zero,
    /// `1`: the constant 1.
    One,
    /// `-1`: the constant -1.
    MinusOne,
    /// `D`: the D register.
    D,
    /// `A`: the A register.
    A,
    /// `M`: the memory word.
    M,
    /// `!D`: bitwise complement of D.
    NotD,
    /// `!A`: bitwise complement of A.
    NotA,
    /// `!M`: bitwise complement of M.
    NotM,
    /// `-D`: D negated.
    NegD,
    /// `-A`: A negated.
    NegA,
    /// `-M`: M negated.
    NegM,
    /// `D+1`: D plus one.
    DPlusOne,
    /// `A+1`: A plus one.
    APlusOne,
    /// `M+1`: M plus one.
    MPlusOne,
    /// `D-1`: D minus one.
    DMinusOne,
    /// `A-1`: A minus one.
    AMinusOne,
    /// `M-1`: M minus one.
    MMinusOne,
    /// `D+A`: D plus A.
    DPlusA,
    /// `D+M`: D plus M.
    DPlusM,
    /// `D-A`: D minus A.
    DMinusA,
    /// `D-M`: D minus M.
    DMinusM,
    /// `A-D`: A minus D.
    AMinusD,
    /// `M-D`: M minus D.
    MMinusD,
    /// `D&A`: bitwise and of D and A.
    DAndA,
    /// `D&M`: bitwise and of D and M.
    DAndM,
    /// `D|A`: bitwise or of D and A.
    DOrA,
    /// `D|M`: bitwise or of D and M.
    DOrM,
}

/// The destination that the mnemonic `token` names, if it names one.
pub open spec fn dest_of(token: Seq<char>) -> Option<Dest> {
    if token == "M"@ {
        Some(Dest::M)
    } else if token == "D"@ {
        Some(Dest::D)
    } else if token == "DM"@ {
        Some(Dest::DM)
    } else if token == "A"@ {
        Some(Dest::A)
    } else if token == "AM"@ {
        Some(Dest::AM)
    } else if token == "AD"@ {
        Some(Dest::AD)
    } else if token == "ADM"@ {
        Some(Dest::ADM)
    } else {
        None
    }
}

/// The jump condition that the mnemonic `token` names, if it names one.
pub open spec fn jump_of(token: Seq<char>) -> Option<Jump> {
    if token == "JGT"@ {
        Some(Jump::JGT)
    } else if token == "JEQ"@ {
        Some(Jump::JEQ)
    } else if token == "JGE"@ {
        Some(Jump::JGE)
    } else if token == "JLT"@ {
        Some(Jump::JLT)
    } else if token == "JNE"@ {
        Some(Jump::JNE)
    } else if token == "JLE"@ {
        Some(Jump::JLE)
    } else if token == "JMP"@ {
        Some(Jump::JMP)
    } else {
        None
    }
}

/// The computation that the mnemonic `token` names, if it names one.
pub open spec fn comp_of(token: Seq<char>) -> Option<Comp> {
    if token == "0"@ {
        Some(Comp::Zero)
    } else if token == "1"@ {
        Some(Comp::One)
    } else if token == "-1"@ {
        Some(Comp::MinusOne)
    } else if token == "D"@ {
        Some(Comp::D)
    } else if token == "A"@ {
        Some(Comp::A)
    } else if token == "M"@ {
        Some(Comp::M)
    } else if token == "!D"@ {
        Some(Comp::NotD)
    } else if token == "!A"@ {
        Some(Comp::NotA)
    } else if token == "!M"@ {
        Some(Comp::NotM)
    } else if token == "-D"@ {
        Some(Comp::NegD)
    } else if token == "-A"@ {
        Some(Comp::NegA)
    } else if token == "-M"@ {
        Some(Comp::NegM)
    } else if token == "D+1"@ {
        Some(Comp::DPlusOne)
    } else if token == "A+1"@ {
        Some(Comp::APlusOne)
    } else if token == "M+1"@ {
        Some(Comp::MPlusOne)
    } else if token == "D-1"@ {
        Some(Comp::DMinusOne)
    } else if token == "A-1"@ {
        Some(Comp::AMinusOne)
    } else if token == "M-1"@ {
        Some(Comp::MMinusOne)
    } else if token == "D+A"@ {
        Some(Comp::DPlusA)
    } else if token == "D+M"@ {
        Some(Comp::DPlusM)
    } else if token == "D-A"@ {
        Some(Comp::DMinusA)
    } else if token == "D-M"@ {
        Some(Comp::DMinusM)
    } else if token == "A-D"@ {
        Some(Comp::AMinusD)
    } else if token == "M-D"@ {
        Some(Comp::MMinusD)
    } else if token == "D&A"@ {
        Some(Comp::DAndA)
    } else if token == "D&M"@ {
        Some(Comp::DAndM)
    } else if token == "D|A"@ {
        Some(Comp::DOrA)
    } else if token == "D|M"@ {
        Some(Comp::DOrM)
    } else {
        None
    }
}

/// Whether the window `lo..hi` of `chars` spells `word`.
pub(crate) fn spells(chars: &Vec<char>, lo: usize, hi: usize, word: &str) -> (b: bool)
    requires
        lo <= hi <= chars.len(),
    ensures
        b == (chars@.subrange(lo as int, hi as int) == word@),
{
    let ghost window = chars@.subrange(lo as int, hi as int);
    let n: usize = word.unicode_len();
    if hi - lo != n {
        return false;
    }
    let mut i: usize = 0;
    while i < n
        invariant
            i <= n == word@.len(),
            n == hi - lo,
            hi <= chars.len(),
            window == chars@.subrange(lo as int, hi as int),
            forall|j: int| 0 <= j < i ==> window[j] == word@[j],
        decreases n - i,
    {
        if chars[lo + i] != word.get_char(i) {
            return false;
        }
        i += 1;
    }
    assert(window =~= word@);
    true
}

impl Dest {
    /// The 3 bits that stand for this destination in an instruction, as a number.
    pub open spec fn code(self) -> u16 {
        match self {
            Dest::Null => 0b000,
            Dest::M => 0b001,
            Dest::D => 0b010,
            Dest::DM => 0b011,
            Dest::A => 0b100,
            Dest::AM => 0b101,
            Dest::AD => 0b110,
            Dest::ADM => 0b111,
        }
    }

    /// The 3 bits that stand for this destination in an instruction, as text.
    pub open spec fn bits(self) -> Seq<char> {
        binary(self.code() as nat, 3)
    }

    /// Reads the mnemonic in the window `lo..hi` of `chars`.
    pub(crate) fn read(chars: &Vec<char>, lo: usize, hi: usize) -> (found: Option<Dest>)
        requires
            lo <= hi <= chars.len(),
        ensures
            found == dest_of(chars@.subrange(lo as int, hi as int)),
    {
        if spells(chars, lo, hi, "M") {
            Some(Dest::M)
        } else if spells(chars, lo, hi, "D") {
            Some(Dest::D)
        } else if spells(chars, lo, hi, "DM") {
            Some(Dest::DM)
        } else if spells(chars, lo, hi, "A") {
            Some(Dest::A)
        } else if spells(chars, lo, hi, "AM") {
            Some(Dest::AM)
        } else if spells(chars, lo, hi, "AD") {
            Some(Dest::AD)
        } else if spells(chars, lo, hi, "ADM") {
            Some(Dest::ADM)
        } else {
            None
        }
    }

    /// Reads the mnemonic `token`.
    pub fn from_mnemonic(token: &str) -> (found: Option<Dest>)
        ensures
            found == dest_of(token@),
    {
        let chars = chars_of(token);
        assert(chars@.subrange(0, chars@.len() as int) =~= token@);
        Dest::read(&chars, 0, chars.len())
    }

    /// Executable form of [`Dest::code`].
    pub fn to_code(self) -> (code: u16)
        ensures
            code == self.code(),
            code < 8,
    {
        match self {
            Dest::Null => 0b000,
            Dest::M => 0b001,
            Dest::D => 0b010,
            Dest::DM => 0b011,
            Dest::A => 0b100,
            Dest::AM => 0b101,
            Dest::AD => 0b110,
            Dest::ADM => 0b111,
        }
    }
}

impl Jump {
    /// The 3 bits that stand for this jump condition in an instruction, as a number.
    pub open spec fn code(self) -> u16 {
        match self {
            Jump::Null => 0b000,
            Jump::JGT => 0b001,
            Jump::JEQ => 0b010,
            Jump::JGE => 0b011,
            Jump::JLT => 0b100,
            Jump::JNE => 0b101,
            Jump::JLE => 0b110,
            Jump::JMP => 0b111,
        }
    }

    /// The 3 bits that stand for this jump condition in an instruction, as text.
    pub open spec fn bits(self) -> Seq<char> {
        binary(self.code() as nat, 3)
    }

    /// Reads the mnemonic in the window `lo..hi` of `chars`.
    pub(crate) fn read(chars: &Vec<char>, lo: usize, hi: usize) -> (found: Option<Jump>)
        requires
            lo <= hi <= chars.len(),
        ensures
            found == jump_of(chars@.subrange(lo as int, hi as int)),
    {
        if spells(chars, lo, hi, "JGT") {
            Some(Jump::JGT)
        } else if spells(chars, lo, hi, "JEQ") {
            Some(Jump::JEQ)
        } else if spells(chars, lo, hi, "JGE") {
            Some(Jump::JGE)
        } else if spells(chars, lo, hi, "JLT") {
            Some(Jump::JLT)
        } else if spells(chars, lo, hi, "JNE") {
            Some(Jump::JNE)
        } else if spells(chars, lo, hi, "JLE") {
            Some(Jump::JLE)
        } else if spells(chars, lo, hi, "JMP") {
            Some(Jump::JMP)
        } else {
            None
        }
    }

    /// Reads the mnemonic `token`.
    pub fn from_mnemonic(token: &str) -> (found: Option<Jump>)
        ensures
            found == jump_of(token@),
    {
        let chars = chars_of(token);
        assert(chars@.subrange(0, chars@.len() as int) =~= token@);
        Jump::read(&chars, 0, chars.len())
    }

    /// Executable form of [`Jump::code`].
    pub fn to_code(self) -> (code: u16)
        ensures
            code == self.code(),
            code < 8,
    {
        match self {
            Jump::Null => 0b000,
            Jump::JGT => 0b001,
            Jump::JEQ => 0b010,
            Jump::JGE => 0b011,
            Jump::JLT => 0b100,
            Jump::JNE => 0b101,
            Jump::JLE => 0b110,
            Jump::JMP => 0b111,
        }
    }
}

impl Comp {
    /// The 7 bits that stand for this computation in an instruction, as a number.
    pub open spec fn code(self) -> u16 {
        match self {
            Comp::Zero => 0b0101010,
            Comp::One => 0b0111111,
            Comp::MinusOne => 0b0111010,
            Comp::D => 0b0001100,
            Comp::A => 0b0110000,
            Comp::M => 0b1110000,
            Comp::NotD => 0b0001101,
            Comp::NotA => 0b0110001,
            Comp::NotM => 0b1110001,
            Comp::NegD => 0b0001111,
            Comp::NegA => 0b0110011,
            Comp::NegM => 0b1110011,
            Comp::DPlusOne => 0b0011111,
            Comp::APlusOne => 0b0110111,
            Comp::MPlusOne => 0b1110111,
            Comp::DMinusOne => 0b0001110,
            Comp::AMinusOne => 0b0110010,
            Comp::MMinusOne => 0b1110010,
            Comp::DPlusA => 0b0000010,
            Comp::DPlusM => 0b1000010,
            Comp::DMinusA => 0b0010011,
            Comp::DMinusM => 0b1010011,
            Comp::AMinusD => 0b0000111,
            Comp::MMinusD => 0b1000111,
            Comp::DAndA => 0b0000000,
            Comp::DAndM => 0b1000000,
            Comp::DOrA => 0b0010101,
            Comp::DOrM => 0b1010101,
        }
    }

    /// The 7 bits that stand for this computation in an instruction, as text.
    pub open spec fn bits(self) -> Seq<char> {
        binary(self.code() as nat, 7)
    }

    /// Reads the mnemonic in the window `lo..hi` of `chars`.
    pub(crate) fn read(chars: &Vec<char>, lo: usize, hi: usize) -> (found: Option<Comp>)
        requires
            lo <= hi <= chars.len(),
        ensures
            found == comp_of(chars@.subrange(lo as int, hi as int)),
    {
        if spells(chars, lo, hi, "0") {
            Some(Comp::Zero)
        } else if spells(chars, lo, hi, "1") {
            Some(Comp::One)
        } else if spells(chars, lo, hi, "-1") {
            Some(Comp::MinusOne)
        } else if spells(chars, lo, hi, "D") {
            Some(Comp::D)
        } else if spells(chars, lo, hi, "A") {
            Some(Comp::A)
        } else if spells(chars, lo, hi, "M") {
            Some(Comp::M)
        } else if spells(chars, lo, hi, "!D") {
            Some(Comp::NotD)
        } else if spells(chars, lo, hi, "!A") {
            Some(Comp::NotA)
        } else if spells(chars, lo, hi, "!M") {
            Some(Comp::NotM)
        } else if spells(chars, lo, hi, "-D") {
            Some(Comp::NegD)
        } else if spells(chars, lo, hi, "-A") {
            Some(Comp::NegA)
        } else if spells(chars, lo, hi, "-M") {
            Some(Comp::NegM)
        } else if spells(chars, lo, hi, "D+1") {
            Some(Comp::DPlusOne)
        } else if spells(chars, lo, hi, "A+1") {
            Some(Comp::APlusOne)
        } else if spells(chars, lo, hi, "M+1") {
            Some(Comp::MPlusOne)
        } else if spells(chars, lo, hi, "D-1") {
            Some(Comp::DMinusOne)
        } else if spells(chars, lo, hi, "A-1") {
            Some(Comp::AMinusOne)
        } else if spells(chars, lo, hi, "M-1") {
            Some(Comp::MMinusOne)
        } else if spells(chars, lo, hi, "D+A") {
            Some(Comp::DPlusA)
        } else if spells(chars, lo, hi, "D+M") {
            Some(Comp::DPlusM)
        } else if spells(chars, lo, hi, "D-A") {
            Some(Comp::DMinusA)
        } else if spells(chars, lo, hi, "D-M") {
            Some(Comp::DMinusM)
        } else if spells(chars, lo, hi, "A-D") {
            Some(Comp::AMinusD)
        } else if spells(chars, lo, hi, "M-D") {
            Some(Comp::MMinusD)
        } else if spells(chars, lo, hi, "D&A") {
            Some(Comp::DAndA)
        } else if spells(chars, lo, hi, "D&M") {
            Some(Comp::DAndM)
        } else if spells(chars, lo, hi, "D|A") {
            Some(Comp::DOrA)
        } else if spells(chars, lo, hi, "D|M") {
            Some(Comp::DOrM)
        } else {
            None
        }
    }

    /// Reads the mnemonic `token`.
    pub fn from_mnemonic(token: &str) -> (found: Option<Comp>)
        ensures
            found == comp_of(token@),
    {
        let chars = chars_of(token);
        assert(chars@.subrange(0, chars@.len() as int) =~= token@);
        Comp::read(&chars, 0, chars.len())
    }

    /// Executable form of [`Comp::code`].
    pub fn to_code(self) -> (code: u16)
        ensures
            code == self.code(),
            code < 128,
    {
        match self {
            Comp::Zero => 0b0101010,
            Comp::One => 0b0111111,
            Comp::MinusOne => 0b0111010,
            Comp::D => 0b0001100,
            Comp::A => 0b0110000,
            Comp::M => 0b1110000,
            Comp::NotD => 0b0001101,
            Comp::NotA => 0b0110001,
            Comp::NotM => 0b1110001,
            Comp::NegD => 0b0001111,
            Comp::NegA => 0b0110011,
            Comp::NegM => 0b1110011,
            Comp::DPlusOne => 0b0011111,
            Comp::APlusOne => 0b0110111,
            Comp::MPlusOne => 0b1110111,
            Comp::DMinusOne => 0b0001110,
            Comp::AMinusOne => 0b0110010,
            Comp::MMinusOne => 0b1110010,
            Comp::DPlusA => 0b0000010,
            Comp::DPlusM => 0b1000010,
            Comp::DMinusA => 0b0010011,
            Comp::DMinusM => 0b1010011,
            Comp::AMinusD => 0b0000111,
            Comp::MMinusD => 0b1000111,
            Comp::DAndA => 0b0000000,
            Comp::DAndM => 0b1000000,
            Comp::DOrA => 0b0010101,
            Comp::DOrM => 0b1010101,
        }
    }
}

/// What an address instruction loads into the A register.
#[derive(Debug, PartialEq, Eq)]
pub enum Operand {
    /// A constant, at most [`MAX_ADDRESS`].
    Literal(u16),
    /// A symbol, which stands for the address that the symbol table gives it.
    Symbol(String),
}

/// One line of a program, once it is read.
#[derive(Debug, PartialEq, Eq)]
pub enum Instruction {
    /// `(NAME)`: names the address of the next instruction. It takes no room
    /// in the program.
    Label(String),
    /// `@operand`: loads a constant or the address of a symbol.
    Address(Operand),
    /// `dest=comp;jump`: computes, and may store the result and jump.
    Compute { dest: Dest, comp: Comp, jump: Jump },
}

/// An [`Operand`] as contracts see it: the symbol by its characters.
pub enum OperandView {
    Literal(u16),
    Symbol(Seq<char>),
}

/// An [`Instruction`] as contracts see it: the names by their characters.
pub enum InstructionView {
    Label(Seq<char>),
    Address(OperandView),
    Compute { dest: Dest, comp: Comp, jump: Jump },
}

impl View for Operand {
    type V = OperandView;

    open spec fn view(&self) -> OperandView {
        match self {
            Operand::Literal(value) => OperandView::Literal(*value),
            Operand::Symbol(name) => OperandView::Symbol(name@),
        }
    }
}

impl View for Instruction {
    type V = InstructionView;

    open spec fn view(&self) -> InstructionView {
        match self {
            Instruction::Label(name) => InstructionView::Label(name@),
            Instruction::Address(operand) => InstructionView::Address(operand@),
            Instruction::Compute { dest, comp, jump } => InstructionView::Compute {
                dest: *dest,
                comp: *comp,
                jump: *jump,
            },
        }
    }
}

impl InstructionView {
    /// Whether the instruction takes a place in the program: every one does
    /// but a label.
    pub open spec fn is_executable(self) -> bool {
        !(self is Label)
    }
}

/// The word of an address instruction that loads `address`: its 16 binary
/// digits. For an address of 15 bits the first digit is `0`.
pub open spec fn address_word(address: u16) -> Seq<char> {
    binary(address as nat, 16)
}

/// The word of a compute instruction: `111`, then the 7 bits of the
/// computation, the 3 of the destination and the 3 of the jump.
pub open spec fn compute_word(dest: Dest, comp: Comp, jump: Jump) -> Seq<char> {
    "111"@ + comp.bits() + dest.bits() + jump.bits()
}

/// Executable form of [`address_word`].
pub fn encode_address(address: u16) -> (word: String)
    ensures
        word@ == address_word(address),
{
    let mut word = String::new();
    append_binary(&mut word, address, 16);
    word
}

/// Executable form of [`compute_word`].
pub fn encode_compute(dest: Dest, comp: Comp, jump: Jump) -> (word: String)
    ensures
        word@ == compute_word(dest, comp, jump),
{
    let mut word = String::from_str("111");
    append_binary(&mut word, comp.to_code(), 7);
    append_binary(&mut word, dest.to_code(), 3);
    append_binary(&mut word, jump.to_code(), 3);
    word
}

/// The four fields of the word of a compute instruction: three ones, seven
/// bits of computation, three of destination and three of jump.
pub proof fn lemma_compute_word_fields(dest: Dest, comp: Comp, jump: Jump)
    ensures
        compute_word(dest, comp, jump).len() == 16,
        compute_word(dest, comp, jump).subrange(0, 3) == "111"@,
        compute_word(dest, comp, jump).subrange(3, 10) == comp.bits(),
        compute_word(dest, comp, jump).subrange(10, 13) == dest.bits(),
        compute_word(dest, comp, jump).subrange(13, 16) == jump.bits(),
{
    reveal_strlit("111");
    lemma_binary_shape(comp.code() as nat, 7);
    lemma_binary_shape(dest.code() as nat, 3);
    lemma_binary_shape(jump.code() as nat, 3);
}

/// A destination that is absent and a jump that is absent are each written
/// as `000`.
pub proof fn lemma_absent_fields(comp: Comp)
    ensures
        Dest::Null.bits() == "000"@,
        Jump::Null.bits() == "000"@,
        compute_word(Dest::Null, comp, Jump::Null) == "111"@ + comp.bits() + "000"@ + "000"@,
{
    reveal_strlit("000");
    reveal_with_fuel(binary, 4);
}

/// The word of an address denotes the address.
pub proof fn lemma_address_word_value(address: u16)
    ensures
        binary_value(address_word(address)) == address,
{
    vstd::arithmetic::power2::lemma2_to64();
    lemma_binary_value(address as nat, 16);
}

/// Every word has sixteen binary digits. The word of an address of 15 bits
/// begins with `0`, the word of a compute instruction with `111`.
pub proof fn lemma_word_shape(address: u16, dest: Dest, comp: Comp, jump: Jump)
    ensures
        address_word(address).len() == 16,
        compute_word(dest, comp, jump).len() == 16,
        forall|i: int|
            0 <= i < 16 ==> #[trigger] address_word(address)[i] == '0' || address_word(
                address,
            )[i] == '1',
        forall|i: int|
            0 <= i < 16 ==> #[trigger] compute_word(dest, comp, jump)[i] == '0' || compute_word(
                dest,
                comp,
                jump,
            )[i] == '1',
        address <= MAX_ADDRESS ==> address_word(address)[0] == '0',
        compute_word(dest, comp, jump).subrange(0, 3) == "111"@,
{
    lemma_binary_shape(address as nat, 16);
    lemma_binary_shape(comp.code() as nat, 7);
    lemma_binary_shape(dest.code() as nat, 3);
    lemma_binary_shape(jump.code() as nat, 3);
    reveal_strlit("111");
    if address <= MAX_ADDRESS {
        vstd::arithmetic::power2::lemma2_to64();
        lemma_binary_leading_zero(address as nat, 16);
    }
}

} // verus!
