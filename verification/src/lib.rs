//! A two-pass assembler for the Hack machine language.
//!
//! A program is a sequence of lines. Each line holds a label declaration
//! `(NAME)`, an address instruction `@operand`, a compute instruction
//! `dest=comp;jump`, or nothing but blanks and a comment. The assembler turns
//! the program into one word of sixteen binary digits for each instruction:
//!
//! - [`text`] says what blanks, comments, decimal and binary numerals are;
//! - [`instruction`] holds the mnemonic tables and the words of the
//!   instructions;
//! - [`parser`] reads one line;
//! - [`symbol_table`] keeps the addresses of the names;
//! - [`assembler`] runs the two passes;
//! - [`error`] says why a program is refused;
//! - [`theorems`] states what holds of every program that is accepted.
//!
//! Every executable function is proved to compute the specification function
//! that its contract names, and to run without overflow and without panic.

pub mod assembler;
pub mod error;
pub mod instruction;
pub mod parser;
pub mod symbol_table;
pub mod text;
pub mod theorems;
