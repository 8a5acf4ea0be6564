//! The symbol table: the names of a program and the addresses they stand for.
//!
//! A table starts with the names that the machine defines. A program adds
//! labels, at the addresses where they are declared, and variables, at
//! addresses given out one by one from [`FIRST_VARIABLE`] upwards. A name that
//! has an address keeps it: no operation changes or removes an entry.

use crate::error::ErrorKind;
use crate::instruction::MAX_ADDRESS;
use vstd::hash_map::StringHashMap;
use vstd::prelude::*;
use vstd::string::*;

verus! {

/// The address that the first variable of a program gets.
pub const FIRST_VARIABLE: u16 = 16;

/// The names that the machine defines, with their addresses.
pub open spec fn predefined() -> Map<Seq<char>, u16> {
    map![
        "SP"@ => 0u16,
        "LCL"@ => 1u16,
        "ARG"@ => 2u16,
        "THIS"@ => 3u16,
        "THAT"@ => 4u16,
        "R0"@ => 0u16,
        "R1"@ => 1u16,
        "R2"@ => 2u16,
        "R3"@ => 3u16,
        "R4"@ => 4u16,
        "R5"@ => 5u16,
        "R6"@ => 6u16,
        "R7"@ => 7u16,
        "R8"@ => 8u16,
        "R9"@ => 9u16,
        "R10"@ => 10u16,
        "R11"@ => 11u16,
        "R12"@ => 12u16,
        "R13"@ => 13u16,
        "R14"@ => 14u16,
        "R15"@ => 15u16,
        "SCREEN"@ => 16384u16,
        "KBD"@ => 24576u16,
    ]
}

/// Whether `larger` gives every name of `smaller` the address that `smaller`
/// gives it.
pub open spec fn includes(larger: Map<Seq<char>, u16>, smaller: Map<Seq<char>, u16>) -> bool {
    forall|name: Seq<char>| #[trigger]
        smaller.contains_key(name) ==> larger.contains_key(name) && larger[name] == smaller[name]
}

/// A symbol table as contracts see it.
pub struct Symbols {
    /// The address of each name that has one.
    pub entries: Map<Seq<char>, u16>,
    /// The address that the next new variable gets.
    pub next_variable: int,
}

impl Symbols {
    /// The table before any program is read: the predefined names alone.
    pub open spec fn initial() -> Symbols {
        Symbols { entries: predefined(), next_variable: FIRST_VARIABLE as int }
    }

    /// What holds of every table: it has finitely many names, each address
    /// has 15 bits, the predefined names have their addresses, and variables
    /// are given out from [`FIRST_VARIABLE`] upwards.
    pub open spec fn wf(self) -> bool {
        &&& self.entries.dom().finite()
        &&& FIRST_VARIABLE <= self.next_variable <= MAX_ADDRESS + 1
        &&& forall|name: Seq<char>| #[trigger]
            self.entries.contains_key(name) ==> self.entries[name] <= MAX_ADDRESS
        &&& includes(self.entries, predefined())
    }

    /// Whether this table holds everything that `earlier` held, unchanged, and
    /// has given out at least as many variables.
    pub open spec fn extends(self, earlier: Symbols) -> bool {
        &&& includes(self.entries, earlier.entries)
        &&& earlier.next_variable <= self.next_variable
    }

    /// The address of `name`, if it has one.
    pub open spec fn lookup(self, name: Seq<char>) -> Option<u16> {
        if self.entries.contains_key(name) {
            Some(self.entries[name])
        } else {
            None
        }
    }

    /// The table after the label `name` is declared at `address`. A name that
    /// is new gets the address, which must have 15 bits. A name that has this
    /// very address already changes nothing. A name that has another address
    /// is refused.
    pub open spec fn bind_label(self, name: Seq<char>, address: int) -> Result<Symbols, ErrorKind> {
        if self.entries.contains_key(name) {
            if self.entries[name] == address {
                Ok(self)
            } else {
                Err(ErrorKind::SymbolConflict)
            }
        } else if 0 <= address <= MAX_ADDRESS {
            Ok(Symbols { entries: self.entries.insert(name, address as u16), ..self })
        } else {
            Err(ErrorKind::AddressOutOfRange)
        }
    }

    /// The table after `name` is used as a variable, and the address it
    /// stands for. A name that has an address keeps it. A new name gets the
    /// next variable address, if one is left.
    pub open spec fn allocate_variable(self, name: Seq<char>) -> Result<(Symbols, u16), ErrorKind> {
        if self.entries.contains_key(name) {
            Ok((self, self.entries[name]))
        } else if self.next_variable <= MAX_ADDRESS {
            Ok(
                (
                    Symbols {
                        entries: self.entries.insert(name, self.next_variable as u16),
                        next_variable: self.next_variable + 1,
                    },
                    self.next_variable as u16,
                ),
            )
        } else {
            Err(ErrorKind::AddressOutOfRange)
        }
    }
}

/// The names of a program and their addresses.
pub struct SymbolTable {
    entries: StringHashMap<u16>,
    next_variable: u16,
}

impl View for SymbolTable {
    type V = Symbols;

    closed spec fn view(&self) -> Symbols {
        Symbols { entries: self.entries@, next_variable: self.next_variable as int }
    }
}

impl SymbolTable {
    /// A table with the predefined names alone.
    pub fn new() -> (table: SymbolTable)
        ensures
            table@ == Symbols::initial(),
            table@.wf(),
    {
        let mut entries: StringHashMap<u16> = StringHashMap::new();
        entries.insert(String::from_str("SP"), 0);
        entries.insert(String::from_str("LCL"), 1);
        entries.insert(String::from_str("ARG"), 2);
        entries.insert(String::from_str("THIS"), 3);
        entries.insert(String::from_str("THAT"), 4);
        entries.insert(String::from_str("R0"), 0);
        entries.insert(String::from_str("R1"), 1);
        entries.insert(String::from_str("R2"), 2);
        entries.insert(String::from_str("R3"), 3);
        entries.insert(String::from_str("R4"), 4);
        entries.insert(String::from_str("R5"), 5);
        entries.insert(String::from_str("R6"), 6);
        entries.insert(String::from_str("R7"), 7);
        entries.insert(String::from_str("R8"), 8);
        entries.insert(String::from_str("R9"), 9);
        entries.insert(String::from_str("R10"), 10);
        entries.insert(String::from_str("R11"), 11);
        entries.insert(String::from_str("R12"), 12);
        entries.insert(String::from_str("R13"), 13);
        entries.insert(String::from_str("R14"), 14);
        entries.insert(String::from_str("R15"), 15);
        entries.insert(String::from_str("SCREEN"), 16384);
        entries.insert(String::from_str("KBD"), 24576);
        SymbolTable { entries, next_variable: FIRST_VARIABLE }
    }

    /// The address of `name`, if it has one.
    pub fn lookup(&self, name: &str) -> (address: Option<u16>)
        ensures
            address == self@.lookup(name@),
    {
        match self.entries.get(name) {
            Some(address) => Some(*address),
            None => None,
        }
    }

    /// Whether `name` has an address.
    pub fn contains(&self, name: &str) -> (b: bool)
        ensures
            b == self@.entries.contains_key(name@),
    {
        self.entries.contains_key(name)
    }

    /// The number of names that have an address.
    pub fn len(&self) -> (count: usize)
        ensures
            count == self@.entries.len(),
    {
        self.entries.len()
    }

    /// Declares the label `name` at `address`.
    pub fn bind_label(&mut self, name: &str, address: usize) -> (done: Result<(), ErrorKind>)
        ensures
            match old(self)@.bind_label(name@, address as int) {
                Ok(symbols) => done is Ok && final(self)@ == symbols,
                Err(kind) => done == Err::<(), ErrorKind>(kind) && final(self)@ == old(self)@,
            },
            old(self)@.wf() ==> final(self)@.wf(),
    {
        match self.entries.get(name) {
            Some(bound) => {
                if *bound as usize == address {
                    Ok(())
                } else {
                    Err(ErrorKind::SymbolConflict)
                }
            },
            None => {
                if address <= MAX_ADDRESS as usize {
                    self.entries.insert(String::from_str(name), address as u16);
                    Ok(())
                } else {
                    Err(ErrorKind::AddressOutOfRange)
                }
            },
        }
    }

    /// The address that `name` stands for as the operand of an address
    /// instruction. A name without an address becomes a variable.
    pub fn allocate_variable(&mut self, name: &str) -> (address: Result<u16, ErrorKind>)
        ensures
            match old(self)@.allocate_variable(name@) {
                Ok((symbols, expected)) => {
                    &&& address == Ok::<u16, ErrorKind>(expected)
                    &&& final(self)@ == symbols
                },
                Err(kind) => address == Err::<u16, ErrorKind>(kind) && final(self)@ == old(self)@,
            },
            old(self)@.wf() ==> final(self)@.wf(),
    {
        match self.entries.get(name) {
            Some(bound) => Ok(*bound),
            None => {
                let address: u16 = self.next_variable;
                if address <= MAX_ADDRESS {
                    self.entries.insert(String::from_str(name), address);
                    self.next_variable = address + 1;
                    Ok(address)
                } else {
                    Err(ErrorKind::AddressOutOfRange)
                }
            },
        }
    }
}

/// Before any program is read each name that the machine defines has its
/// address: `SP`, `LCL`, `ARG`, `THIS` and `THAT` the addresses 0 to 4, `R0`
/// to `R15` the addresses 0 to 15, `SCREEN` 16384 and `KBD` 24576. No other
/// name has one, and the table is well formed.
pub proof fn lemma_predefined_addresses()
    ensures
        Symbols::initial().lookup("SP"@) == Some(0u16),
        Symbols::initial().lookup("LCL"@) == Some(1u16),
        Symbols::initial().lookup("ARG"@) == Some(2u16),
        Symbols::initial().lookup("THIS"@) == Some(3u16),
        Symbols::initial().lookup("THAT"@) == Some(4u16),
        Symbols::initial().lookup("R0"@) == Some(0u16),
        Symbols::initial().lookup("R1"@) == Some(1u16),
        Symbols::initial().lookup("R2"@) == Some(2u16),
        Symbols::initial().lookup("R3"@) == Some(3u16),
        Symbols::initial().lookup("R4"@) == Some(4u16),
        Symbols::initial().lookup("R5"@) == Some(5u16),
        Symbols::initial().lookup("R6"@) == Some(6u16),
        Symbols::initial().lookup("R7"@) == Some(7u16),
        Symbols::initial().lookup("R8"@) == Some(8u16),
        Symbols::initial().lookup("R9"@) == Some(9u16),
        Symbols::initial().lookup("R10"@) == Some(10u16),
        Symbols::initial().lookup("R11"@) == Some(11u16),
        Symbols::initial().lookup("R12"@) == Some(12u16),
        Symbols::initial().lookup("R13"@) == Some(13u16),
        Symbols::initial().lookup("R14"@) == Some(14u16),
        Symbols::initial().lookup("R15"@) == Some(15u16),
        Symbols::initial().lookup("SCREEN"@) == Some(16384u16),
        Symbols::initial().lookup("KBD"@) == Some(24576u16),
        predefined().dom().finite(),
        predefined().dom().len() == 23,
        Symbols::initial().wf(),
{
    reveal_strlit("SP");
    assert("SP"@ =~= seq!['S', 'P']);
    reveal_strlit("LCL");
    assert("LCL"@ =~= seq!['L', 'C', 'L']);
    reveal_strlit("ARG");
    assert("ARG"@ =~= seq!['A', 'R', 'G']);
    reveal_strlit("THIS");
    assert("THIS"@ =~= seq!['T', 'H', 'I', 'S']);
    reveal_strlit("THAT");
    assert("THAT"@ =~= seq!['T', 'H', 'A', 'T']);
    reveal_strlit("R0");
    assert("R0"@ =~= seq!['R', '0']);
    reveal_strlit("R1");
    assert("R1"@ =~= seq!['R', '1']);
    reveal_strlit("R2");
    assert("R2"@ =~= seq!['R', '2']);
    reveal_strlit("R3");
    assert("R3"@ =~= seq!['R', '3']);
    reveal_strlit("R4");
    assert("R4"@ =~= seq!['R', '4']);
    reveal_strlit("R5");
    assert("R5"@ =~= seq!['R', '5']);
    reveal_strlit("R6");
    assert("R6"@ =~= seq!['R', '6']);
    reveal_strlit("R7");
    assert("R7"@ =~= seq!['R', '7']);
    reveal_strlit("R8");
    assert("R8"@ =~= seq!['R', '8']);
    reveal_strlit("R9");
    assert("R9"@ =~= seq!['R', '9']);
    reveal_strlit("R10");
    assert("R10"@ =~= seq!['R', '1', '0']);
    reveal_strlit("R11");
    assert("R11"@ =~= seq!['R', '1', '1']);
    reveal_strlit("R12");
    assert("R12"@ =~= seq!['R', '1', '2']);
    reveal_strlit("R13");
    assert("R13"@ =~= seq!['R', '1', '3']);
    reveal_strlit("R14");
    assert("R14"@ =~= seq!['R', '1', '4']);
    reveal_strlit("R15");
    assert("R15"@ =~= seq!['R', '1', '5']);
    reveal_strlit("SCREEN");
    assert("SCREEN"@ =~= seq!['S', 'C', 'R', 'E', 'E', 'N']);
    reveal_strlit("KBD");
    assert("KBD"@ =~= seq!['K', 'B', 'D']);
}

/// Declaring a label and using a variable only add to a table: every name
/// keeps its address, the addresses keep their 15 bits, and the new entry is
/// the one that was asked for.
pub proof fn lemma_table_grows(symbols: Symbols, name: Seq<char>, address: int)
    requires
        symbols.wf(),
    ensures
        symbols.bind_label(name, address) matches Ok(bound) ==> {
            &&& bound.wf()
            &&& bound.extends(symbols)
            &&& bound.next_variable == symbols.next_variable
            &&& 0 <= address <= MAX_ADDRESS
            &&& bound.lookup(name) == Some(address as u16)
        },
        symbols.allocate_variable(name) matches Ok((allocated, given)) ==> {
            &&& allocated.wf()
            &&& allocated.extends(symbols)
            &&& allocated.lookup(name) == Some(given)
        },
{
}

/// The first variable of a program gets the address 16.
pub proof fn lemma_first_variable(name: Seq<char>)
    requires
        !predefined().contains_key(name),
    ensures
        Symbols::initial().allocate_variable(name) matches Ok((_, given)) && given
            == FIRST_VARIABLE,
{
}

/// A name that has an address stands for it at every later use, whatever was
/// added to the table in between.
pub proof fn lemma_address_is_stable(earlier: Symbols, later: Symbols, name: Seq<char>)
    requires
        later.extends(earlier),
        earlier.entries.contains_key(name),
    ensures
        later.lookup(name) == earlier.lookup(name),
        later.allocate_variable(name) == Ok::<(Symbols, u16), ErrorKind>(
            (later, earlier.entries[name]),
        ),
{
}

/// Of two new variables the later one gets the higher address, whatever was
/// added to the table in between, and none gets an address below 16.
pub proof fn lemma_variables_increase(
    earlier: Symbols,
    first: Seq<char>,
    later: Symbols,
    second: Seq<char>,
)
    requires
        earlier.wf(),
        !earlier.entries.contains_key(first),
        earlier.allocate_variable(first) matches Ok((allocated, _)) && later.extends(allocated),
        !later.entries.contains_key(second),
        later.allocate_variable(second) is Ok,
    ensures
        ({
            let low: u16 = earlier.allocate_variable(first)->Ok_0.1;
            let high: u16 = later.allocate_variable(second)->Ok_0.1;
            FIRST_VARIABLE <= low < high
        }),
{
}

} // verus!
