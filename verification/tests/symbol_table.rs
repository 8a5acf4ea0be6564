use hack_assembler::error::ErrorKind;
use hack_assembler::symbol_table::{SymbolTable, FIRST_VARIABLE};

#[test]
fn new_table_holds_the_predefined_symbols() {
    let table = SymbolTable::new();
    assert_eq!(table.lookup("SP"), Some(0));
    assert_eq!(table.lookup("LCL"), Some(1));
    assert_eq!(table.lookup("ARG"), Some(2));
    assert_eq!(table.lookup("THIS"), Some(3));
    assert_eq!(table.lookup("THAT"), Some(4));
    assert_eq!(table.lookup("SCREEN"), Some(16384));
    assert_eq!(table.lookup("KBD"), Some(24576));
    for register in 0..16u16 {
        assert_eq!(table.lookup(&format!("R{}", register)), Some(register));
    }
    assert_eq!(table.len(), 23);
}

#[test]
fn new_table_holds_nothing_else() {
    let table = SymbolTable::new();
    for name in ["", "R16", "r0", "sp", "LOOP", "i", "R", "R00", "SCREEN ", "KBD0"] {
        assert_eq!(table.lookup(name), None);
        assert!(!table.contains(name));
    }
    assert!(table.contains("THIS"));
    assert!(table.contains("R15"));
}

#[test]
fn first_variable_gets_sixteen() {
    assert_eq!(FIRST_VARIABLE, 16);
    let mut table = SymbolTable::new();
    assert_eq!(table.allocate_variable("i"), Ok(16));
    assert_eq!(table.lookup("i"), Some(16));
    assert_eq!(table.len(), 24);
}

#[test]
fn variables_get_addresses_in_order_and_keep_them() {
    let mut table = SymbolTable::new();
    assert_eq!(table.allocate_variable("i"), Ok(16));
    assert_eq!(table.allocate_variable("sum"), Ok(17));
    assert_eq!(table.allocate_variable("i"), Ok(16));
    assert_eq!(table.allocate_variable("j"), Ok(18));
    assert_eq!(table.allocate_variable("sum"), Ok(17));
    assert_eq!(table.allocate_variable("i"), Ok(16));
    assert_eq!(table.allocate_variable("k"), Ok(19));
    assert_eq!(table.lookup("i"), Some(16));
    assert_eq!(table.lookup("sum"), Some(17));
    assert_eq!(table.lookup("j"), Some(18));
    assert_eq!(table.lookup("k"), Some(19));
    assert_eq!(table.len(), 27);
}

#[test]
fn predefined_symbol_is_no_variable() {
    let mut table = SymbolTable::new();
    assert_eq!(table.allocate_variable("SCREEN"), Ok(16384));
    assert_eq!(table.allocate_variable("R3"), Ok(3));
    assert_eq!(table.allocate_variable("x"), Ok(16));
    assert_eq!(table.len(), 24);
}

#[test]
fn label_is_bound_to_its_address() {
    let mut table = SymbolTable::new();
    assert_eq!(table.bind_label("LOOP", 4), Ok(()));
    assert_eq!(table.bind_label("END", 32767), Ok(()));
    assert_eq!(table.bind_label("START", 0), Ok(()));
    assert_eq!(table.lookup("LOOP"), Some(4));
    assert_eq!(table.lookup("END"), Some(32767));
    assert_eq!(table.lookup("START"), Some(0));
    assert_eq!(table.len(), 26);
}

#[test]
fn label_does_not_take_a_variable_address() {
    let mut table = SymbolTable::new();
    assert_eq!(table.bind_label("LOOP", 16), Ok(()));
    assert_eq!(table.allocate_variable("LOOP"), Ok(16));
    assert_eq!(table.allocate_variable("i"), Ok(16));
    assert_eq!(table.allocate_variable("j"), Ok(17));
}

#[test]
fn binding_a_label_again_at_its_address_changes_nothing() {
    let mut table = SymbolTable::new();
    assert_eq!(table.bind_label("LOOP", 4), Ok(()));
    assert_eq!(table.bind_label("LOOP", 4), Ok(()));
    assert_eq!(table.lookup("LOOP"), Some(4));
    assert_eq!(table.len(), 24);
    assert_eq!(table.bind_label("SP", 0), Ok(()));
    assert_eq!(table.bind_label("R7", 7), Ok(()));
    assert_eq!(table.len(), 24);
}

#[test]
fn binding_a_label_at_another_address_is_a_conflict() {
    let mut table = SymbolTable::new();
    assert_eq!(table.bind_label("LOOP", 4), Ok(()));
    assert_eq!(table.bind_label("LOOP", 5), Err(ErrorKind::SymbolConflict));
    assert_eq!(table.lookup("LOOP"), Some(4));
    assert_eq!(table.bind_label("LOOP", 40000), Err(ErrorKind::SymbolConflict));
    assert_eq!(table.lookup("LOOP"), Some(4));
    assert_eq!(table.len(), 24);
}

#[test]
fn predefined_symbol_is_never_rebound() {
    let mut table = SymbolTable::new();
    assert_eq!(table.bind_label("SCREEN", 10), Err(ErrorKind::SymbolConflict));
    assert_eq!(table.bind_label("R0", 1), Err(ErrorKind::SymbolConflict));
    assert_eq!(table.bind_label("KBD", 0), Err(ErrorKind::SymbolConflict));
    assert_eq!(table.lookup("SCREEN"), Some(16384));
    assert_eq!(table.lookup("R0"), Some(0));
    assert_eq!(table.lookup("KBD"), Some(24576));
    assert_eq!(table.len(), 23);
}

#[test]
fn variable_is_never_rebound() {
    let mut table = SymbolTable::new();
    assert_eq!(table.allocate_variable("i"), Ok(16));
    assert_eq!(table.bind_label("i", 3), Err(ErrorKind::SymbolConflict));
    assert_eq!(table.bind_label("i", 16), Ok(()));
    assert_eq!(table.lookup("i"), Some(16));
}

#[test]
fn label_address_above_fifteen_bits_is_out_of_range() {
    let mut table = SymbolTable::new();
    assert_eq!(table.bind_label("FAR", 32768), Err(ErrorKind::AddressOutOfRange));
    assert_eq!(table.bind_label("FAR", 65536 + 5), Err(ErrorKind::AddressOutOfRange));
    assert_eq!(table.bind_label("FAR", usize::MAX), Err(ErrorKind::AddressOutOfRange));
    assert_eq!(table.lookup("FAR"), None);
    assert_eq!(table.len(), 23);
}

#[test]
fn variables_run_out_after_the_last_address() {
    let mut table = SymbolTable::new();
    for address in 16..=32767u16 {
        assert_eq!(table.allocate_variable(&format!("v{}", address)), Ok(address));
    }
    assert_eq!(table.allocate_variable("one_more"), Err(ErrorKind::AddressOutOfRange));
    assert_eq!(table.lookup("one_more"), None);
    assert_eq!(table.allocate_variable("v16"), Ok(16));
    assert_eq!(table.allocate_variable("v32767"), Ok(32767));
    assert_eq!(table.allocate_variable("SP"), Ok(0));
    assert_eq!(table.len(), 23 + 32752);
}
