use hack_assembler::assembler::HackAssembler;

fn program(source: &str) -> Vec<String> {
    source.lines().map(|line| line.to_string()).collect()
}

const SUM: &str = "\
// Computes RAM[1] = 1 + 2 + ... + RAM[0]
    @i
    M=1     // i = 1
    @sum
    M=0     // sum = 0
(LOOP)
    @i
    D=M
    @R0
    D=D-M
    @STOP
    D;JGT   // if i > RAM[0] goto STOP
    @sum
    D=M
    @i
    D=D+M
    @sum
    M=D     // sum = sum + i
    @i
    M=M+1   // i = i + 1
    @LOOP
    0;JMP
(STOP)
    @sum
    D=M
    @R1
    M=D     // RAM[1] = sum
(END)
    @END
    0;JMP
";

const TEST: &str = "\
// i = 1
@i
M=1
";

const ADD: &str = "@2\nD=A\n@3\nD=D+A\n@0\nM=D";

#[test]
fn symbol_table_should_exists_and_contains_entries_with_sum1ton_file() {
    let mut hack_assembler = HackAssembler::new("Sum1ToN.asm", program(SUM));
    let _ = hack_assembler.execute();
    assert_eq!(hack_assembler.symbol_table().contains("LOOP"), true);
    assert_eq!(hack_assembler.symbol_table().contains("STOP"), true);
    assert_eq!(hack_assembler.symbol_table().contains("i"), true);
    assert_eq!(hack_assembler.symbol_table().contains("sum"), true);
    assert_eq!(hack_assembler.symbol_table().lookup("LOOP"), Some(4));
    assert_eq!(hack_assembler.symbol_table().lookup("STOP"), Some(20));
    assert_eq!(hack_assembler.symbol_table().lookup("i"), Some(16));
    assert_eq!(hack_assembler.symbol_table().lookup("sum"), Some(17));
}

#[test]
fn symbol_table_should_exists_with_test_file() {
    let mut hack_assembler = HackAssembler::new("test.asm", program(TEST));
    let _ = hack_assembler.execute();
    assert_eq!(hack_assembler.symbol_table().contains("i"), true);
    assert_eq!(hack_assembler.symbol_table().lookup("i"), Some(16));
    assert_eq!(hack_assembler.output_file(), "hack-files/test.hack");
}

#[test]
fn symbol_table_should_exists_with_add_file() {
    let mut hack_assembler = HackAssembler::new("Add.asm", program(ADD));
    let _ = hack_assembler.execute();
    assert_eq!(hack_assembler.symbol_table().contains("THIS"), true);
    assert_eq!(hack_assembler.symbol_table().lookup("THIS"), Some(3));
    assert_eq!(hack_assembler.output_file(), "hack-files/Add.hack");
}
