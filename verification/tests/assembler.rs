use hack_assembler::assembler::{assemble, generate_code, resolve_labels, HackAssembler};
use hack_assembler::error::{AssemblyError, ErrorKind};
use hack_assembler::symbol_table::SymbolTable;

fn program(source: &str) -> Vec<String> {
    source.lines().map(|line| line.to_string()).collect()
}

fn refused(kind: ErrorKind, line: usize, text: &str) -> AssemblyError {
    AssemblyError { kind, line, text: text.to_string() }
}

const ADD: &str = "@2\nD=A\n@3\nD=D+A\n@0\nM=D";

const SUM: &str = "\
// Computes RAM[1] = 1 + 2 + ... + RAM[0]
    @i
    M=1     // i = 1
    @sum
    M=0     // sum = 0
(LOOP)
    @i
    D=M
    @R0
    D=D-M
    @STOP
    D;JGT   // if i > RAM[0] goto STOP
    @sum
    D=M
    @i
    D=D+M
    @sum
    M=D     // sum = sum + i
    @i
    M=M+1   // i = i + 1
    @LOOP
    0;JMP
(STOP)
    @sum
    D=M
    @R1
    M=D     // RAM[1] = sum
(END)
    @END
    0;JMP
";

const MAX: &str = "\
   @R0
   D=M              // D = first number
   @R1
   D=D-M            // D = first number - second number
   @OUTPUT_FIRST
   D;JGT            // if D>0 (first is greater) goto output_first
   @R1
   D=M              // D = second number
   @OUTPUT_D
   0;JMP            // goto output_d
(OUTPUT_FIRST)
   @R0
   D=M              // D = first number
(OUTPUT_D)
   @R2
   M=D              // M[2] = D (greatest number)
(INFINITE_LOOP)
   @INFINITE_LOOP
   0;JMP            // infinite loop
";

#[test]
fn add_program_assembles_to_six_words() {
    let words = assemble(&program(ADD)).unwrap();
    assert_eq!(
        words,
        vec![
            "0000000000000010",
            "1110110000010000",
            "0000000000000011",
            "1110000010010000",
            "0000000000000000",
            "1110001100001000",
        ]
    );
}

#[test]
fn add_program_creates_no_symbol() {
    let mut assembler = HackAssembler::new("Add.asm", program(ADD));
    assert_eq!(assembler.symbol_table().len(), 23);
    let words = assembler.execute().unwrap();
    assert_eq!(words.len(), 6);
    assert_eq!(assembler.symbol_table().len(), 23);
}

#[test]
fn empty_program_has_no_word() {
    assert_eq!(assemble(&Vec::new()), Ok(Vec::new()));
    assert_eq!(assemble(&program("\n\n// nothing\n   \n")), Ok(Vec::new()));
}

#[test]
fn label_stands_for_the_next_instruction() {
    let mut assembler = HackAssembler::new("loop.asm", program("@0\nD=M\n(LOOP)\nD=D-1\n@LOOP\nD;JGT"));
    let words = assembler.execute().unwrap();
    assert_eq!(
        words,
        vec![
            "0000000000000000",
            "1111110000010000",
            "1110001110010000",
            "0000000000000010",
            "1110001100000001",
        ]
    );
    assert_eq!(assembler.symbol_table().lookup("LOOP"), Some(2));
    assert_eq!(assembler.symbol_table().len(), 24);
}

#[test]
fn jump_to_a_label_at_the_top() {
    let words = assemble(&program("(LOOP)\n@LOOP\n0;JMP")).unwrap();
    assert_eq!(words, vec!["0000000000000000", "1110101010000111"]);
}

#[test]
fn label_may_be_used_before_it_is_declared() {
    let mut assembler = HackAssembler::new("forward.asm", program("@END\n0;JMP\n@5\n(END)\nD=A"));
    let words = assembler.execute().unwrap();
    assert_eq!(
        words,
        vec![
            "0000000000000011",
            "1110101010000111",
            "0000000000000101",
            "1110110000010000",
        ]
    );
    assert_eq!(assembler.symbol_table().lookup("END"), Some(3));
    assert_eq!(assembler.symbol_table().len(), 24);
}

#[test]
fn label_at_the_end_stands_for_the_address_after_the_program() {
    let mut assembler = HackAssembler::new("end.asm", program("@END\n0;JMP\n(END)"));
    let words = assembler.execute().unwrap();
    assert_eq!(words, vec!["0000000000000010", "1110101010000111"]);
    assert_eq!(assembler.symbol_table().lookup("END"), Some(2));
}

#[test]
fn labels_in_a_row_share_an_address() {
    let mut assembler = HackAssembler::new("row.asm", program("D=A\n(ONE)\n(TWO)\n// note\n\n(THREE)\n@TWO\n@THREE\n@ONE"));
    let words = assembler.execute().unwrap();
    assert_eq!(
        words,
        vec![
            "1110110000010000",
            "0000000000000001",
            "0000000000000001",
            "0000000000000001",
        ]
    );
}

#[test]
fn two_new_symbols_get_sixteen_and_seventeen() {
    let mut assembler = HackAssembler::new("vars.asm", program("@first\nM=1\n@second\nM=0\n(LOOP)\n@LOOP\n0;JMP"));
    let words = assembler.execute().unwrap();
    assert_eq!(
        words,
        vec![
            "0000000000010000",
            "1110111111001000",
            "0000000000010001",
            "1110101010001000",
            "0000000000000100",
            "1110101010000111",
        ]
    );
    assert_eq!(assembler.symbol_table().lookup("first"), Some(16));
    assert_eq!(assembler.symbol_table().lookup("second"), Some(17));
    assert_eq!(assembler.symbol_table().lookup("LOOP"), Some(4));
    assert_eq!(assembler.symbol_table().len(), 26);
}

#[test]
fn variable_keeps_its_address_at_every_use() {
    let words = assemble(&program("@a\n@b\n@a\n@c\n@b\n@a\n@c")).unwrap();
    assert_eq!(
        words,
        vec![
            "0000000000010000",
            "0000000000010001",
            "0000000000010000",
            "0000000000010010",
            "0000000000010001",
            "0000000000010000",
            "0000000000010010",
        ]
    );
}

#[test]
fn symbol_declared_later_as_label_is_no_variable() {
    let mut assembler = HackAssembler::new("late.asm", program("@x\nD=A\n@y\n(x)\nD=M"));
    let words = assembler.execute().unwrap();
    assert_eq!(
        words,
        vec![
            "0000000000000011",
            "1110110000010000",
            "0000000000010000",
            "1111110000010000",
        ]
    );
    assert_eq!(assembler.symbol_table().lookup("x"), Some(3));
    assert_eq!(assembler.symbol_table().lookup("y"), Some(16));
}

#[test]
fn predefined_symbols_in_a_program() {
    let words = assemble(&program("@SP\n@LCL\n@ARG\n@THIS\n@THAT\n@R13\n@SCREEN\n@KBD\n@x")).unwrap();
    assert_eq!(
        words,
        vec![
            "0000000000000000",
            "0000000000000001",
            "0000000000000010",
            "0000000000000011",
            "0000000000000100",
            "0000000000001101",
            "0100000000000000",
            "0110000000000000",
            "0000000000010000",
        ]
    );
}

#[test]
fn literal_is_written_in_binary() {
    let words = assemble(&program("@0\n@1\n@32767\n@12345\n@00016")).unwrap();
    assert_eq!(
        words,
        vec![
            "0000000000000000",
            "0000000000000001",
            "0111111111111111",
            "0011000000111001",
            "0000000000010000",
        ]
    );
}

#[test]
fn sum_program() {
    let mut assembler = HackAssembler::new("Sum1ToN.asm", program(SUM));
    let words = assembler.execute().unwrap();
    assert_eq!(
        words,
        vec![
            "0000000000010000",
            "1110111111001000",
            "0000000000010001",
            "1110101010001000",
            "0000000000010000",
            "1111110000010000",
            "0000000000000000",
            "1111010011010000",
            "0000000000010100",
            "1110001100000001",
            "0000000000010001",
            "1111110000010000",
            "0000000000010000",
            "1111000010010000",
            "0000000000010001",
            "1110001100001000",
            "0000000000010000",
            "1111110111001000",
            "0000000000000100",
            "1110101010000111",
            "0000000000010001",
            "1111110000010000",
            "0000000000000001",
            "1110001100001000",
            "0000000000011000",
            "1110101010000111",
        ]
    );
    let table = assembler.symbol_table();
    assert!(table.contains("LOOP"));
    assert!(table.contains("STOP"));
    assert!(table.contains("i"));
    assert!(table.contains("sum"));
    assert_eq!(table.lookup("LOOP"), Some(4));
    assert_eq!(table.lookup("STOP"), Some(20));
    assert_eq!(table.lookup("END"), Some(24));
    assert_eq!(table.lookup("i"), Some(16));
    assert_eq!(table.lookup("sum"), Some(17));
    assert_eq!(table.len(), 28);
    assert_eq!(assembler.filename(), "Sum1ToN");
    assert_eq!(assembler.output_file(), "hack-files/Sum1ToN.hack");
}

#[test]
fn max_program() {
    let words = assemble(&program(MAX)).unwrap();
    assert_eq!(
        words,
        vec![
            "0000000000000000",
            "1111110000010000",
            "0000000000000001",
            "1111010011010000",
            "0000000000001010",
            "1110001100000001",
            "0000000000000001",
            "1111110000010000",
            "0000000000001100",
            "1110101010000111",
            "0000000000000000",
            "1111110000010000",
            "0000000000000010",
            "1110001100001000",
            "0000000000001110",
            "1110101010000111",
        ]
    );
}

#[test]
fn windows_line_ends_are_blanks() {
    let lines: Vec<String> = "@2\r\nD=A\r\n(L)\r\n@L\r\n".split('\n').map(|line| line.to_string()).collect();
    assert_eq!(
        assemble(&lines),
        Ok(vec![
            "0000000000000010".to_string(),
            "1110110000010000".to_string(),
            "0000000000000010".to_string(),
        ])
    );
}

#[test]
fn every_word_has_sixteen_binary_digits() {
    for source in [ADD, SUM, MAX] {
        let lines = program(source);
        let words = assemble(&lines).unwrap();
        let instructions = lines
            .iter()
            .filter(|line| {
                let text = line.split("//").next().unwrap().trim();
                !text.is_empty() && !text.starts_with('(')
            })
            .count();
        assert_eq!(words.len(), instructions);
        for word in words {
            assert_eq!(word.chars().count(), 16);
            assert!(word.chars().all(|c| c == '0' || c == '1'));
        }
    }
}

#[test]
fn assembling_twice_gives_the_same_words() {
    let lines = program(SUM);
    let once = assemble(&lines).unwrap();
    let twice = assemble(&lines).unwrap();
    assert_eq!(once, twice);
    let mut assembler = HackAssembler::new("Sum1ToN.asm", program(SUM));
    assert_eq!(assembler.execute().unwrap(), once);
    assert_eq!(assembler.execute().unwrap(), once);
    assert_eq!(assembler.symbol_table().lookup("sum"), Some(17));
    assert_eq!(assembler.symbol_table().len(), 28);
}

#[test]
fn the_two_passes_make_up_the_assembler() {
    let lines = program(MAX);
    let table = resolve_labels(&lines).unwrap();
    assert_eq!(table.lookup("OUTPUT_FIRST"), Some(10));
    assert_eq!(table.lookup("OUTPUT_D"), Some(12));
    assert_eq!(table.lookup("INFINITE_LOOP"), Some(14));
    assert_eq!(table.len(), 26);
    let (words, table) = generate_code(&lines, table).unwrap();
    assert_eq!(words, assemble(&lines).unwrap());
    assert_eq!(table.len(), 26);
}

#[test]
fn second_pass_alone_takes_every_new_symbol_for_a_variable() {
    let lines = program("@LOOP\n(LOOP)\n@LOOP\n@i");
    let (words, table) = generate_code(&lines, SymbolTable::new()).unwrap();
    assert_eq!(words, vec!["0000000000010000", "0000000000010000", "0000000000010001"]);
    assert_eq!(table.lookup("LOOP"), Some(16));
    assert_eq!(table.lookup("i"), Some(17));
}

#[test]
fn missing_operand_is_reported_with_its_line() {
    assert_eq!(
        assemble(&program("D=A\n\n  @ // oops\nM=D")),
        Err(refused(ErrorKind::MalformedInstruction, 3, "  @ // oops"))
    );
}

#[test]
fn unclosed_label_is_reported_with_its_line() {
    assert_eq!(
        assemble(&program("(LOOP\n@LOOP")),
        Err(refused(ErrorKind::MalformedInstruction, 1, "(LOOP"))
    );
}

#[test]
fn unknown_mnemonic_is_reported_with_its_line() {
    assert_eq!(
        assemble(&program("@2\nD=A\nD=Q // what\n@3")),
        Err(refused(ErrorKind::UnknownMnemonic, 3, "D=Q // what"))
    );
    assert_eq!(
        assemble(&program("@2\nX=A")),
        Err(refused(ErrorKind::UnknownMnemonic, 2, "X=A"))
    );
    assert_eq!(
        assemble(&program("0;JUMP")),
        Err(refused(ErrorKind::UnknownMnemonic, 1, "0;JUMP"))
    );
}

#[test]
fn literal_out_of_range_is_reported_with_its_line() {
    assert_eq!(
        assemble(&program("@32767\n@32768")),
        Err(refused(ErrorKind::AddressOutOfRange, 2, "@32768"))
    );
}

#[test]
fn the_first_refusal_is_the_one_reported() {
    assert_eq!(
        assemble(&program("@1\nBAD\n@\n(")),
        Err(refused(ErrorKind::UnknownMnemonic, 2, "BAD"))
    );
    assert_eq!(
        assemble(&program("@\nBAD")),
        Err(refused(ErrorKind::MalformedInstruction, 1, "@"))
    );
}

#[test]
fn label_declared_twice_at_one_address_is_accepted() {
    let mut assembler = HackAssembler::new("twice.asm", program("D=A\n(L)\n(L)\n@L"));
    assert_eq!(
        assembler.execute(),
        Ok(vec!["1110110000010000".to_string(), "0000000000000001".to_string()])
    );
    assert_eq!(assembler.symbol_table().lookup("L"), Some(1));
    assert_eq!(assembler.symbol_table().len(), 24);
}

#[test]
fn label_declared_twice_at_two_addresses_is_a_conflict() {
    assert_eq!(
        assemble(&program("(L)\nD=A\n(L)\n@L")),
        Err(refused(ErrorKind::SymbolConflict, 3, "(L)"))
    );
}

#[test]
fn label_with_a_predefined_name_is_a_conflict() {
    assert_eq!(
        assemble(&program("D=A\n  (SCREEN)  \n@SCREEN")),
        Err(refused(ErrorKind::SymbolConflict, 2, "  (SCREEN)  "))
    );
    assert_eq!(
        assemble(&program("(R1)\n@R1")),
        Err(refused(ErrorKind::SymbolConflict, 1, "(R1)"))
    );
}

#[test]
fn label_with_a_predefined_name_at_its_address_is_accepted() {
    assert_eq!(
        assemble(&program("(SP)\nD=A\n(R1)\n@R1")),
        Ok(vec!["1110110000010000".to_string(), "0000000000000001".to_string()])
    );
}

#[test]
fn conflict_comes_before_a_later_syntax_error() {
    assert_eq!(
        assemble(&program("(L)\nD=A\n(L)\nBAD")),
        Err(refused(ErrorKind::SymbolConflict, 3, "(L)"))
    );
    assert_eq!(
        assemble(&program("(L)\nBAD\n(L)")),
        Err(refused(ErrorKind::UnknownMnemonic, 2, "BAD"))
    );
}

#[test]
fn refused_program_leaves_the_assembler_as_it_was() {
    let mut assembler = HackAssembler::new("bad.asm", program("(L)\n@x\nD=A\nBAD"));
    assert_eq!(assembler.execute(), Err(refused(ErrorKind::UnknownMnemonic, 4, "BAD")));
    assert_eq!(assembler.symbol_table().len(), 23);
    assert_eq!(assembler.symbol_table().lookup("L"), None);
    assert_eq!(assembler.symbol_table().lookup("x"), None);
    assert_eq!(assembler.filename(), "bad");
    assert_eq!(assembler.output_file(), "hack-files/bad.hack");
}

#[test]
fn label_behind_the_last_address_is_out_of_range() {
    let mut lines: Vec<String> = Vec::new();
    for _ in 0..32767 {
        lines.push("D=A".to_string());
    }
    lines.push("(LAST)".to_string());
    lines.push("@LAST".to_string());
    let words = assemble(&lines).unwrap();
    assert_eq!(words.len(), 32768);
    assert_eq!(words[32767], "0111111111111111");
    lines.push("(BEYOND)".to_string());
    assert_eq!(
        assemble(&lines),
        Err(refused(ErrorKind::AddressOutOfRange, 32770, "(BEYOND)"))
    );
}

#[test]
fn program_longer_than_the_address_space_without_late_labels_is_assembled() {
    let mut lines: Vec<String> = vec!["(START)".to_string()];
    for _ in 0..40000 {
        lines.push("@START".to_string());
    }
    let words = assemble(&lines).unwrap();
    assert_eq!(words.len(), 40000);
    assert_eq!(words[39999], "0000000000000000");
}

#[test]
fn variable_behind_the_last_address_is_out_of_range() {
    let mut lines: Vec<String> = Vec::new();
    for number in 16..=32767 {
        lines.push(format!("@v{}", number));
    }
    let words = assemble(&lines).unwrap();
    assert_eq!(words.len(), 32752);
    assert_eq!(words[0], "0000000000010000");
    assert_eq!(words[32751], "0111111111111111");
    lines.push("@v16".to_string());
    lines.push("@SCREEN".to_string());
    lines.push("@77".to_string());
    assert_eq!(assemble(&lines).unwrap().len(), 32755);
    lines.push("@one_more".to_string());
    assert_eq!(
        assemble(&lines),
        Err(refused(ErrorKind::AddressOutOfRange, 32756, "@one_more"))
    );
    lines.push("BAD".to_string());
    assert_eq!(
        assemble(&lines),
        Err(refused(ErrorKind::UnknownMnemonic, 32757, "BAD"))
    );
}

#[test]
fn new_assembler_has_the_predefined_symbols_alone() {
    let assembler = HackAssembler::new("Prog.asm", program("(L)\n@x"));
    assert_eq!(assembler.symbol_table().len(), 23);
    assert_eq!(assembler.symbol_table().lookup("KBD"), Some(24576));
    assert_eq!(assembler.symbol_table().lookup("L"), None);
    assert_eq!(assembler.symbol_table().lookup("x"), None);
}

#[test]
fn output_file_is_named_after_the_source_file() {
    let names = [
        ("Add.asm", "Add", "hack-files/Add.hack"),
        ("test.asm", "test", "hack-files/test.hack"),
        ("Pong", "Pong", "hack-files/Pong.hack"),
        ("a.b.c", "a", "hack-files/a.hack"),
        ("dir/Prog.v2.asm", "dir/Prog", "hack-files/dir/Prog.hack"),
        (".hidden", "", "hack-files/.hack"),
        ("", "", "hack-files/.hack"),
        ("Max.", "Max", "hack-files/Max.hack"),
    ];
    for (given, name, path) in names {
        let assembler = HackAssembler::new(given, Vec::new());
        assert_eq!(assembler.filename(), name);
        assert_eq!(assembler.output_file(), path);
    }
}
