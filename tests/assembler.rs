use assembler::driver::{assemble, MAX_WORDS};
use assembler::error::AsmError;
use assembler::instruction::{word_of, Instructions};
use assembler::labels::LabelTable;
use assembler::parser::{parse_flags, parse_unsigned};
use assembler::register::Register;
use assembler::text::{source_lines, tokenize};

fn words(src: &str) -> Vec<String> {
    assemble(src).expect("program should assemble")
}

fn strs(v: &[&str]) -> Vec<String> {
    v.iter().map(|s| s.to_string()).collect()
}

#[test]
fn register_codes() {
    assert_eq!(Register::binary(Register::R0), "00");
    assert_eq!(Register::binary(Register::R1), "01");
    assert_eq!(Register::binary(Register::R2), "10");
    assert_eq!(Register::binary(Register::R3), "11");
}

#[test]
fn register_decoding() {
    assert_eq!(Register::reg_from_instr("R2", 1).unwrap(), Register::R2);
    assert_eq!(Register::reg_from_instr("R0", 1).unwrap(), Register::R0);
    match Register::reg_from_instr("R4", 7) {
        Err(AsmError::InvalidRegister { line, token }) => {
            assert_eq!(line, 7);
            assert_eq!(token, "R4");
        }
        other => panic!("unexpected {:?}", other),
    }
    assert!(Register::reg_from_instr("r1", 1).is_err());
    assert!(Register::reg_from_instr("R11", 1).is_err());
}

#[test]
fn two_register_encodings() {
    let cases = [
        ("ADD", "1000"),
        ("SHR", "1001"),
        ("SHL", "1010"),
        ("NOT", "1011"),
        ("AND", "1100"),
        ("OR", "1101"),
        ("XOR", "1110"),
        ("ST", "0001"),
        ("LD", "0000"),
    ];
    for (m, op) in cases.iter() {
        let out = words(&format!("{} R1 R2", m));
        assert_eq!(out, strs(&[&format!("{}0110", op), "11001111"]));
        let out = words(&format!("{} R3 R0", m));
        assert_eq!(out, strs(&[&format!("{}1100", op), "11001111"]));
    }
}

#[test]
fn instruction_binary_words() {
    let w = Instructions::binary(&Instructions::Add { reg_a: Register::R1, reg_b: Register::R2 });
    assert_eq!(w, strs(&["10000110"]));
    let w = Instructions::binary(&Instructions::Data { reg: Register::R2, data: 5 });
    assert_eq!(w, strs(&["00100010", "00000101"]));
    let w = Instructions::binary(&Instructions::JumpRegister { reg: Register::R3 });
    assert_eq!(w, strs(&["00110011"]));
    let w = Instructions::binary(&Instructions::JumpAddress { mark: "x".to_string() });
    assert_eq!(w, strs(&["01000000"]));
    let w = Instructions::binary(&Instructions::ClearFlags);
    assert_eq!(w, strs(&["01100000"]));
    let w = Instructions::binary(&Instructions::End);
    assert_eq!(w, strs(&["11001111"]));
}

#[test]
fn data_two_words() {
    assert_eq!(words("DATA R2 5"), strs(&["00100010", "00000101", "11001111"]));
}

#[test]
fn data_keeps_low_eight_bits() {
    assert_eq!(words("DATA R0 300"), strs(&["00100000", "00101100", "11001111"]));
    assert_eq!(words("DATA R1 255"), strs(&["00100001", "11111111", "11001111"]));
    assert_eq!(words("DATA R1 +7"), strs(&["00100001", "00000111", "11001111"]));
}

#[test]
fn word_of_values() {
    assert_eq!(word_of(0), "00000000");
    assert_eq!(word_of(3), "00000011");
    assert_eq!(word_of(256), "00000000");
    assert_eq!(word_of(257), "00000001");
}

#[test]
fn mark_resolves_to_next_word() {
    let out = words("CLF\nDATA R0 1\nMARK loop\nJMP loop");
    assert_eq!(
        out,
        strs(&["01100000", "00100000", "00000001", "01000000", "00000100", "11001111"])
    );
}

#[test]
fn forward_and_backward_jumps() {
    let backward = words("MARK top\nCLF\nJMP top");
    assert_eq!(backward, strs(&["01100000", "01000000", "00000001", "11001111"]));
    let forward = words("JMP done\nCLF\nMARK done\nEND");
    assert_eq!(forward, strs(&["01000000", "00000100", "01100000", "11001111", "11001111"]));
}

#[test]
fn output_always_ends_with_halt() {
    assert_eq!(words("END"), strs(&["11001111", "11001111"]));
    assert_eq!(words(""), strs(&["11001111"]));
    assert_eq!(words("CLF"), strs(&["01100000", "11001111"]));
}

#[test]
fn exactly_full_memory_assembles() {
    let src = vec!["CLF"; MAX_WORDS].join("\n");
    let out = words(&src);
    assert_eq!(out.len(), 257);
    assert_eq!(out[255], "01100000");
    assert_eq!(out[256], "11001111");
}

#[test]
fn one_word_too_many_fails() {
    let src = vec!["CLF"; 257].join("\n");
    match assemble(&src) {
        Err(AsmError::ProgramTooLarge { found, max }) => {
            assert_eq!(found, 257);
            assert_eq!(max, 256);
        }
        other => panic!("unexpected {:?}", other),
    }
}

#[test]
fn jif_flag_bits() {
    let out = words("MARK target\nJIF AE target");
    assert_eq!(out, strs(&["01010110", "00000001", "11001111"]));
    let out = words("JIF CAEZ t\nMARK t");
    assert_eq!(out, strs(&["01011111", "00000011", "11001111"]));
    let out = words("JIF ZZ t\nMARK t");
    assert_eq!(out, strs(&["01010001", "00000011", "11001111"]));
}

#[test]
fn undefined_label_fails() {
    match assemble("CLF\nJMP nowhere") {
        Err(AsmError::UndefinedLabel { line, label }) => {
            assert_eq!(line, 2);
            assert_eq!(label, "nowhere");
        }
        other => panic!("unexpected {:?}", other),
    }
    assert!(matches!(assemble("MARK a\nJIF C b"), Err(AsmError::UndefinedLabel { .. })));
}

#[test]
fn blank_and_comment_lines_ignored() {
    let plain = words("MARK a\nCLF\nJMP a");
    let noisy = words("\n# start\n   \nMARK a\n#x y z\n\nCLF\n  # trailing\nJMP a\n");
    assert_eq!(plain, noisy);
    assert_eq!(noisy, strs(&["01100000", "01000000", "00000001", "11001111"]));
}

#[test]
fn errors_carry_line_numbers() {
    match assemble("# c\n\nADD R0") {
        Err(AsmError::MalformedLine { line }) => assert_eq!(line, 3),
        other => panic!("unexpected {:?}", other),
    }
    match assemble("CLF\nADD R0 R9") {
        Err(AsmError::InvalidRegister { line, token }) => {
            assert_eq!(line, 2);
            assert_eq!(token, "R9");
        }
        other => panic!("unexpected {:?}", other),
    }
    match assemble("MOV R0 R1") {
        Err(AsmError::UnknownInstruction { line, token }) => {
            assert_eq!(line, 1);
            assert_eq!(token, "MOV");
        }
        other => panic!("unexpected {:?}", other),
    }
    match assemble("DATA R0 x5") {
        Err(AsmError::InvalidImmediate { line, token }) => {
            assert_eq!(line, 1);
            assert_eq!(token, "x5");
        }
        other => panic!("unexpected {:?}", other),
    }
    match assemble("JIF CX t") {
        Err(AsmError::InvalidConditionFlag { line, flag }) => {
            assert_eq!(line, 1);
            assert_eq!(flag, 'X');
        }
        other => panic!("unexpected {:?}", other),
    }
}

#[test]
fn arity_is_checked() {
    assert!(matches!(assemble("MARK"), Err(AsmError::MalformedLine { line: 1 })));
    assert!(matches!(assemble("MARK a b"), Err(AsmError::MalformedLine { line: 1 })));
    assert!(matches!(assemble("DATA R0"), Err(AsmError::MalformedLine { line: 1 })));
    assert!(matches!(assemble("JMPR"), Err(AsmError::MalformedLine { line: 1 })));
    assert!(matches!(assemble("JMP a b"), Err(AsmError::MalformedLine { line: 1 })));
    assert!(matches!(assemble("JIF C"), Err(AsmError::MalformedLine { line: 1 })));
    assert!(matches!(assemble("CLF R0"), Err(AsmError::MalformedLine { line: 1 })));
    assert!(matches!(assemble("END now"), Err(AsmError::MalformedLine { line: 1 })));
}

#[test]
fn immediate_out_of_range() {
    assert!(matches!(
        assemble("DATA R0 999999999999999999999999"),
        Err(AsmError::InvalidImmediate { .. })
    ));
    assert!(matches!(assemble("DATA R0 -1"), Err(AsmError::InvalidImmediate { .. })));
    assert!(matches!(assemble("DATA R0 +"), Err(AsmError::InvalidImmediate { .. })));
}

#[test]
fn jump_register() {
    assert_eq!(words("JMPR R2"), strs(&["00110010", "11001111"]));
}

#[test]
fn redefined_mark_last_wins() {
    let out = words("MARK a\nCLF\nMARK a\nJMP a");
    assert_eq!(out, strs(&["01100000", "01000000", "00000010", "11001111"]));
}

#[test]
fn whitespace_and_line_endings() {
    assert_eq!(words("  ADD\tR1   R2  \r\nCLF\r\n"), strs(&["10000110", "01100000", "11001111"]));
    assert_eq!(words("ADD\u{3000}R1\u{a0}R2"), strs(&["10000110", "11001111"]));
}

#[test]
fn lines_and_tokens() {
    let lines = source_lines("a b\n\nc");
    assert_eq!(lines, vec![vec!['a', ' ', 'b'], vec![], vec!['c']]);
    assert_eq!(tokenize(&vec![' ', 'a', 'b', '\t', 'c', ' ']), strs(&["ab", "c"]));
    assert_eq!(source_lines("x\n").len(), 2);
}

#[test]
fn flags_and_numbers() {
    assert_eq!(parse_flags(&vec!['A', 'E']), Ok((false, true, true, false)));
    assert_eq!(parse_flags(&vec!['C', 'q', 'Z']), Err('q'));
    assert_eq!(parse_unsigned(&vec!['4', '2']), Some(42));
    assert_eq!(parse_unsigned(&vec![]), None);
}

#[test]
fn label_table_lookup() {
    let mut t = LabelTable::new();
    t.insert("a".to_string(), 3);
    t.insert("b".to_string(), 5);
    t.insert("a".to_string(), 9);
    assert_eq!(t.get(&"a".to_string()), Some(9));
    assert_eq!(t.get(&"b".to_string()), Some(5));
    assert_eq!(t.get(&"c".to_string()), None);
}
