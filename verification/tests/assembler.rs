use hack_translator::assembler::{
    assemble, check_for_symbol_and_parse, parse_c_instruction, translate_to_binary, AsmError,
    InstructionType,
};

fn key(name: &str) -> Vec<char> {
    name.chars().collect()
}

fn strings(lines: &[&str]) -> Vec<String> {
    lines.iter().map(|s| s.to_string()).collect()
}

#[test]
fn predefined_symbols_have_fixed_addresses() {
    let (table, _parsed) = check_for_symbol_and_parse(Vec::new());
    assert_eq!(table.get(&key("SP")), Some(0));
    assert_eq!(table.get(&key("LCL")), Some(1));
    assert_eq!(table.get(&key("ARG")), Some(2));
    assert_eq!(table.get(&key("THIS")), Some(3));
    assert_eq!(table.get(&key("THAT")), Some(4));
    assert_eq!(table.get(&key("R0")), Some(0));
    assert_eq!(table.get(&key("R13")), Some(13));
    assert_eq!(table.get(&key("R15")), Some(15));
    assert_eq!(table.get(&key("SCREEN")), Some(16384));
    assert_eq!(table.get(&key("KBD")), Some(24576));
    assert_eq!(table.get(&key("loop")), None);
}

#[test]
fn predefined_symbols_survive_any_program() {
    let (table, _parsed) =
        check_for_symbol_and_parse(strings(&["(SP)", "@SP", "@fresh", "(KBD)", "D=A"]));
    assert_eq!(table.get(&key("SP")), Some(0));
    assert_eq!(table.get(&key("KBD")), Some(24576));
}

#[test]
fn variable_symbols_are_bound_once_from_sixteen() {
    let (table, parsed) = check_for_symbol_and_parse(strings(&["@i", "@j", "@i"]));
    assert_eq!(table.get(&key("i")), Some(16));
    assert_eq!(table.get(&key("j")), Some(17));
    let values: Vec<u16> = parsed
        .iter()
        .map(|p| match p {
            InstructionType::A(v) => *v,
            _ => panic!("expected an address load"),
        })
        .collect();
    assert_eq!(values, vec![16, 17, 16]);
}

#[test]
fn label_addresses_count_preceding_instructions() {
    let (table, parsed) =
        check_for_symbol_and_parse(strings(&["@LOOP", "D=A", "// note", "", "(LOOP)", "0;JMP"]));
    assert_eq!(table.get(&key("LOOP")), Some(2));
    match &parsed[0] {
        InstructionType::A(v) => assert_eq!(*v, 2),
        _ => panic!("forward reference should resolve to the label"),
    }
    assert_eq!(parsed.len(), 3);
}

#[test]
fn numeric_references_use_their_value() {
    let (_table, parsed) = check_for_symbol_and_parse(strings(&["@42"]));
    match &parsed[0] {
        InstructionType::A(v) => assert_eq!(*v, 42),
        _ => panic!("expected an address load"),
    }
}

#[test]
fn oversized_numeral_becomes_a_symbol() {
    let (table, parsed) = check_for_symbol_and_parse(strings(&["@70000"]));
    assert_eq!(table.get(&key("70000")), Some(16));
    match &parsed[0] {
        InstructionType::A(v) => assert_eq!(*v, 16),
        _ => panic!("expected an address load"),
    }
}

#[test]
fn parse_c_instruction_splits_all_fields() {
    let (dest, comp, jump) = parse_c_instruction("D=M+1;JGT");
    assert_eq!(dest, Some("D".to_string()));
    assert_eq!(comp, "M+1".to_string());
    assert_eq!(jump, Some("JGT".to_string()));
}

#[test]
fn parse_c_instruction_without_jump() {
    let (dest, comp, jump) = parse_c_instruction("M=D");
    assert_eq!(dest, Some("M".to_string()));
    assert_eq!(comp, "D".to_string());
    assert_eq!(jump, None);
}

#[test]
fn parse_c_instruction_without_dest() {
    let (dest, comp, jump) = parse_c_instruction("0;JMP");
    assert_eq!(dest, None);
    assert_eq!(comp, "0".to_string());
    assert_eq!(jump, Some("JMP".to_string()));
}

#[test]
fn parse_c_instruction_bare_comp() {
    let (dest, comp, jump) = parse_c_instruction("D");
    assert_eq!(dest, None);
    assert_eq!(comp, "D".to_string());
    assert_eq!(jump, None);
}

#[test]
fn unknown_mnemonic_is_fatal() {
    let instrs = vec![InstructionType::C {
        dest: None,
        comp: "XYZ".to_string(),
        jump: None,
    }];
    assert_eq!(translate_to_binary(&instrs), Err(AsmError::UnresolvableReference));
}

#[test]
fn unknown_dest_is_fatal() {
    let instrs = vec![InstructionType::C {
        dest: Some("Q".to_string()),
        comp: "D".to_string(),
        jump: None,
    }];
    assert_eq!(translate_to_binary(&instrs), Err(AsmError::UnresolvableReference));
}

#[test]
fn six_line_program_assembles_exactly() {
    let out = assemble(strings(&["@2", "D=A", "@3", "D=D+A", "@0", "M=D"])).unwrap();
    let lines: Vec<&str> = out.lines().collect();
    assert_eq!(lines.len(), 6);
    assert_eq!(lines[0], "0000000000000010");
    assert_eq!(lines[1], "1110110000010000");
    assert_eq!(lines[2], "0000000000000011");
    assert_eq!(lines[3], "1110000010010000");
    assert_eq!(lines[4], "0000000000000000");
    assert_eq!(lines[5], "1110001100001000");
}

#[test]
fn comments_and_blanks_emit_nothing() {
    let out = assemble(strings(&["// header", "", "   ", "@1"])).unwrap();
    assert_eq!(out, "0000000000000001\n");
}

#[test]
fn lines_are_trimmed_before_parsing() {
    let out = assemble(strings(&["   @5   ", "\tD=A\t"])).unwrap();
    let lines: Vec<&str> = out.lines().collect();
    assert_eq!(lines[0], "0000000000000101");
    assert_eq!(lines[1], "1110110000010000");
}

#[test]
fn every_computation_mnemonic_encodes_to_its_pattern() {
    let cases = [
        ("0", "0101010"),
        ("1", "0111111"),
        ("-1", "0111010"),
        ("D", "0001100"),
        ("A", "0110000"),
        ("!D", "0001101"),
        ("!A", "0110001"),
        ("-D", "0001111"),
        ("-A", "0110011"),
        ("D+1", "0011111"),
        ("A+1", "0110111"),
        ("D-1", "0001110"),
        ("A-1", "0110010"),
        ("D+A", "0000010"),
        ("D-A", "0010011"),
        ("A-D", "0000111"),
        ("D&A", "0000000"),
        ("D|A", "0010101"),
        ("M", "1110000"),
        ("!M", "1110001"),
        ("-M", "1110011"),
        ("M+1", "1110111"),
        ("M-1", "1110010"),
        ("D+M", "1000010"),
        ("D-M", "1010011"),
        ("M-D", "1000111"),
        ("D&M", "1000000"),
        ("D|M", "1010101"),
    ];
    for (comp, bits) in cases {
        let out = assemble(vec![comp.to_string()]).unwrap();
        assert_eq!(out, format!("111{}000000\n", bits), "comp {}", comp);
    }
}

#[test]
fn every_destination_mnemonic_encodes_to_its_pattern() {
    let cases = [
        ("null", "000"),
        ("M", "001"),
        ("D", "010"),
        ("MD", "011"),
        ("A", "100"),
        ("AM", "101"),
        ("AD", "110"),
        ("AMD", "111"),
    ];
    for (dest, bits) in cases {
        let out = assemble(vec![format!("{}=D", dest)]).unwrap();
        assert_eq!(out, format!("1110001100{}000\n", bits), "dest {}", dest);
    }
}

#[test]
fn every_jump_mnemonic_encodes_to_its_pattern() {
    let cases = [
        ("null", "000"),
        ("JGT", "001"),
        ("JEQ", "010"),
        ("JGE", "011"),
        ("JLT", "100"),
        ("JNE", "101"),
        ("JLE", "110"),
        ("JMP", "111"),
    ];
    for (jump, bits) in cases {
        let out = assemble(vec![format!("D;{}", jump)]).unwrap();
        assert_eq!(out, format!("1110001100000{}\n", bits), "jump {}", jump);
    }
}

#[test]
fn assembly_runs_are_deterministic() {
    let source = &["@start", "(start)", "D=M;JNE", "@start", "0;JMP"];
    let first = assemble(strings(source)).unwrap();
    let second = assemble(strings(source)).unwrap();
    assert_eq!(first, second);
}
