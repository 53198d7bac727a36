use hack_translator::codegen::{convert_to_asm, format_arithmetic, unique_label, VmError};
use hack_translator::vm::{parse_line, parser, CommandType};

#[test]
fn parse_line_recognizes_every_command() {
    assert!(matches!(
        parse_line("push constant 7"),
        Some(CommandType::Push(seg, 7)) if seg == "constant"
    ));
    assert!(matches!(
        parse_line("pop local 2"),
        Some(CommandType::Pop(seg, 2)) if seg == "local"
    ));
    assert!(matches!(
        parse_line("label LOOP"),
        Some(CommandType::Label(l)) if l == "LOOP"
    ));
    assert!(matches!(
        parse_line("goto LOOP"),
        Some(CommandType::Goto(l)) if l == "LOOP"
    ));
    assert!(matches!(
        parse_line("if-goto LOOP"),
        Some(CommandType::If(l)) if l == "LOOP"
    ));
    assert!(matches!(
        parse_line("function mult 2"),
        Some(CommandType::Function(f, 2)) if f == "mult"
    ));
    assert!(matches!(
        parse_line("call mult 3"),
        Some(CommandType::Call(f, 3)) if f == "mult"
    ));
    assert!(matches!(parse_line("return"), Some(CommandType::Return)));
    assert!(matches!(
        parse_line("add"),
        Some(CommandType::Arithmetic(op)) if op == "add"
    ));
    assert!(matches!(
        parse_line("not"),
        Some(CommandType::Arithmetic(op)) if op == "not"
    ));
}

#[test]
fn parse_line_accepts_negative_index() {
    assert!(matches!(
        parse_line("push constant -3"),
        Some(CommandType::Push(seg, -3)) if seg == "constant"
    ));
}

#[test]
fn parse_line_skips_unrecognizable_lines() {
    assert!(parse_line("").is_none());
    assert!(parse_line("   ").is_none());
    assert!(parse_line("// a comment").is_none());
    assert!(parse_line("push constant").is_none());
    assert!(parse_line("push constant seven").is_none());
    assert!(parse_line("label").is_none());
    assert!(parse_line("add extra").is_none());
    assert!(parse_line("bogus").is_none());
    assert!(parse_line("return now").is_none());
}

#[test]
fn parser_collects_commands_in_order() {
    let cmds = parser("// program\npush constant 1\n\nadd\nmystery line\nreturn\n");
    assert_eq!(cmds.len(), 3);
    assert!(matches!(&cmds[0], CommandType::Push(seg, 1) if seg == "constant"));
    assert!(matches!(&cmds[1], CommandType::Arithmetic(op) if op == "add"));
    assert!(matches!(&cmds[2], CommandType::Return));
}

#[test]
fn format_arithmetic_add_is_exact() {
    let (text, counter) = format_arithmetic("add", 0).unwrap();
    assert_eq!(text, "@SP\nAM=M-1\nD=M\nA=A-1\nM=D+M\n");
    assert_eq!(counter, 0);
}

#[test]
fn format_arithmetic_neg_is_exact() {
    let (text, counter) = format_arithmetic("neg", 4).unwrap();
    assert_eq!(text, "@SP\nA=M-1\nM=-M\n");
    assert_eq!(counter, 4);
}

#[test]
fn format_arithmetic_eq_mints_a_label() {
    let (text, counter) = format_arithmetic("eq", 3).unwrap();
    assert_eq!(
        text,
        "@SP\nAM=M-1\nD=M\nA=A-1\nD=M-D\nM=-1\n@EQ3\nD;JEQ\n@SP\nA=M-1\nM=0\n(EQ3)\n"
    );
    assert_eq!(counter, 4);
}

#[test]
fn format_arithmetic_rejects_unknown_operation() {
    assert_eq!(format_arithmetic("mod", 0), Err(VmError::UnsupportedOperation));
}

#[test]
fn unique_label_appends_the_counter() {
    assert_eq!(unique_label("RETURN_LABEL", 5), "RETURN_LABEL5");
    assert_eq!(unique_label("EQ", 0), "EQ0");
}

#[test]
fn push_constant_text_is_exact() {
    let out = convert_to_asm(&[CommandType::Push("constant".to_string(), 7)]).unwrap();
    assert_eq!(out, "@7\nD=A\n@SP\nA=M\nM=D\n@SP\nM=M+1\n");
}

#[test]
fn push_local_text_is_exact() {
    let out = convert_to_asm(&[CommandType::Push("local".to_string(), 2)]).unwrap();
    assert_eq!(out, "@2\nD=A\n@LCL\nA=D+M\nD=M\n@SP\nA=M\nM=D\n@SP\nM=M+1\n");
}

#[test]
fn push_temp_uses_fixed_offset() {
    let out = convert_to_asm(&[CommandType::Push("temp".to_string(), 2)]).unwrap();
    assert_eq!(out, "@7\nD=M\n@SP\nA=M\nM=D\n@SP\nM=M+1\n");
}

#[test]
fn push_static_uses_namespaced_symbol() {
    let out = convert_to_asm(&[CommandType::Push("static".to_string(), 3)]).unwrap();
    assert_eq!(out, "@Foo.3\nD=M\n@SP\nA=M\nM=D\n@SP\nM=M+1\n");
}

#[test]
fn pointer_selects_this_or_that() {
    let zero = convert_to_asm(&[CommandType::Push("pointer".to_string(), 0)]).unwrap();
    assert_eq!(zero, "@THIS\nD=M\n@SP\nA=M\nM=D\n@SP\nM=M+1\n");
    let one = convert_to_asm(&[CommandType::Pop("pointer".to_string(), 1)]).unwrap();
    assert_eq!(one, "@SP\nAM=M-1\nD=M\n@THAT\nM=D\n");
}

#[test]
fn pop_argument_text_is_exact() {
    let out = convert_to_asm(&[CommandType::Pop("argument".to_string(), 1)]).unwrap();
    assert_eq!(
        out,
        "@1\nD=A\n@ARG\nD=D+M\n@R13\nM=D\n@SP\nAM=M-1\nD=M\n@R13\nA=M\nM=D\n"
    );
}

#[test]
fn control_flow_text_is_exact() {
    let out = convert_to_asm(&[
        CommandType::Label("LOOP".to_string()),
        CommandType::Goto("LOOP".to_string()),
        CommandType::If("LOOP".to_string()),
    ])
    .unwrap();
    assert_eq!(out, "(LOOP)\n@LOOP\n0;JMP\n@SP\nAM=M-1\nD=M\n@LOOP\nD;JNE\n");
}

#[test]
fn function_emits_label_and_zeroed_locals() {
    let out = convert_to_asm(&[CommandType::Function("mult".to_string(), 2)]).unwrap();
    assert_eq!(
        out,
        "(mult)\n@SP\nA=M\nM=0\n@SP\nM=M+1\n@SP\nA=M\nM=0\n@SP\nM=M+1\n"
    );
}

#[test]
fn call_saves_the_frame_in_order() {
    let out = convert_to_asm(&[CommandType::Call("mult".to_string(), 2)]).unwrap();
    let expected = "@RETURN_LABEL0\nD=A\n@SP\nA=M\nM=D\n@SP\nM=M+1\n\
                    @LCL\nD=M\n@SP\nA=M\nM=D\n@SP\nM=M+1\n\
                    @ARG\nD=M\n@SP\nA=M\nM=D\n@SP\nM=M+1\n\
                    @THIS\nD=M\n@SP\nA=M\nM=D\n@SP\nM=M+1\n\
                    @THAT\nD=M\n@SP\nA=M\nM=D\n@SP\nM=M+1\n\
                    @SP\nD=M\n@5\nD=D-A\n@2\nD=D-A\n@ARG\nM=D\n\
                    @SP\nD=M\n@LCL\nM=D\n@mult\n0;JMP\n(RETURN_LABEL0)\n";
    assert_eq!(out, expected);
}

#[test]
fn return_restores_the_frame_in_reverse() {
    let out = convert_to_asm(&[CommandType::Return]).unwrap();
    let expected = "@LCL\nD=M\n@R14\nM=D\n@5\nA=D-A\nD=M\n@R15\nM=D\n\
                    @SP\nA=M-1\nD=M\n@ARG\nA=M\nM=D\nD=A+1\n@SP\nM=D\n\
                    @R14\nAM=M-1\nD=M\n@THAT\nM=D\n\
                    @R14\nAM=M-1\nD=M\n@THIS\nM=D\n\
                    @R14\nAM=M-1\nD=M\n@ARG\nM=D\n\
                    @R14\nAM=M-1\nD=M\n@LCL\nM=D\n\
                    @R15\nA=M\n0;JMP\n";
    assert_eq!(out, expected);
}

#[test]
fn comparison_labels_stay_unique() {
    let out = convert_to_asm(&[
        CommandType::Arithmetic("eq".to_string()),
        CommandType::Arithmetic("eq".to_string()),
    ])
    .unwrap();
    assert!(out.contains("(EQ0)"));
    assert!(out.contains("(EQ1)"));
    assert!(!out.contains("(EQ2)"));
}

#[test]
fn pop_constant_is_fatal() {
    let r = convert_to_asm(&[CommandType::Pop("constant".to_string(), 0)]);
    assert_eq!(r, Err(VmError::UnsupportedSegment));
}

#[test]
fn unknown_segment_is_fatal() {
    let r = convert_to_asm(&[CommandType::Push("heap".to_string(), 0)]);
    assert_eq!(r, Err(VmError::UnsupportedSegment));
}

#[test]
fn unknown_operation_is_fatal() {
    let r = convert_to_asm(&[CommandType::Arithmetic("mod".to_string())]);
    assert_eq!(r, Err(VmError::UnsupportedOperation));
}

#[test]
fn translation_runs_are_independent_and_identical() {
    let source = "push constant 1\npush constant 2\neq\ncall f 0\nfunction f 0\nreturn\n";
    let first = convert_to_asm(&parser(source)).unwrap();
    let second = convert_to_asm(&parser(source)).unwrap();
    assert_eq!(first, second);
    assert!(first.contains("(EQ0)"));
    assert!(first.contains("(RETURN_LABEL1)"));
}
