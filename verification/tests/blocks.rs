use vm_translator::assembly::{render, render_label, render_line, Asm, Comp, Dest, Jump, Label, Reg};
use vm_translator::instruction::{LineParsing, Mnemonic, Segment, TranslateError};
use vm_translator::text::split_line;
use vm_translator::translate::{
    join_blocks, translate_line, translate_source, translate_unit, LabelAllocator,
};

fn instruction(line: &str, n: u64) -> LineParsing {
    LineParsing::new(split_line(line), n, "Test".to_string()).unwrap()
}

fn block(line: &str) -> String {
    instruction(line, 1).parse().unwrap()
}

fn declared_labels(text: &str) -> Vec<String> {
    let mut found = Vec::new();
    for line in text.split('\n') {
        if line.starts_with('(') {
            found.push(line.to_string());
        }
    }
    found
}

#[test]
fn line_test0() {
    let tmp = Vec::from(["push", "static", "1"]);
    let c = LineParsing::new(tmp, 1, "Test".to_string()).unwrap().push().unwrap();
    // A static variable is reached under its unit's name; the text below is
    // what pushing the constant 1 gives.
    let e = "@1
D=A
@SP
A=M
M=D
@SP
M=M+1".to_string();
    assert_ne!(c, e);
    assert_eq!(c, "@Test.1\nD=M\n@SP\nA=M\nM=D\n@SP\nM=M+1");
    let tmp = Vec::from(["push", "constant", "1"]);
    let c = LineParsing::new(tmp, 1, "Test".to_string()).unwrap().push().unwrap();
    assert_eq!(c, e);
}

#[test]
fn line_test1() {
    let tmp = Vec::from(["pop", "local", "1"]);
    let c = LineParsing::new(tmp, 1, "Test".to_string()).unwrap().pop().unwrap();
    // The text below reads the segment and never writes it: it is no pop.
    let e = "@1
D=A
@LCL
A=D+M
D=M
@SP
M=M-1
A=M
M=D".to_string();
    assert_ne!(c, e);
    assert_eq!(c, "@1\nD=A\n@LCL\nD=D+M\n@R13\nM=D\n@SP\nAM=M-1\nD=M\n@R13\nA=M\nM=D");
}

#[test]
fn integration_tesst0() {
    let line = "pop local 1";
    let c = LineParsing::new(split_line(line), 1, "Test".to_string()).unwrap().parse().unwrap();
    let e = "@1
D=A
@LCL
A=D+M
D=M
@SP
M=M-1
A=M
M=D".to_string();
    assert_ne!(c, e);
    assert_eq!(c, "@1\nD=A\n@LCL\nD=D+M\n@R13\nM=D\n@SP\nAM=M-1\nD=M\n@R13\nA=M\nM=D");
}

#[test]
fn renderer_writes_each_kind_of_line() {
    assert_eq!(render_line(&Asm::AtNum(17)), "@17");
    assert_eq!(render_line(&Asm::AtReg(Reg::Sp)), "@SP");
    assert_eq!(render_line(&Asm::AtReg(Reg::R14)), "@R14");
    assert_eq!(render_line(&Asm::AtTemp(5)), "@R5");
    assert_eq!(render_line(&Asm::AtStatic("Main".to_string(), 3)), "@Main.3");
    assert_eq!(render_line(&Asm::AtLabel(Label::True(4))), "@true4");
    assert_eq!(render_line(&Asm::Declare(Label::End(40))), "(end40)");
    assert_eq!(render_line(&Asm::Declare(Label::Named("LOOP".to_string()))), "(LOOP)");
    assert_eq!(render_line(&Asm::Assign(Dest::AM, Comp::MMinusOne)), "AM=M-1");
    assert_eq!(render_line(&Asm::Assign(Dest::D, Comp::DOrM)), "D=D|M");
    assert_eq!(render_line(&Asm::Branch(Comp::Zero, Jump::Jmp)), "0;JMP");
    assert_eq!(render_label(&Label::Return(123)), "ret123");
    assert_eq!(render(&vec![]), "");
    assert_eq!(render(&vec![Asm::AtNum(1)]), "@1");
    assert_eq!(
        render(&vec![Asm::AtNum(1), Asm::Assign(Dest::D, Comp::A), Asm::Branch(Comp::D, Jump::Jne)]),
        "@1\nD=A\nD;JNE"
    );
}

#[test]
fn arithmetic_blocks() {
    assert_eq!(block("add"), "@SP\nAM=M-1\nD=M\nA=A-1\nM=D+M");
    assert_eq!(block("sub"), "@SP\nAM=M-1\nD=M\nA=A-1\nM=M-D");
    assert_eq!(block("and"), "@SP\nAM=M-1\nD=M\nA=A-1\nM=D&M");
    assert_eq!(block("or"), "@SP\nAM=M-1\nD=M\nA=A-1\nM=D|M");
    assert_eq!(block("neg"), "@SP\nA=M-1\nM=-M");
    assert_eq!(block("not"), "@SP\nA=M-1\nM=!M");
    assert_eq!(instruction("add", 1).arithmitic(), block("add"));
    assert_eq!(instruction("goto X", 1).arithmitic(), "");
}

#[test]
fn comparison_blocks_carry_the_sequence_number() {
    let eq = instruction("eq", 9).parse().unwrap();
    assert_eq!(
        eq,
        "@SP\nAM=M-1\nD=M\nA=A-1\nD=M-D\n@true9\nD;JEQ\n@SP\nA=M-1\nM=0\n@end9\nD;JMP\n(true9)\n@SP\nA=M-1\nM=-1\n(end9)"
    );
    let lt = instruction("lt", 10).parse().unwrap();
    assert_eq!(lt, eq.replace("JEQ", "JLT").replace("9", "10"));
    let gt = instruction("gt", 11).parse().unwrap();
    assert_eq!(gt, eq.replace("JEQ", "JGT").replace("9", "11"));
}

#[test]
fn push_blocks() {
    assert_eq!(block("push constant 7"), "@7\nD=A\n@SP\nA=M\nM=D\n@SP\nM=M+1");
    assert_eq!(
        block("push local 2"),
        "@2\nD=A\n@LCL\nA=M\nA=D+A\nD=M\n@SP\nA=M\nM=D\n@SP\nM=M+1"
    );
    assert_eq!(block("push argument 0"), block("push local 0").replace("LCL", "ARG"));
    assert_eq!(block("push this 2"), block("push local 2").replace("LCL", "THIS"));
    assert_eq!(block("push that 2"), block("push local 2").replace("LCL", "THAT"));
    assert_eq!(block("push temp 3"), "@R8\nD=M\n@SP\nA=M\nM=D\n@SP\nM=M+1");
    assert_eq!(block("push temp 0"), "@R5\nD=M\n@SP\nA=M\nM=D\n@SP\nM=M+1");
    assert_eq!(block("push pointer 0"), "@THIS\nD=M\n@SP\nA=M\nM=D\n@SP\nM=M+1");
    assert_eq!(block("push pointer 1"), "@THAT\nD=M\n@SP\nA=M\nM=D\n@SP\nM=M+1");
    assert_eq!(block("push static 4"), "@Test.4\nD=M\n@SP\nA=M\nM=D\n@SP\nM=M+1");
}

#[test]
fn pop_blocks() {
    assert_eq!(
        block("pop argument 3"),
        "@3\nD=A\n@ARG\nD=D+M\n@R13\nM=D\n@SP\nAM=M-1\nD=M\n@R13\nA=M\nM=D"
    );
    assert_eq!(block("pop this 3"), block("pop argument 3").replace("ARG", "THIS"));
    assert_eq!(block("pop that 3"), block("pop argument 3").replace("ARG", "THAT"));
    assert_eq!(block("pop temp 7"), "@SP\nAM=M-1\nD=M\n@R12\nM=D");
    assert_eq!(block("pop pointer 0"), "@SP\nAM=M-1\nD=M\n@THIS\nM=D");
    assert_eq!(block("pop pointer 1"), "@SP\nAM=M-1\nD=M\n@THAT\nM=D");
    assert_eq!(block("pop static 0"), "@SP\nAM=M-1\nD=M\n@Test.0\nM=D");
}

#[test]
fn pop_constant_is_refused() {
    for offset in ["0", "1", "17", "2147483647"] {
        let i = LineParsing::new(vec!["pop", "constant", offset], 1, "Test".to_string()).unwrap();
        assert_eq!(i.parse(), Err(TranslateError::IllegalPopTarget));
        assert_eq!(i.pop(), Err(TranslateError::IllegalPopTarget));
    }
    assert_eq!(translate_line("pop constant 3", 1, "Test"), Err(TranslateError::IllegalPopTarget));
}

#[test]
fn pointer_takes_zero_and_one_only() {
    assert_eq!(instruction("push pointer 2", 1).parse(), Err(TranslateError::InvalidPointerIndex));
    assert_eq!(instruction("pop pointer 2", 1).parse(), Err(TranslateError::InvalidPointerIndex));
    assert_eq!(
        instruction("pop pointer 2147483647", 1).pop_pointer(),
        Err(TranslateError::InvalidPointerIndex)
    );
    assert_eq!(
        instruction("push pointer 5", 1).push_pointer(),
        Err(TranslateError::InvalidPointerIndex)
    );
}

#[test]
fn missing_segment_is_reported() {
    let mut i = instruction("push local 1", 1);
    i.segment = None;
    assert_eq!(i.parse(), Err(TranslateError::MissingSegment));
    i.mnemonic = Mnemonic::Pop;
    assert_eq!(i.parse(), Err(TranslateError::MissingSegment));
    i.segment = Some(Segment::Temp);
    assert_eq!(i.parse().unwrap(), "@SP\nAM=M-1\nD=M\n@R6\nM=D");
}

#[test]
fn branch_blocks() {
    assert_eq!(block("label LOOP"), "(LOOP)");
    assert_eq!(block("goto LOOP"), "@LOOP\n0;JMP");
    assert_eq!(block("if-goto LOOP"), "@SP\nAM=M-1\nD=M\n@LOOP\nD;JNE");
    assert_eq!(instruction("goto END", 1).branching(), "@END\n0;JMP");
}

#[test]
fn function_blocks() {
    assert_eq!(block("function Foo 0"), "(Foo)");
    assert_eq!(
        block("function Foo 2"),
        "(Foo)\n@SP\nA=M\nM=0\n@SP\nM=M+1\n@SP\nA=M\nM=0\n@SP\nM=M+1"
    );
    assert_eq!(instruction("function Foo 1", 1).function_parse(), "(Foo)\n@SP\nA=M\nM=0\n@SP\nM=M+1");
}

#[test]
fn call_saves_the_frame_and_return_restores_it() {
    let save = |r: &str| format!("@{r}\nD=M\n@SP\nA=M\nM=D\n@SP\nM=M+1");
    let call = instruction("call Foo 3", 6).parse().unwrap();
    let expected = [
        "@ret6\nD=A\n@SP\nA=M\nM=D\n@SP\nM=M+1".to_string(),
        save("LCL"),
        save("ARG"),
        save("THIS"),
        save("THAT"),
        "@5\nD=A\n@SP\nD=M-D\n@3\nD=D-A\n@ARG\nM=D".to_string(),
        "@SP\nD=M\n@LCL\nM=D".to_string(),
        "@Foo\n0;JMP\n(ret6)".to_string(),
    ]
    .join("\n");
    assert_eq!(call, expected);
    assert_eq!(call.matches("M=M+1").count(), 5);

    let restore = |r: &str| format!("@R13\nAM=M-1\nD=M\n@{r}\nM=D");
    let ret = block("return");
    let expected = [
        "@LCL\nD=M\n@R13\nM=D".to_string(),
        "@5\nA=D-A\nD=M\n@R14\nM=D".to_string(),
        "@SP\nAM=M-1\nD=M\n@ARG\nA=M\nM=D".to_string(),
        "@ARG\nD=M+1\n@SP\nM=D".to_string(),
        restore("THAT"),
        restore("THIS"),
        restore("ARG"),
        restore("LCL"),
        "@R14\nA=M\n0;JMP".to_string(),
    ]
    .join("\n");
    assert_eq!(ret, expected);
    assert_eq!(instruction("return", 1).function_return(), ret);
}

#[test]
fn generated_labels_never_collide() {
    let lines = vec![
        "push constant 1", "push constant 2", "eq", "push constant 3", "lt", "call Foo 1", "gt",
        "call Foo 1", "eq", "eq", "// nothing", "call Bar 0", "lt",
    ];
    let mut labels = LabelAllocator::new();
    let first = translate_unit(&lines, "One", &mut labels).unwrap();
    let second = translate_unit(&lines, "Two", &mut labels).unwrap();
    assert_eq!(first.len(), 12);
    assert_eq!(labels.last, 24);
    let mut declared = Vec::new();
    for b in first.iter().chain(second.iter()) {
        declared.extend(declared_labels(b));
    }
    assert_eq!(declared.len(), 2 * (6 * 2 + 3));
    let mut unique = declared.clone();
    unique.sort();
    unique.dedup();
    assert_eq!(unique.len(), declared.len());
}

#[test]
fn static_variables_live_under_the_unit_name() {
    let lines = vec!["push constant 7", "pop static 0", "push static 0"];
    let mut labels = LabelAllocator::new();
    let blocks = translate_unit(&lines, "Test", &mut labels).unwrap();
    assert_eq!(blocks.len(), 3);
    assert_eq!(blocks[1], "@SP\nAM=M-1\nD=M\n@Test.0\nM=D");
    assert_eq!(blocks[2], "@Test.0\nD=M\n@SP\nA=M\nM=D\n@SP\nM=M+1");
    let mut labels = LabelAllocator::new();
    let other = translate_unit(&lines, "Other", &mut labels).unwrap();
    assert!(other[1].contains("@Other.0\n"));
    assert!(!other[1].contains("@Test.0"));
}

#[test]
fn translate_unit_numbers_instructions_and_stops_at_errors() {
    let lines = vec!["// header", "", "eq // first", "   ", "lt"];
    let mut labels = LabelAllocator::new();
    let blocks = translate_unit(&lines, "Test", &mut labels).unwrap();
    assert_eq!(blocks.len(), 2);
    assert!(blocks[0].ends_with("(end1)"));
    assert!(blocks[1].ends_with("(end2)"));
    assert_eq!(labels.last, 2);
    assert_eq!(labels.mint(), 3);

    let mut labels = LabelAllocator::new();
    let bad = vec!["add", "// two comes next", "pop constant 1", "frobnicate"];
    assert_eq!(translate_unit(&bad, "Test", &mut labels), Err(TranslateError::IllegalPopTarget));
    assert_eq!(labels.last, 2);
    let bad = vec!["frobnicate", "pop constant 1"];
    assert_eq!(translate_unit(&bad, "Test", &mut labels), Err(TranslateError::UnsupportedInstruction));
    assert_eq!(labels.last, 3);
    assert_eq!(translate_unit(&vec![], "Test", &mut labels), Ok(vec![]));
    assert_eq!(translate_line("push temp 1", 1, "Test").unwrap(), "@R6\nD=M\n@SP\nA=M\nM=D\n@SP\nM=M+1");
}

#[test]
fn translate_source_splits_translates_and_joins() {
    let source = "// Adds two numbers\npush constant 7 // seven\n\n  push constant 5\nadd\n";
    let mut labels = LabelAllocator::new();
    let text = translate_source(source, "Test", &mut labels).unwrap();
    assert_eq!(
        text,
        "@7\nD=A\n@SP\nA=M\nM=D\n@SP\nM=M+1\n@5\nD=A\n@SP\nA=M\nM=D\n@SP\nM=M+1\n@SP\nAM=M-1\nD=M\nA=A-1\nM=D+M"
    );
    assert_eq!(labels.last, 3);
    assert_eq!(translate_source("", "Test", &mut labels), Ok(String::new()));
    assert_eq!(translate_source("eq", "Test", &mut labels).unwrap().lines().last(), Some("(end4)"));
    assert_eq!(
        translate_source("add\nsub\npush nowhere 1\nadd", "Test", &mut labels),
        Err(TranslateError::UnsupportedSegment)
    );
    assert_eq!(labels.last, 7);
    assert_eq!(join_blocks(&vec![]), "");
    assert_eq!(join_blocks(&vec!["@1".to_string()]), "@1");
    assert_eq!(join_blocks(&vec!["@1".to_string(), "D=A\nD;JGT".to_string()]), "@1\nD=A\nD;JGT");
}
