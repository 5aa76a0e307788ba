use vm_translator::instruction::{CommandType, LineParsing, Mnemonic, Segment, TranslateError};
use vm_translator::numeral::{decimal_string, parse_number, MAX_OPERAND};
use vm_translator::text::{
    clean_whitespace, is_space_char, isolate_filename, same_text, scan_for, split_line,
    split_range, trim_bounds,
};

fn classify(fields: &[&str]) -> Result<LineParsing, TranslateError> {
    LineParsing::new(fields.to_vec(), 1, "Test".to_string())
}

#[test]
fn split_line_push() {
    let c = split_line("push local 1");
    let e = ["push", "local", "1"];
    assert_eq!(c, e);
}

#[test]
fn split_line_arithmetic() {
    let c = split_line("add");
    let e = ["add"];
    assert_eq!(c, e);
}

#[test]
fn line_parsing_test0() {
    let tmp = Vec::from(["pop", "local", "1"]);
    let c = LineParsing::new(tmp, 1, "Test".to_string()).unwrap();
    let e = LineParsing {
        mnemonic: Mnemonic::Pop,
        segment: Some(Segment::Local),
        offset: Some(1),
        label_text: None,
        line_num: 1,
        file_name: "Test".to_string(),
    };
    assert_eq!(c, e);
    assert_eq!(c.ctype(), CommandType::Pop);
    assert!(c.parse().unwrap().contains("@LCL"));
}

#[test]
fn line_parsing_test1() {
    let tmp = Vec::from(["add"]);
    let c = LineParsing::new(tmp, 1, "Test".to_string()).unwrap();
    let e = LineParsing {
        mnemonic: Mnemonic::Add,
        segment: None,
        offset: None,
        label_text: None,
        line_num: 1,
        file_name: "Test".to_string(),
    };
    assert_eq!(c, e);
    assert_eq!(c.ctype(), CommandType::Arithmetic);
}

#[test]
fn split_line_trims_and_keeps_empty_fields() {
    assert_eq!(split_line("  push constant 7 \t"), ["push", "constant", "7"]);
    assert_eq!(split_line("push  local 1"), ["push", "", "local", "1"]);
    assert_eq!(split_line(""), [""]);
    assert_eq!(split_line("   "), [""]);
}

#[test]
fn clean_whitespace_strips_comments() {
    assert_eq!(clean_whitespace("push constant 1 // one"), Some("push constant 1"));
    assert_eq!(clean_whitespace("   add   "), Some("add"));
    assert_eq!(clean_whitespace("// only a comment"), None);
    assert_eq!(clean_whitespace("   "), None);
    assert_eq!(clean_whitespace(""), None);
    assert_eq!(clean_whitespace("a / b"), Some("a / b"));
    assert_eq!(clean_whitespace("a/"), Some("a/"));
    assert_eq!(clean_whitespace("\u{3000}neg\u{a0}//x//y"), Some("neg"));
}

#[test]
fn white_space_is_what_std_calls_white_space() {
    let mut n: u32 = 0;
    while n <= 0x3100 {
        if let Some(c) = char::from_u32(n) {
            assert_eq!(is_space_char(c), c.is_whitespace(), "{n:#x}");
        }
        n += 1;
    }
}

#[test]
fn isolate_filename_takes_the_stem() {
    assert_eq!(isolate_filename("resources/Test.vm"), "Test");
    assert_eq!(isolate_filename("Test.vm"), "Test");
    assert_eq!(isolate_filename("a/b/c/Main.tar.gz"), "Main");
    assert_eq!(isolate_filename("a.d/Plain"), "Plain");
    assert_eq!(isolate_filename("dir/"), "");
    assert_eq!(isolate_filename(""), "");
}

#[test]
fn decimal_string_writes_base_ten() {
    assert_eq!(decimal_string(0), "0");
    assert_eq!(decimal_string(7), "7");
    assert_eq!(decimal_string(10), "10");
    assert_eq!(decimal_string(32767), "32767");
    assert_eq!(decimal_string(u64::MAX), "18446744073709551615");
}

#[test]
fn parse_number_reads_numerals_only() {
    assert_eq!(parse_number("0"), Some(0));
    assert_eq!(parse_number("007"), Some(7));
    assert_eq!(parse_number("2147483647"), Some(MAX_OPERAND));
    assert_eq!(parse_number("2147483648"), None);
    assert_eq!(parse_number("99999999999999999999999999"), None);
    assert_eq!(parse_number(""), None);
    assert_eq!(parse_number("-1"), None);
    assert_eq!(parse_number("+1"), None);
    assert_eq!(parse_number("1a"), None);
    assert_eq!(parse_number("١"), None);
}

#[test]
fn same_text_compares_characters() {
    assert!(same_text("push", "push"));
    assert!(!same_text("push", "pusH"));
    assert!(!same_text("push", "pushh"));
    assert!(same_text("", ""));
}

#[test]
fn classifier_reads_every_family() {
    let c = classify(&["push", "constant", "7"]).unwrap();
    assert_eq!(c.ctype(), CommandType::Push);
    assert_eq!(c.segment, Some(Segment::Constant));
    assert_eq!(c.offset, Some(7));
    let c = classify(&["if-goto", "LOOP"]).unwrap();
    assert_eq!(c.mnemonic, Mnemonic::IfGoto);
    assert_eq!(c.ctype(), CommandType::Branching);
    assert_eq!(c.label_text, Some("LOOP".to_string()));
    assert_eq!(c.offset, None);
    let c = classify(&["function", "Foo.bar", "2"]).unwrap();
    assert_eq!(c.mnemonic, Mnemonic::Function);
    assert_eq!(c.label_text, Some("Foo.bar".to_string()));
    assert_eq!(c.offset, Some(2));
    let c = classify(&["call", "Foo.bar", "0"]).unwrap();
    assert_eq!(c.mnemonic, Mnemonic::Call);
    assert_eq!(c.ctype(), CommandType::Function);
    let c = classify(&["return"]).unwrap();
    assert_eq!(c.mnemonic, Mnemonic::Return);
    assert_eq!(c.label_text, None);
    assert_eq!(c.offset, None);
    let c = LineParsing::new(vec!["gt"], 12, "Main".to_string()).unwrap();
    assert_eq!(c.line_num, 12);
    assert_eq!(c.file_name, "Main");
}

#[test]
fn classifier_knows_every_mnemonic_and_segment() {
    let names = [
        ("add", Mnemonic::Add),
        ("sub", Mnemonic::Sub),
        ("neg", Mnemonic::Neg),
        ("eq", Mnemonic::Eq),
        ("lt", Mnemonic::Lt),
        ("gt", Mnemonic::Gt),
        ("and", Mnemonic::And),
        ("or", Mnemonic::Or),
        ("not", Mnemonic::Not),
        ("label", Mnemonic::Label),
        ("goto", Mnemonic::Goto),
        ("if-goto", Mnemonic::IfGoto),
        ("return", Mnemonic::Return),
    ];
    for (text, m) in names {
        assert_eq!(classify(&[text, "x", "1"]).unwrap().mnemonic, m);
    }
    let segments = [
        ("local", Segment::Local),
        ("argument", Segment::Argument),
        ("this", Segment::This),
        ("that", Segment::That),
        ("constant", Segment::Constant),
        ("static", Segment::Static),
        ("temp", Segment::Temp),
        ("pointer", Segment::Pointer),
    ];
    for (text, s) in segments {
        assert_eq!(classify(&["push", text, "1"]).unwrap().segment, Some(s));
    }
}

#[test]
fn classifier_reports_each_error() {
    assert_eq!(classify(&[]), Err(TranslateError::UnsupportedInstruction));
    assert_eq!(classify(&["mul"]), Err(TranslateError::UnsupportedInstruction));
    assert_eq!(classify(&[""]), Err(TranslateError::UnsupportedInstruction));
    assert_eq!(classify(&["Push", "local", "1"]), Err(TranslateError::UnsupportedInstruction));
    assert_eq!(classify(&["push", "heap", "1"]), Err(TranslateError::UnsupportedSegment));
    assert_eq!(classify(&["push"]), Err(TranslateError::UnsupportedSegment));
    assert_eq!(classify(&["pop", "heap", "x"]), Err(TranslateError::UnsupportedSegment));
    assert_eq!(classify(&["push", "local"]), Err(TranslateError::MalformedOperand));
    assert_eq!(classify(&["push", "local", "-1"]), Err(TranslateError::MalformedOperand));
    assert_eq!(classify(&["pop", "local", "one"]), Err(TranslateError::MalformedOperand));
    assert_eq!(classify(&["goto"]), Err(TranslateError::MalformedOperand));
    assert_eq!(classify(&["function", "Foo"]), Err(TranslateError::MalformedOperand));
    assert_eq!(classify(&["call", "Foo", "x"]), Err(TranslateError::MalformedOperand));
    assert_eq!(classify(&["call"]), Err(TranslateError::MalformedOperand));
}

#[test]
fn ranges_are_scanned_trimmed_and_split_by_character() {
    let s = "a,b é,,c ";
    assert_eq!(scan_for(s, 0, 9, ','), 1);
    assert_eq!(scan_for(s, 2, 9, ','), 5);
    assert_eq!(scan_for(s, 7, 9, ','), 9);
    assert_eq!(scan_for(s, 3, 3, ','), 3);
    assert_eq!(trim_bounds(s, 0, 9), (0, 8));
    assert_eq!(trim_bounds(s, 3, 5), (4, 5));
    assert_eq!(trim_bounds(" \t ", 0, 3), (3, 3));
    assert_eq!(split_range(s, 0, 9, ','), ["a", "b é", "", "c "]);
    assert_eq!(split_range(s, 2, 6, ','), ["b é", ""]);
    assert_eq!(split_range(s, 4, 4, ','), [""]);
    assert_eq!(split_range("one\ntwo\n", 0, 8, '\n'), ["one", "two", ""]);
}
