use vm_translator::parser::{classify_line, strip_comment_exec, trim_exec, tokenize, ParserClass};
use vm_translator::prelude::{
    ArithOp, BranchKind, Command, Direction, ExternalName, FunctionKind, InternalName, Segment,
    TranslateError,
};

#[test]
fn classify_arithmetic_ops() {
    let cases = [
        ("add", ArithOp::Add),
        ("sub", ArithOp::Sub),
        ("neg", ArithOp::Neg),
        ("eq", ArithOp::CmpEq),
        ("gt", ArithOp::CmpGt),
        ("lt", ArithOp::CmpLt),
        ("and", ArithOp::AndOp),
        ("or", ArithOp::OrOp),
        ("not", ArithOp::NotOp),
    ];
    for (text, op) in cases {
        let r = classify_line(text);
        assert!(matches!(r, Ok(Some(Command::Arithmetic(got))) if got == op));
    }
}

#[test]
fn classify_push_pop() {
    let r = classify_line("push constant 7");
    assert!(
        matches!(r, Ok(Some(Command::PushPop(Direction::Push, Segment::External(ExternalName::Constant), 7))))
    );
    let r = classify_line("pop local 3");
    assert!(
        matches!(r, Ok(Some(Command::PushPop(Direction::Pop, Segment::Internal(InternalName::Local), 3))))
    );
    let r = classify_line("push argument 0");
    assert!(
        matches!(r, Ok(Some(Command::PushPop(Direction::Push, Segment::Internal(InternalName::Argument), 0))))
    );
    let r = classify_line("pop that 12");
    assert!(
        matches!(r, Ok(Some(Command::PushPop(Direction::Pop, Segment::Internal(InternalName::That), 12))))
    );
    let r = classify_line("push pointer 1");
    assert!(
        matches!(r, Ok(Some(Command::PushPop(Direction::Push, Segment::External(ExternalName::Pointer), 1))))
    );
}

#[test]
fn classify_is_case_insensitive() {
    let r = classify_line("PUSH Constant 7");
    assert!(
        matches!(r, Ok(Some(Command::PushPop(Direction::Push, Segment::External(ExternalName::Constant), 7))))
    );
    let r = classify_line("ADD");
    assert!(matches!(r, Ok(Some(Command::Arithmetic(ArithOp::Add)))));
}

#[test]
fn classify_branch_and_function() {
    let r = classify_line("label LOOP");
    assert!(matches!(r, Ok(Some(Command::Branch(BranchKind::Label, l))) if l == "LOOP"));
    let r = classify_line("goto END");
    assert!(matches!(r, Ok(Some(Command::Branch(BranchKind::Goto, l))) if l == "END"));
    let r = classify_line("if-goto LOOP");
    assert!(matches!(r, Ok(Some(Command::Branch(BranchKind::IfGoto, l))) if l == "LOOP"));
    let r = classify_line("function Foo.bar 3");
    assert!(
        matches!(r, Ok(Some(Command::Function(FunctionKind::Declare(n, 3)))) if n == "Foo.bar")
    );
    let r = classify_line("call Foo.bar 2");
    assert!(matches!(r, Ok(Some(Command::Function(FunctionKind::Call(n, 2)))) if n == "Foo.bar"));
    let r = classify_line("return");
    assert!(matches!(r, Ok(Some(Command::Function(FunctionKind::Return)))));
}

#[test]
fn classify_blank_comment_and_unknown() {
    assert!(matches!(classify_line(""), Ok(None)));
    assert!(matches!(classify_line("   \t "), Ok(None)));
    assert!(matches!(classify_line("// just a comment"), Ok(None)));
    assert!(matches!(classify_line("frobnicate 3 4"), Ok(None)));
}

#[test]
fn classify_strips_comment_suffix() {
    let r = classify_line("push static 1 //test");
    assert!(
        matches!(r, Ok(Some(Command::PushPop(Direction::Push, Segment::External(ExternalName::Static), 1))))
    );
}

#[test]
fn classify_missing_field_is_fatal() {
    assert!(matches!(classify_line("push constant"), Err(TranslateError::MissingField(_))));
    assert!(matches!(classify_line("label"), Err(TranslateError::MissingField(_))));
    assert!(matches!(classify_line("function Foo.bar"), Err(TranslateError::MissingField(_))));
}

#[test]
fn classify_bad_number_is_fatal() {
    assert!(matches!(classify_line("push constant x"), Err(TranslateError::BadNumber(_))));
    assert!(matches!(classify_line("pop temp -1"), Err(TranslateError::BadNumber(_))));
    assert!(matches!(classify_line("call Foo.bar many"), Err(TranslateError::BadNumber(_))));
    assert!(
        matches!(classify_line("push constant 99999999999999"), Err(TranslateError::BadNumber(_)))
    );
}

#[test]
fn classify_bad_segment_is_fatal() {
    let r = classify_line("push heap 3");
    assert!(matches!(r, Err(TranslateError::BadSegment(line)) if line == "push heap 3"));
}

#[test]
fn classification_is_deterministic() {
    // the same line text, classified through independent calls, yields
    // identical results
    let texts = ["push constant 7", "add", "label LOOP", "function Foo.bar 3", "junk"];
    for text in texts {
        let a = classify_line(text);
        let b = classify_line(text);
        match (a, b) {
            (Ok(x), Ok(y)) => assert!(x == y),
            (Err(_), Err(_)) => {},
            _ => panic!("classification changed between calls"),
        }
    }
}

#[test]
fn tokenize_splits_on_whitespace() {
    let toks = tokenize("  push   constant\t7 ");
    assert_eq!(toks.len(), 3);
    assert_eq!(toks[0], "push");
    assert_eq!(toks[1], "constant");
    assert_eq!(toks[2], "7");
}

#[test]
fn strip_and_trim() {
    assert_eq!(strip_comment_exec("push constant 7 // seven"), "push constant 7 ");
    assert_eq!(strip_comment_exec("// all comment"), "");
    assert_eq!(strip_comment_exec("no comment"), "no comment");
    assert_eq!(trim_exec("  spaced out \t"), "spaced out");
}

#[test]
fn parser_walks_content_lines() {
    let lines: Vec<String> = vec![
        "// test".to_string(),
        "push static 1 //test".to_string(),
        "pop temp 2".to_string(),
        "".to_string(),
        "add ".to_string(),
    ];
    let mut parser = ParserClass::new(lines);
    assert_eq!(parser.has_more_commands().unwrap(), true);
    assert_eq!(parser.current_command, "push static 1");
    assert!(
        matches!(&parser.command, Some(Command::PushPop(Direction::Push, Segment::External(ExternalName::Static), 1)))
    );
    assert!(
        matches!(parser.segment_type(), Some(Segment::External(ExternalName::Static)))
    );
    assert_eq!(parser.index(), Some(1));
    assert_eq!(parser.arg1().unwrap(), "static");
    assert_eq!(parser.arg2(), Some(1));

    assert_eq!(parser.has_more_commands().unwrap(), true);
    assert!(
        matches!(&parser.command, Some(Command::PushPop(Direction::Pop, Segment::External(ExternalName::Temp), 2)))
    );
    assert_eq!(parser.arg2(), Some(2));

    assert_eq!(parser.has_more_commands().unwrap(), true);
    assert!(matches!(&parser.command, Some(Command::Arithmetic(ArithOp::Add))));
    assert_eq!(parser.arg1().unwrap(), "add");
    assert_eq!(parser.arg2(), None);

    assert_eq!(parser.has_more_commands().unwrap(), false);
}

#[test]
fn parser_empty_input_has_nothing() {
    // an input of only blank and comment lines yields false immediately
    let lines: Vec<String> = vec![
        "".to_string(),
        "   ".to_string(),
        "// a remark".to_string(),
        "\t// another".to_string(),
    ];
    let mut parser = ParserClass::new(lines);
    assert_eq!(parser.has_more_commands().unwrap(), false);
    let mut empty = ParserClass::new(Vec::new());
    assert_eq!(empty.has_more_commands().unwrap(), false);
}

#[test]
fn command_type_reclassifies_current_line() {
    let lines: Vec<String> = vec!["push constant 7".to_string()];
    let mut parser = ParserClass::new(lines);
    assert_eq!(parser.has_more_commands().unwrap(), true);
    let again = parser.command_type().unwrap();
    assert!(
        matches!(again, Some(Command::PushPop(Direction::Push, Segment::External(ExternalName::Constant), 7)))
    );
}

#[test]
fn classify_index_boundaries() {
    let r = classify_line("push constant 4294967295");
    assert!(matches!(r, Ok(Some(Command::PushPop(_, _, 4294967295)))));
    // one past the largest representable index is malformed
    let r = classify_line("push constant 4294967296");
    assert!(matches!(r, Err(TranslateError::BadNumber(_))));
    let r = classify_line("push constant 0");
    assert!(matches!(r, Ok(Some(Command::PushPop(_, _, 0)))));
}

#[test]
fn parser_reports_first_broken_line() {
    let lines: Vec<String> = vec![
        "// fine so far".to_string(),
        "push nowhere 3".to_string(),
        "add".to_string(),
    ];
    let mut parser = ParserClass::new(lines);
    let r = parser.has_more_commands();
    assert!(matches!(r, Err(TranslateError::BadSegment(line)) if line == "push nowhere 3"));
}
