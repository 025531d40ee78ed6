use vm_translator::code_writer::{translate, CodeWriterClass};
use vm_translator::parser::ParserClass;
use vm_translator::prelude::{List, CommandList, State, TranslateError};
use vm_translator::u64_to_string;

fn run_unit(unit: &str, source: &[&str]) -> Vec<String> {
    let mut parser = ParserClass::new(source.iter().map(|s| s.to_string()).collect());
    let mut writer = CodeWriterClass::new(unit.to_string());
    translate(&mut parser, &mut writer).unwrap();
    writer.output
}

#[test]
fn push_constant_then_pop_temp_addresses_cell_seven() {
    // `pop temp 2` must resolve to the fixed temp base (cell 5) plus 2
    let blocks = run_unit("Main", &["push constant 7", "pop temp 2"]);
    assert_eq!(blocks.len(), 2);
    assert_eq!(
        blocks[0],
        "// push constant 7\n@7\nD=A\n@SP\nA=M\nM=D\n@SP\nM=M+1\n"
    );
    assert_eq!(blocks[1], "// pop temp 2\n@SP\nM=M-1\nA=M\nD=M\n@7\nM=D\n");
}

#[test]
fn static_cells_are_unit_qualified() {
    // the same numeric index in two translation units gives two distinct
    // qualified symbols
    let a = run_unit("FileA", &["push static 4"]);
    let b = run_unit("FileB", &["push static 4"]);
    assert!(a[0].contains("@FileA.4\n"));
    assert!(b[0].contains("@FileB.4\n"));
    assert!(!a[0].contains("@FileB.4\n"));
    let c = run_unit("FileA", &["pop static 5"]);
    assert_eq!(c[0], "// pop static 5\n@SP\nM=M-1\nA=M\nD=M\n@FileA.5\nM=D\n");
}

#[test]
fn function_declaration_initializes_locals_in_order() {
    let blocks = run_unit("Main", &["function Foo.bar 3"]);
    assert_eq!(blocks.len(), 1);
    let expected = "// function Foo.bar 3\n(Foo.bar)\n\
        @0\nD=A\n@LCL\nA=M+D\nM=0\n@SP\nM=M+1\n\
        @1\nD=A\n@LCL\nA=M+D\nM=0\n@SP\nM=M+1\n\
        @2\nD=A\n@LCL\nA=M+D\nM=0\n@SP\nM=M+1\n";
    assert_eq!(blocks[0], expected);
}

#[test]
fn function_declaration_with_no_locals_is_bare() {
    let blocks = run_unit("Main", &["function Foo.none 0"]);
    assert_eq!(blocks[0], "// function Foo.none 0\n(Foo.none)\n");
}

#[test]
fn comparison_labels_are_pairwise_distinct() {
    // three comparison sites consume three distinct counter values
    let blocks = run_unit("Main", &["eq", "gt", "lt"]);
    assert!(blocks[0].contains("@CON_TRUE_0\n"));
    assert!(blocks[0].contains("(CON_FINISH_0)\n"));
    assert!(blocks[0].contains("D;JEQ\n"));
    assert!(blocks[1].contains("@CON_TRUE_1\n"));
    assert!(blocks[1].contains("D;JGT\n"));
    assert!(blocks[2].contains("@CON_TRUE_2\n"));
    assert!(blocks[2].contains("D;JLT\n"));
    assert!(!blocks[1].contains("CON_TRUE_0"));
    assert!(!blocks[2].contains("CON_TRUE_1"));
}

#[test]
fn call_labels_are_pairwise_distinct() {
    let blocks = run_unit("Main", &["call Foo.bar 0", "call Foo.bar 0", "call Other.f 1"]);
    assert!(blocks[0].contains("@Foo.bar.ret.1\n"));
    assert!(blocks[0].contains("(Foo.bar.ret.1)\n"));
    assert!(blocks[1].contains("@Foo.bar.ret.2\n"));
    assert!(blocks[2].contains("@Other.f.ret.3\n"));
    assert!(!blocks[1].contains("Foo.bar.ret.1)"));
}

#[test]
fn arithmetic_templates() {
    let blocks = run_unit("Main", &["add", "sub", "neg", "and", "or", "not"]);
    assert_eq!(
        blocks[0],
        "// add\n@SP\nM=M-1\nA=M\nD=M\n@SP\nM=M-1\nA=M\nM=M+D\n@SP\nM=M+1\n"
    );
    assert!(blocks[1].contains("M=M-D\n"));
    assert_eq!(blocks[2], "// neg\n@SP\nM=M-1\nA=M\nM=-M\n@SP\nM=M+1\n");
    assert!(blocks[3].contains("M=M&D\n"));
    assert!(blocks[4].contains("M=M|D\n"));
    assert!(blocks[5].contains("M=!M\n"));
}

#[test]
fn internal_push_pop_restores_base_pointer() {
    // the template displaces the base pointer and must subtract the same
    // offset at the end
    let blocks = run_unit("Main", &["push local 2", "pop argument 3"]);
    assert_eq!(
        blocks[0],
        "// push local 2\n@2\nD=A\n@LCL\nM=M+D\nA=M\nD=M\n@SP\nA=M\nM=D\n@SP\nM=M+1\n@2\nD=A\n@LCL\nM=M-D\n"
    );
    assert_eq!(
        blocks[1],
        "// pop argument 3\n@3\nD=A\n@ARG\nM=M+D\n@SP\nM=M-1\nA=M\nD=M\n@ARG\nA=M\nM=D\n@3\nD=A\n@ARG\nM=M-D\n"
    );
}

#[test]
fn pointer_segment_names_this_and_that() {
    let blocks = run_unit("Main", &["push pointer 0", "pop pointer 1"]);
    assert_eq!(blocks[0], "// push pointer 0\n@THIS\nD=M\n@SP\nA=M\nM=D\n@SP\nM=M+1\n");
    assert_eq!(blocks[1], "// pop pointer 1\n@SP\nM=M-1\nA=M\nD=M\n@THAT\nM=D\n");
}

#[test]
fn branch_labels_are_function_scoped() {
    let blocks = run_unit(
        "Main",
        &["function Foo.bar 0", "label LOOP", "goto LOOP", "if-goto LOOP"],
    );
    assert_eq!(blocks[1], "// label LOOP\n(Foo.bar$LOOP)\n");
    assert_eq!(blocks[2], "// goto LOOP\n@Foo.bar$LOOP\n0;JMP\n");
    assert_eq!(
        blocks[3],
        "// if-goto LOOP\n@SP\nM=M-1\nA=M\nD=M\n@Foo.bar$LOOP\nD;JNE\n"
    );
}

#[test]
fn branch_outside_any_function_is_unscoped() {
    let blocks = run_unit("Main", &["label TOP", "goto TOP"]);
    assert_eq!(blocks[0], "// label TOP\n(TOP)\n");
    assert_eq!(blocks[1], "// goto TOP\n@TOP\n0;JMP\n");
}

#[test]
fn return_template_restores_frame() {
    let blocks = run_unit("Main", &["return"]);
    let b = &blocks[0];
    assert!(b.starts_with("// return\n@LCL\nD=M\n@R13\nM=D\n"));
    assert!(b.contains("@R14\nM=D\n"));
    assert!(b.contains("@THAT\nM=D\n"));
    assert!(b.contains("@THIS\nM=D\n"));
    assert!(b.contains("@ARG\nM=D\n"));
    assert!(b.ends_with("@R14\nA=M\n0;JMP\n"));
}

#[test]
fn bootstrap_is_emitted_once_up_front() {
    let mut writer = CodeWriterClass::new("Main".to_string());
    writer.write_init();
    assert_eq!(writer.output.len(), 1);
    let b = &writer.output[0];
    assert!(b.starts_with("// bootstrap\n@256\nD=A\n@SP\nM=D\n"));
    assert!(b.contains("@Sys.init\n0;JMP\n"));
    assert!(b.contains("(Sys.init.ret.0)\n"));
    assert!(b.ends_with("(HALT)\n@HALT\n0;JMP\n"));
    // ordinary call sites start counting above the bootstrap's label
    assert_eq!(writer.state.call, 1);
}

#[test]
fn pop_constant_is_rejected() {
    let mut parser = ParserClass::new(vec!["pop constant 7".to_string()]);
    let mut writer = CodeWriterClass::new("Main".to_string());
    let r = translate(&mut parser, &mut writer);
    assert!(matches!(r, Err(TranslateError::PopConstant(line)) if line == "pop constant 7"));
    assert_eq!(writer.output.len(), 0);
}

#[test]
fn malformed_line_aborts_translation() {
    let mut parser = ParserClass::new(vec![
        "push constant 1".to_string(),
        "push constant oops".to_string(),
        "push constant 2".to_string(),
    ]);
    let mut writer = CodeWriterClass::new("Main".to_string());
    let r = translate(&mut parser, &mut writer);
    assert!(matches!(r, Err(TranslateError::BadNumber(_))));
    // the block before the fatal line was already emitted, nothing after
    assert_eq!(writer.output.len(), 1);
}

#[test]
fn empty_input_emits_nothing() {
    let blocks = run_unit("Main", &["// only a comment", "", "   "]);
    assert_eq!(blocks.len(), 0);
}

#[test]
fn unrecognized_lines_are_skipped() {
    let blocks = run_unit("Main", &["frobnicate", "add"]);
    assert_eq!(blocks.len(), 1);
    assert!(blocks[0].starts_with("// add\n"));
}

#[test]
fn counters_span_translation_units() {
    // one emitter across two units: labels keep rising, statics requalify
    let mut writer = CodeWriterClass::new("UnitA".to_string());
    let mut parser = ParserClass::new(vec!["eq".to_string(), "push static 0".to_string()]);
    translate(&mut parser, &mut writer).unwrap();
    writer.file_name = "UnitB".to_string();
    let mut parser2 = ParserClass::new(vec!["eq".to_string(), "push static 0".to_string()]);
    translate(&mut parser2, &mut writer).unwrap();
    assert!(writer.output[0].contains("CON_TRUE_0"));
    assert!(writer.output[1].contains("@UnitA.0\n"));
    assert!(writer.output[2].contains("CON_TRUE_1"));
    assert!(writer.output[3].contains("@UnitB.0\n"));
}

#[test]
fn decimal_rendering() {
    assert_eq!(u64_to_string(0), "0");
    assert_eq!(u64_to_string(7), "7");
    assert_eq!(u64_to_string(10), "10");
    assert_eq!(u64_to_string(65535), "65535");
    assert_eq!(u64_to_string(18446744073709551615), "18446744073709551615");
}

#[test]
fn state_counters() {
    let mut state = State::new();
    assert_eq!(state.get_logical(), "0");
    assert_eq!(state.get_function(), "1");
    state.inc_logical();
    state.inc_logical();
    state.inc_function();
    assert_eq!(state.get_logical(), "2");
    assert_eq!(state.get_function(), "2");
}

#[test]
fn list_membership() {
    let list = List::new(vec!["add".to_string(), "sub".to_string()]);
    assert!(list.is_exist(&"add".to_string()));
    assert!(list.is_exist(&"sub".to_string()));
    assert!(!list.is_exist(&"neg".to_string()));
}

#[test]
fn command_list_lookup() {
    let table = CommandList::new(vec![
        ("push".to_string(), "@SP".to_string()),
        ("pop".to_string(), "@SP\nM=M-1".to_string()),
        ("push".to_string(), "@SP\nA=M".to_string()),
    ]);
    // the later entry for a repeated key shadows the earlier one
    assert_eq!(table.get(&"push".to_string()).as_str(), "@SP\nA=M");
    assert_eq!(table.get(&"pop".to_string()).as_str(), "@SP\nM=M-1");
}
