use cascade_vm::compile::{compile, CompileError};
use cascade_vm::instr::Instr;
use cascade_vm::token::tokenize;

fn compile_src(src: &str) -> Result<Vec<Instr>, CompileError> {
    compile(&tokenize(&src.as_bytes().to_vec()))
}

#[test]
fn compiles_each_declaration() {
    let src = "background-position: 0 1\n\
               background-color: 65\n\
               outline: 1 solid 4\n\
               border: 0 dashed 2\n\
               padding-right: 0\n\
               padding-top: 0\n\
               overflow: x\n\
               padding-left: 33\n\
               padding-bottom: 0\n\
               margin: 0 12 1 0\n\
               opacity: 0\n\
               word-wrap: x\n\
               transition: all 0\n";
    let prog = compile_src(src).unwrap();
    assert_eq!(
        prog,
        vec![
            Instr::SelectVar(0, 1),
            Instr::SetVar(65),
            Instr::Loop(1, '+', 4),
            Instr::Math(0, '=', 2),
            Instr::AddToPrint(0),
            Instr::Print(0),
            Instr::LoopEnd,
            Instr::AddCharToPrint(33),
            Instr::AddVarCharPrint(0),
            Instr::Conditional(0, 12, 1, 0),
            Instr::Label(0),
            Instr::Exit,
            Instr::UserInput(true, 0),
        ]
    );
}

#[test]
fn compiling_twice_gives_identical_instructions() {
    let src = "background-position: 0 0\nborder: 0 solid 0\npadding-top: 0\n";
    let a = compile_src(src).unwrap();
    let b = compile_src(src).unwrap();
    assert_eq!(a, b);
}

#[test]
fn unknown_declaration_is_ignored() {
    let prog = compile_src("color: 1 2 3\n").unwrap();
    assert_eq!(prog, vec![]);
}

#[test]
fn deprecated_declaration_compiles_to_nothing() {
    let prog = compile_src("background-size: 1 2\n").unwrap();
    assert_eq!(prog, vec![]);
}

#[test]
fn math_operator_table() {
    let src = "border: 1 none 2\nborder: 1 hidden 2\nborder: 1 dotted 2\n\
               border: 1 dashed 2\nborder: 1 solid 2\nborder: 1 double 2\n\
               border: 1 groove 2\nborder: 1 ridge 2\nborder: 1 inset 2\n\
               border: 1 outset 2\n";
    let prog = compile_src(src).unwrap();
    let ops: Vec<char> = prog
        .iter()
        .map(|i| match i {
            Instr::Math(_, op, _) => *op,
            _ => panic!("expected a math instruction"),
        })
        .collect();
    assert_eq!(ops, vec!['_', '~', '-', '=', '+', '8', '*', '\\', '|', '/']);
}

#[test]
fn unknown_math_keyword_gives_sentinel() {
    let prog = compile_src("border: 1 bogus 2\n").unwrap();
    assert_eq!(prog, vec![Instr::Math(1, ' ', 2)]);
}

#[test]
fn unknown_loop_kind_gives_sentinel() {
    let prog = compile_src("outline: 0 dashed 3\n").unwrap();
    assert_eq!(prog, vec![Instr::Loop(0, ' ', 3)]);
}

#[test]
fn user_input_prompt_flag() {
    let prog = compile_src("transition: all 2\ntransition: none 3\n").unwrap();
    assert_eq!(prog, vec![Instr::UserInput(true, 2), Instr::UserInput(false, 3)]);
}

#[test]
fn select_var_arity_error() {
    assert_eq!(compile_src("background-position: 0\n"), Err(CompileError::SelectVarArgs));
}

#[test]
fn set_var_arity_error() {
    assert_eq!(compile_src("background-color:\n"), Err(CompileError::SetVarArgs));
}

#[test]
fn loop_arity_error() {
    assert_eq!(compile_src("outline: 1 solid\n"), Err(CompileError::LoopArgs));
}

#[test]
fn math_arity_error() {
    assert_eq!(compile_src("border: 1 solid\n"), Err(CompileError::MathArgs));
}

#[test]
fn add_to_print_arity_error() {
    assert_eq!(compile_src("padding-right:\n"), Err(CompileError::AddToPrintArgs));
}

#[test]
fn print_arity_error() {
    assert_eq!(compile_src("padding-top:\n"), Err(CompileError::PrintArgs));
}

#[test]
fn add_char_arity_error() {
    assert_eq!(compile_src("padding-left:\n"), Err(CompileError::AddCharToPrintArgs));
}

#[test]
fn add_var_char_arity_error() {
    assert_eq!(compile_src("padding-bottom:\n"), Err(CompileError::AddVarCharPrintArgs));
}

#[test]
fn conditional_arity_error() {
    assert_eq!(compile_src("margin: 0 1 2\n"), Err(CompileError::ConditionalArgs));
}

#[test]
fn label_arity_error() {
    assert_eq!(compile_src("opacity:\n"), Err(CompileError::LabelArgs));
}

#[test]
fn user_input_arity_error() {
    assert_eq!(compile_src("transition: all\n"), Err(CompileError::UserInputArgs));
}

#[test]
fn arity_error_messages() {
    assert_eq!(CompileError::SelectVarArgs.message(), "Expected two args for a select var");
    assert_eq!(CompileError::LoopArgs.message(), "Expected 3 args for loop");
    assert_eq!(CompileError::ConditionalArgs.message(), "Expected 4 args for conditional");
}

#[test]
fn later_declaration_name_overrides_pending() {
    // A second declaration name on the same line wins.
    let prog = compile_src("padding-top: padding-right: 3\n").unwrap();
    assert_eq!(prog, vec![Instr::AddToPrint(3)]);
}

#[test]
fn line_without_declaration_is_dropped() {
    let prog = compile_src("1 2 3\n\nword-wrap: x\n").unwrap();
    assert_eq!(prog, vec![Instr::Exit]);
}
