use cascade_vm::compile::compile;
use cascade_vm::instr::Instr;
use cascade_vm::labels::build_labels;
use cascade_vm::token::tokenize;
use cascade_vm::var::Var;
use cascade_vm::vm::{Outcome, Vm, VmError};

fn run_src(src: &str) -> (Vm, Outcome) {
    let prog = compile(&tokenize(&src.as_bytes().to_vec())).unwrap();
    let mut vm = Vm::new(prog);
    let o = vm.run(1_000_000);
    (vm, o)
}

#[test]
fn label_index_defaults_and_overwrites() {
    let prog = vec![
        Instr::Label(2),
        Instr::Exit,
        Instr::Label(0),
        Instr::Label(0),
    ];
    let labels = build_labels(&prog);
    // Slot 1 was never set: it defaults to the end of the program.
    assert_eq!(labels, vec![3, 4, 0]);
}

#[test]
fn select_grows_empty_store() {
    let mut vm = Vm::new(vec![Instr::SelectVar(3, 0)]);
    assert_eq!(vm.step(), Outcome::Running);
    assert_eq!(vm.vars.len(), 4);
    for v in &vm.vars {
        assert_eq!(*v, Var::Integer(0));
    }
    assert_eq!(vm.selected, 3);
}

#[test]
fn set_var_keeps_integer_tag() {
    let (vm, o) = run_src(
        "background-position: 0 0\nbackground-color: 65\nbackground-color: 66\n",
    );
    assert_eq!(o, Outcome::Halted);
    assert_eq!(vm.vars[0], Var::Integer(66));
}

#[test]
fn set_var_appends_to_text_tag() {
    // Force the text tag with rewrite mode 2, then append under mode 0.
    let (vm, o) = run_src(
        "background-position: 0 2\nbackground-color: 104\n\
         background-position: 0 0\nbackground-color: 105\n\
         background-position: 0 0\nbackground-color: 33\n",
    );
    assert_eq!(o, Outcome::Halted);
    assert_eq!(vm.vars[0], Var::Str(String::from("hi!")));
    assert_eq!(vm.vars[0].clone().as_string(), Some(String::from("hi!")));
    assert_eq!(vm.vars[0].clone().as_int(), None);
}

#[test]
fn rewrite_mode_resets_after_set_var() {
    let (vm, o) = run_src(
        "background-position: 0 1\nbackground-color: 7\nbackground-color: 8\n",
    );
    assert_eq!(o, Outcome::Halted);
    // The second SetVar saw mode 0 again over an Integer slot.
    assert_eq!(vm.vars[0], Var::Integer(8));
}

#[test]
fn loop_body_runs_three_times_before_deactivation() {
    let prog = vec![
        Instr::SelectVar(0, 0),
        Instr::Loop(0, '+', 3),
        Instr::Math(0, '=', 1),
        Instr::LoopEnd,
    ];
    let mut vm = Vm::new(prog);
    assert_eq!(vm.step(), Outcome::Running); // SelectVar
    let mut active_visits: Vec<i32> = Vec::new();
    loop {
        assert_eq!(vm.pc, 1);
        assert_eq!(vm.step(), Outcome::Running); // Loop
        if vm.loop_origin.is_some() {
            active_visits.push(vm.iterator);
        } else {
            break;
        }
        assert_eq!(vm.step(), Outcome::Running); // body
        assert_eq!(vm.step(), Outcome::Running); // LoopEnd rewinds
    }
    // The body ran under an active frame exactly three times.
    assert_eq!(active_visits, vec![0, 1, 2]);
    assert_eq!(vm.iterator, 3);
}

#[test]
fn conditional_jump_lands_on_label_position() {
    let prog = vec![
        Instr::Conditional(0, 12, 1, 0), // literal 0 != literal 1: taken
        Instr::AddCharToPrint(33),
        Instr::Label(0),
        Instr::Exit,
    ];
    let mut vm = Vm::new(prog);
    assert_eq!(vm.step(), Outcome::Running);
    assert_eq!(vm.pc, 2); // exactly the Label instruction's position
    assert_eq!(vm.step(), Outcome::Running); // Label is a no-op
    assert_eq!(vm.pc, 3);
}

#[test]
fn jump_to_unset_label_behaves_like_exit() {
    let prog = vec![
        Instr::Conditional(0, 12, 1, 9),
        Instr::AddCharToPrint(33),
        Instr::Label(0),
    ];
    let mut vm = Vm::new(prog);
    assert_eq!(vm.step(), Outcome::Running);
    assert!(vm.is_halted());
    assert_eq!(vm.step(), Outcome::Halted);
}

#[test]
fn conditional_comparisons_and_flags() {
    // Variable lhs (no bit 3), literal rhs (bit 4), less-than (code 2).
    let src = "background-position: 0 1\nbackground-color: 2\n\
               margin: 0 6 5 0\nword-wrap: x\nopacity: 0\npadding-left: 33\npadding-top: 0\n";
    let (mut vm, o) = run_src(src);
    // vars[0] = 2 < 5: jump to the label, skipping Exit, printing "!".
    assert_eq!(o, Outcome::Halted);
    assert_eq!(vm.take_output(), "!\n");
}

#[test]
fn print_zero_flushes_all_in_order_and_clears() {
    let prog = vec![
        Instr::SelectVar(0, 1),
        Instr::SetVar(7),
        Instr::AddToPrint(0),
        Instr::AddCharToPrint(33),
        Instr::Print(0),
    ];
    let mut vm = Vm::new(prog);
    let o = vm.run(100);
    assert_eq!(o, Outcome::Halted);
    assert_eq!(vm.take_output(), "7 !\n");
    assert!(vm.printing.is_empty());
}

#[test]
fn print_count_flushes_prefix_but_clears_everything() {
    let prog = vec![
        Instr::SelectVar(0, 1),
        Instr::SetVar(7),
        Instr::AddToPrint(0),
        Instr::AddCharToPrint(33),
        Instr::Print(1),
        Instr::AddCharToPrint(63),
        Instr::Print(0),
    ];
    let mut vm = Vm::new(prog);
    let o = vm.run(100);
    assert_eq!(o, Outcome::Halted);
    // The first Print flushed one item yet cleared the whole buffer.
    assert_eq!(vm.take_output(), "7 \n?\n");
}

#[test]
fn print_count_beyond_queue_flushes_all() {
    let prog = vec![Instr::AddCharToPrint(72), Instr::AddCharToPrint(105), Instr::Print(9)];
    let mut vm = Vm::new(prog);
    let o = vm.run(100);
    assert_eq!(o, Outcome::Halted);
    assert_eq!(vm.take_output(), "Hi\n");
}

#[test]
fn print_renders_negative_integers() {
    let prog = vec![Instr::SelectVar(0, 1), Instr::SetVar(-123), Instr::AddToPrint(0), Instr::Print(0)];
    let mut vm = Vm::new(prog);
    let o = vm.run(100);
    assert_eq!(o, Outcome::Halted);
    assert_eq!(vm.take_output(), "-123 \n");
}

#[test]
fn add_var_char_print_reads_char_code() {
    let prog = vec![
        Instr::SelectVar(0, 1),
        Instr::SetVar(72),
        Instr::AddVarCharPrint(0),
        Instr::Print(0),
    ];
    let mut vm = Vm::new(prog);
    let o = vm.run(100);
    assert_eq!(o, Outcome::Halted);
    assert_eq!(vm.take_output(), "H\n");
}

#[test]
fn division_by_zero_is_fatal_in_each_variant() {
    for op in ['|', '/', '\\'] {
        let prog = vec![
            Instr::SelectVar(1, 0),
            Instr::Math(0, op, if op == '\\' { 1 } else { 0 }),
        ];
        let mut vm = Vm::new(prog);
        let o = vm.run(100);
        assert_eq!(o, Outcome::Failed(VmError::DivisionFault));
        // Not coerced to zero, not skipped: the machine stopped at the fault.
        assert_eq!(vm.pc, 1);
        assert_eq!(vm.vars[0], Var::Integer(0));
    }
}

#[test]
fn division_of_variables_computes_quotient() {
    let (mut vm, o) = run_src(
        "background-position: 0 0\nbackground-color: 7\n\
         background-position: 1 0\nbackground-color: 2\n\
         background-position: 2 0\nborder: 0 outset 1\n\
         padding-right: 2\npadding-top: 0\n",
    );
    assert_eq!(o, Outcome::Halted);
    assert_eq!(vm.take_output(), "3 \n");
}

#[test]
fn division_truncates_toward_zero() {
    let prog = vec![
        Instr::SelectVar(0, 1),
        Instr::SetVar(-7),
        Instr::SelectVar(1, 1),
        Instr::SetVar(2),
        Instr::SelectVar(2, 0),
        Instr::Math(0, '/', 1),
        Instr::AddToPrint(2),
        Instr::Print(0),
    ];
    let mut vm = Vm::new(prog);
    let o = vm.run(100);
    assert_eq!(o, Outcome::Halted);
    assert_eq!(vm.take_output(), "-3 \n");
}

#[test]
fn math_on_text_variable_is_fatal() {
    let (_, o) = run_src(
        "background-position: 0 2\nbackground-color: 104\nborder: 0 dashed 1\n",
    );
    assert_eq!(o, Outcome::Failed(VmError::MathOnText));
}

#[test]
fn char_print_of_text_variable_is_fatal() {
    let (_, o) = run_src(
        "background-position: 0 2\nbackground-color: 104\npadding-bottom: 0\n",
    );
    assert_eq!(o, Outcome::Failed(VmError::CharOfText));
}

#[test]
fn conditional_on_text_variable_is_fatal() {
    let (_, o) = run_src(
        "background-position: 0 2\nbackground-color: 104\nmargin: 0 4 1 0\n",
    );
    assert_eq!(o, Outcome::Failed(VmError::ConditionalOnText));
}

#[test]
fn unknown_loop_kind_is_fatal_on_reentry() {
    let (_, o) = run_src("outline: 0 dashed 3\noverflow: x\n");
    assert_eq!(o, Outcome::Failed(VmError::BadLoopKind));
}

#[test]
fn unknown_math_operator_is_fatal() {
    let (_, o) = run_src("background-position: 0 0\nborder: 0 bogus 1\n");
    assert_eq!(o, Outcome::Failed(VmError::BadMathOp));
}

#[test]
fn unselected_variable_read_is_fatal() {
    let (_, o) = run_src("background-color: 65\n");
    assert_eq!(o, Outcome::Failed(VmError::VarOutOfRange));
}

#[test]
fn out_of_range_print_item_is_fatal() {
    let (_, o) = run_src("padding-right: 5\npadding-top: 0\n");
    assert_eq!(o, Outcome::Failed(VmError::VarOutOfRange));
}

#[test]
fn fault_messages() {
    assert_eq!(VmError::MathOnText.message(), "Cannot do math with string variable");
    assert_eq!(VmError::CharOfText.message(), "Cannot convert string variable to character");
    assert_eq!(VmError::ConditionalOnText.message(), "Cannot do conditional with string");
    assert_eq!(VmError::BadLoopKind.message(), "Loop requires valid loop type");
    assert_eq!(VmError::BadMathOp.message(), "Found unknown math operator");
    assert_eq!(VmError::BadPrompt.message(), "Prompt must be a valid variable");
}

#[test]
fn user_input_stores_stripped_line() {
    let prog = vec![Instr::SelectVar(0, 0), Instr::UserInput(false, 0)];
    let mut vm = Vm::new(prog);
    assert_eq!(vm.run(100), Outcome::NeedInput);
    assert_eq!(vm.provide_input(String::from("hello\n")), Outcome::Running);
    assert_eq!(vm.vars[0], Var::Str(String::from("hello")));
    assert_eq!(vm.run(100), Outcome::Halted);
}

#[test]
fn user_input_prompt_renders_without_newline() {
    let prog = vec![
        Instr::SelectVar(0, 1),
        Instr::SetVar(42),
        Instr::UserInput(true, 0),
    ];
    let mut vm = Vm::new(prog);
    assert_eq!(vm.run(100), Outcome::NeedInput);
    assert_eq!(vm.take_output(), "42");
    assert_eq!(vm.provide_input(String::from("x")), Outcome::Running);
    assert_eq!(vm.vars[0], Var::Str(String::from("x")));
}

#[test]
fn user_input_without_live_focus_is_fatal() {
    let prog = vec![Instr::UserInput(false, 0)];
    let mut vm = Vm::new(prog);
    assert_eq!(vm.run(100), Outcome::NeedInput);
    assert_eq!(
        vm.provide_input(String::from("x\n")),
        Outcome::Failed(VmError::VarOutOfRange)
    );
}

#[test]
fn user_input_prompt_out_of_range_is_fatal() {
    let prog = vec![Instr::UserInput(true, 3)];
    let mut vm = Vm::new(prog);
    assert_eq!(vm.run(100), Outcome::Failed(VmError::BadPrompt));
}

#[test]
fn take_output_clears_the_buffer() {
    let prog = vec![Instr::AddCharToPrint(65), Instr::Print(0)];
    let mut vm = Vm::new(prog);
    vm.run(100);
    assert_eq!(vm.take_output(), "A\n");
    assert_eq!(vm.take_output(), "");
}

#[test]
fn char_code_wraps_to_low_byte() {
    let prog = vec![Instr::AddCharToPrint(321), Instr::Print(0)];
    let mut vm = Vm::new(prog);
    let o = vm.run(100);
    assert_eq!(o, Outcome::Halted);
    // 321 wraps to byte 65.
    assert_eq!(vm.take_output(), "A\n");
}

#[test]
fn text_append_reads_byte_as_character() {
    let (vm, o) = run_src("background-position: 0 2\nbackground-color: 233\n");
    assert_eq!(o, Outcome::Halted);
    assert_eq!(vm.vars[0], Var::Str(String::from("\u{e9}")));
}

#[test]
fn prints_smallest_integer() {
    let prog = vec![
        Instr::SelectVar(0, 1),
        Instr::SetVar(i32::MIN),
        Instr::AddToPrint(0),
        Instr::Print(0),
    ];
    let mut vm = Vm::new(prog);
    let o = vm.run(100);
    assert_eq!(o, Outcome::Halted);
    assert_eq!(vm.take_output(), "-2147483648 \n");
}

#[test]
fn exit_halts_without_fault() {
    let (mut vm, o) = run_src("word-wrap: x\npadding-left: 33\npadding-top: 0\n");
    assert_eq!(o, Outcome::Halted);
    assert_eq!(vm.take_output(), "");
}

#[test]
fn run_reports_running_when_fuel_runs_out() {
    // A loop with no way out: the machine keeps running, never faulting.
    let prog = vec![Instr::Label(0), Instr::Conditional(0, 12, 1, 0)];
    let mut vm = Vm::new(prog);
    assert_eq!(vm.run(1000), Outcome::Running);
}

#[test]
fn accumulating_loop_prints_its_sum_once() {
    let src = "background-position: 0 0\n\
               outline: 1 solid 4\n\
               border: 0 dashed 2\n\
               overflow: x\n\
               padding-right: 0\n\
               padding-top: 0\n";
    let (mut vm, o) = run_src(src);
    assert_eq!(o, Outcome::Halted);
    assert_eq!(vm.take_output(), "8 \n");
}
