//! Proved statements about the toolchain: determinism of compilation, the
//! store-growth behaviour of `SelectVar`, tag preservation under `SetVar`,
//! loop activation and re-entry, where conditional jumps land, what `Print`
//! flushes, and the fatality of division faults.

use vstd::prelude::*;

use crate::compile::spec_compile;
use crate::instr::Instr;
use crate::labels::{labels_ok, label_id_below, label_slot_ok, no_label_between};
use crate::token::lex;
use crate::var::VarModel;
use crate::vm::{
    byte_char, compare, flush_from, grown, jump_target, print_count, read_int, spec_step,
    Outcome, VmError, VmModel,
};

verus! {

/// Compilation is deterministic: identical byte input yields the identical
/// instruction sequence, there being no state outside the input.
pub proof fn lemma_compile_deterministic(a: Seq<u8>, b: Seq<u8>)
    requires
        a == b,
    ensures
        spec_compile(lex(a)) == spec_compile(lex(b)),
{
}

/// Selecting index `k` on an empty store grows it to length `k + 1`, every
/// slot Integer 0, and focuses slot `k`.
pub proof fn lemma_select_grows_empty_store(m: VmModel, k: i32, mode: i32)
    requires
        m.vars.len() == 0,
        k >= 0,
        m.pc < m.prog.len(),
        m.prog[m.pc as int] == Instr::SelectVar(k, mode),
    ensures
        spec_step(m).1 == Outcome::Running,
        spec_step(m).0.vars.len() == k + 1,
        forall|i: int| 0 <= i <= k ==> spec_step(m).0.vars[i] == VarModel::Int(0),
        spec_step(m).0.selected == k as usize,
        spec_step(m).0.rewrite == mode,
{
    assert(grown(m.vars, k as int) =~= Seq::new((k + 1) as nat, |i: int| VarModel::Int(0)));
}

/// Under rewrite mode 0 a `SetVar` preserves the focused slot's tag: an
/// Integer slot is overwritten with Integer `value`, a Text slot gains
/// exactly one character, and no other slot moves.
pub proof fn lemma_set_var_rewrite_none_preserves_tag(m: VmModel, value: i32)
    requires
        m.rewrite == 0,
        m.pc < m.prog.len(),
        m.prog[m.pc as int] == Instr::SetVar(value),
        m.selected < m.vars.len(),
    ensures
        spec_step(m).1 == Outcome::Running,
        m.vars[m.selected as int] is Int ==> spec_step(m).0.vars[m.selected as int]
            == VarModel::Int(value),
        m.vars[m.selected as int] is Text ==> spec_step(m).0.vars[m.selected as int]
            == VarModel::Text(m.vars[m.selected as int]->Text_0.push(byte_char(value))),
        m.vars[m.selected as int] is Text ==> spec_step(m).0.vars[m.selected as int]->Text_0.len()
            == m.vars[m.selected as int]->Text_0.len() + 1,
        forall|j: int|
            0 <= j < m.vars.len() && j != m.selected ==> spec_step(m).0.vars[j] == m.vars[j],
{
}

/// A `Loop` reached with no loop active activates one: the iterator starts
/// at `start`, the frame records this position, and execution falls into the
/// body whatever `start` and `end` hold.
pub proof fn lemma_loop_activation(m: VmModel, start: i32, kind: char, end: i32)
    requires
        m.pc < m.prog.len(),
        m.prog.len() <= usize::MAX,
        m.prog[m.pc as int] == Instr::Loop(start, kind, end),
        m.loop_origin is None,
    ensures
        spec_step(m).1 == Outcome::Running,
        spec_step(m).0.iterator == start,
        spec_step(m).0.loop_origin == Some(m.pc),
        spec_step(m).0.pc == m.pc + 1,
{
}

/// A `Loop` reached with a loop active advances the iterator by one and
/// deactivates the frame exactly when the iterator reaches `end`.
pub proof fn lemma_loop_reentry(m: VmModel, start: i32, kind: char, end: i32)
    requires
        m.pc < m.prog.len(),
        m.prog.len() <= usize::MAX,
        m.prog[m.pc as int] == Instr::Loop(start, kind, end),
        m.loop_origin is Some,
        kind == '+',
        m.iterator < i32::MAX,
    ensures
        spec_step(m).1 == Outcome::Running,
        spec_step(m).0.iterator == m.iterator + 1,
        spec_step(m).0.loop_origin is None <==> m.iterator + 1 >= end,
        spec_step(m).0.pc == m.pc + 1,
{
}

/// No instruction but `Loop` and `LoopEnd` touches the loop frame: a step
/// of any other instruction that keeps running leaves the frame and the
/// iterator as they stood.
pub proof fn lemma_other_steps_keep_loop_frame(m: VmModel)
    requires
        m.pc < m.prog.len(),
        !(m.prog[m.pc as int] is Loop),
        !(m.prog[m.pc as int] is LoopEnd),
        spec_step(m).1 == Outcome::Running,
    ensures
        spec_step(m).0.loop_origin == m.loop_origin,
        spec_step(m).0.iterator == m.iterator,
{
}

/// A `LoopEnd` with a loop active rewinds execution to the `Loop`
/// instruction; with none it falls through.
pub proof fn lemma_loop_end(m: VmModel)
    requires
        m.pc < m.prog.len(),
        m.prog.len() <= usize::MAX,
        m.prog[m.pc as int] == Instr::LoopEnd,
    ensures
        spec_step(m).1 == Outcome::Running,
        m.loop_origin is Some ==> spec_step(m).0.pc == m.loop_origin->0,
        m.loop_origin is None ==> spec_step(m).0.pc == m.pc + 1,
{
}

/// A taken conditional jump lands exactly at the recorded position of the
/// last `Label` carrying its identifier; with no such `Label` in the
/// program, it sets the program counter to the end of the program and
/// changes nothing else, exactly as `Exit` does.
pub proof fn lemma_conditional_jump(m: VmModel, lhs: i32, op: i32, rhs: i32, id: i32)
    requires
        m.pc < m.prog.len(),
        m.prog.len() <= usize::MAX,
        m.prog[m.pc as int] == Instr::Conditional(lhs, op, rhs, id),
        labels_ok(m.labels, m.prog),
        ({
            let lv = if (op & 8) == 8 {
                Ok(lhs)
            } else {
                read_int(m.vars, lhs, VmError::ConditionalOnText)
            };
            let rv = if (op & 4) == 4 {
                Ok(rhs)
            } else {
                read_int(m.vars, rhs, VmError::ConditionalOnText)
            };
            lv is Ok && rv is Ok && compare(op & 3, lv->Ok_0, rv->Ok_0)
        }),
    ensures
        spec_step(m).1 == Outcome::Running,
        spec_step(m).0 == (VmModel { pc: jump_target(m, id), ..m }),
        (id >= 0 && (exists|p: int| 0 <= p < m.prog.len() && m.prog[p] == Instr::Label(id)))
            ==> (spec_step(m).0.pc < m.prog.len() && m.prog[spec_step(m).0.pc as int]
            == Instr::Label(id) && no_label_between(
            m.prog,
            id,
            spec_step(m).0.pc + 1,
            m.prog.len() as int,
        )),
        (id < 0 || (forall|p: int| 0 <= p < m.prog.len() ==> m.prog[p] != Instr::Label(id)))
            ==> spec_step(m).0.pc == m.prog.len(),
{
    if id >= 0 && (exists|p: int| 0 <= p < m.prog.len() && m.prog[p] == Instr::Label(id)) {
        let p = choose|p: int| 0 <= p < m.prog.len() && m.prog[p] == Instr::Label(id);
        assert(label_id_below(m.prog[p], m.labels.len() as int));
        assert(label_slot_ok(m.labels, m.prog, m.prog.len() as int, id as int));
        assert(m.labels[id as int] != m.prog.len());
    }
    if id >= 0 && id < m.labels.len() && (forall|p: int|
        0 <= p < m.prog.len() ==> m.prog[p] != Instr::Label(id)) {
        assert(label_slot_ok(m.labels, m.prog, m.prog.len() as int, id as int));
        if m.labels[id as int] < m.prog.len() {
            assert(m.prog[m.labels[id as int] as int] == Instr::Label(id));
        }
    }
}

/// A `Label` is a no-op at execution time: its work was consumed by the
/// label index pre-pass, and stepping it only moves past it.
pub proof fn lemma_label_is_no_op(m: VmModel, id: i32)
    requires
        m.pc < m.prog.len(),
        m.prog.len() <= usize::MAX,
        m.prog[m.pc as int] == Instr::Label(id),
    ensures
        spec_step(m).1 == Outcome::Running,
        spec_step(m).0 == (VmModel { pc: (m.pc + 1) as usize, ..m }),
{
}

/// An `Exit` sets the program counter to the end of the program, changing
/// nothing else; the next step reports the halt.
pub proof fn lemma_exit_halts(m: VmModel)
    requires
        m.pc < m.prog.len(),
        m.prog.len() <= usize::MAX,
        m.prog[m.pc as int] == Instr::Exit,
    ensures
        spec_step(m).1 == Outcome::Running,
        spec_step(m).0 == (VmModel { pc: m.prog.len() as usize, ..m }),
        spec_step(spec_step(m).0).1 == Outcome::Halted,
        spec_step(spec_step(m).0).0 == spec_step(m).0,
{
}

/// A `Print` flushes its items in insertion order — the whole buffer when
/// the count is zero — and clears the buffer whatever the count was.
pub proof fn lemma_print_flushes_and_clears(m: VmModel, count: i32)
    requires
        m.pc < m.prog.len(),
        m.prog[m.pc as int] == Instr::Print(count),
        flush_from(
            m.printing.take(print_count(count, m.printing.len() as int)),
            m.vars,
            0,
        ) is Ok,
    ensures
        spec_step(m).1 == Outcome::Running,
        spec_step(m).0.printing == Seq::<i32>::empty(),
        spec_step(m).0.output == m.output + flush_from(
            m.printing.take(print_count(count, m.printing.len() as int)),
            m.vars,
            0,
        )->Ok_0 + seq!['\n'],
        count == 0 ==> spec_step(m).0.output == m.output + flush_from(m.printing, m.vars, 0)->Ok_0
            + seq!['\n'],
{
    if count == 0 {
        assert(m.printing.take(m.printing.len() as int) =~= m.printing);
    }
}

/// A division whose divisor resolves to zero is fatal in every variant: the
/// machine fails with the division fault and its state stands unchanged —
/// the result is neither coerced to zero nor skipped.
pub proof fn lemma_division_by_zero_is_fatal(m: VmModel, lhs: i32, op: char, rhs: i32)
    requires
        m.pc < m.prog.len(),
        m.prog[m.pc as int] == Instr::Math(lhs, op, rhs),
        (op == '\\' && read_int(m.vars, rhs, VmError::MathOnText) == Ok::<i32, VmError>(0)) || (op
            == '|' && rhs == 0 && read_int(m.vars, lhs, VmError::MathOnText) is Ok) || (op == '/'
            && read_int(m.vars, lhs, VmError::MathOnText) is Ok && read_int(
            m.vars,
            rhs,
            VmError::MathOnText,
        ) == Ok::<i32, VmError>(0)),
    ensures
        spec_step(m).1 == Outcome::Failed(VmError::DivisionFault),
        spec_step(m).0 == m,
{
}

} // verus!
