//! The virtual machine: executes the instruction sequence against a mutable
//! variable store, a print buffer and a single active loop frame, consulting
//! the label index for jumps.
//!
//! The program counter starts at 0 and moves one past each instruction unless
//! a transition overrides it; execution halts when it reaches the sequence
//! length. Faults are fatal: the machine reports the error and stops, leaving
//! its state as it stood. A variable index outside the store's bounds in any
//! read or write context, including a negative one, is such a fault; only
//! `SelectVar` grows the store. Console output accumulates in the machine's
//! output buffer; console input arrives through [`Vm::provide_input`] after a
//! step asks for it.

use vstd::prelude::*;
use vstd::pervasive::VecAdditionalExecFns;
use vstd::arithmetic::div_mod::lemma_mod_multiples_vanish;

use crate::instr::Instr;
use crate::labels::{build_labels, labels_ok};
use crate::text::push_char;
use crate::var::{render, render_variable, Var, VarModel, vars_view};

verus! {

/// A fatal run-time fault. None is recovered: the machine stops at once.
#[derive(Clone, Copy, PartialEq, Eq, Debug)]
pub enum VmError {
    /// A type error: arithmetic over a Text-tagged variable.
    MathOnText,
    /// A type error: a Text-tagged variable read as a character code.
    CharOfText,
    /// A type error: a conditional operand naming a Text-tagged variable.
    ConditionalOnText,
    /// A semantic error: an unrecognized loop step kind reaching execution.
    BadLoopKind,
    /// A semantic error: an unrecognized arithmetic operator reaching
    /// execution.
    BadMathOp,
    /// An operand range error: the prompt variable lies outside the store.
    BadPrompt,
    /// An operand range error: a variable index outside the store's bounds
    /// in a read or write context.
    VarOutOfRange,
    /// The native integer-division fault: a zero divisor, or the one
    /// quotient that overflows.
    DivisionFault,
}

/// The diagnostic text of a run-time fault.
pub open spec fn vm_error_text(e: VmError) -> Seq<char> {
    match e {
        VmError::MathOnText => "Cannot do math with string variable"@,
        VmError::CharOfText => "Cannot convert string variable to character"@,
        VmError::ConditionalOnText => "Cannot do conditional with string"@,
        VmError::BadLoopKind => "Loop requires valid loop type"@,
        VmError::BadMathOp => "Found unknown math operator"@,
        VmError::BadPrompt => "Prompt must be a valid variable"@,
        VmError::VarOutOfRange => "Variable index out of range"@,
        VmError::DivisionFault => "Division fault"@,
    }
}

impl VmError {
    /// The short description reported on the diagnostic stream.
    pub fn message(&self) -> (s: String)
        ensures
            s@ == vm_error_text(*self),
    {
        match self {
            VmError::MathOnText => String::from_str("Cannot do math with string variable"),
            VmError::CharOfText => String::from_str("Cannot convert string variable to character"),
            VmError::ConditionalOnText => String::from_str("Cannot do conditional with string"),
            VmError::BadLoopKind => String::from_str("Loop requires valid loop type"),
            VmError::BadMathOp => String::from_str("Found unknown math operator"),
            VmError::BadPrompt => String::from_str("Prompt must be a valid variable"),
            VmError::VarOutOfRange => String::from_str("Variable index out of range"),
            VmError::DivisionFault => String::from_str("Division fault"),
        }
    }
}

/// What one step of the machine reports.
#[derive(Clone, Copy, PartialEq, Eq, Debug)]
pub enum Outcome {
    /// The step ran and execution can continue.
    Running,
    /// The step reached a `UserInput` instruction: the machine waits for a
    /// line through [`Vm::provide_input`].
    NeedInput,
    /// The program counter stands past the last instruction.
    Halted,
    /// A fatal fault; the state is left as it stood before the step.
    Failed(VmError),
}

/// The mathematical shape of the machine.
#[verifier::ext_equal]
pub struct VmModel {
    pub prog: Seq<Instr>,
    pub labels: Seq<usize>,
    pub vars: Seq<VarModel>,
    pub selected: usize,
    pub rewrite: i32,
    pub loop_origin: Option<usize>,
    pub iterator: i32,
    pub printing: Seq<i32>,
    pub pc: usize,
    pub output: Seq<char>,
}

/// The character with the code of a value's low byte.
pub open spec fn byte_char(v: i32) -> char {
    (((v as int) % 256) as u8) as char
}

/// The store grown to include index `idx`, new slots filled with Integer 0.
pub open spec fn grown(vars: Seq<VarModel>, idx: int) -> Seq<VarModel> {
    if idx < vars.len() {
        vars
    } else {
        vars + Seq::new((idx + 1 - vars.len()) as nat, |k: int| VarModel::Int(0))
    }
}

/// The integer a variable read yields: the index must be a live slot and the
/// slot must be Integer-tagged, else the read faults with `text_err` for a
/// Text tag or the range fault for a dead index.
pub open spec fn read_int(vars: Seq<VarModel>, idx: i32, text_err: VmError) -> Result<
    i32,
    VmError,
> {
    if idx < 0 || idx >= vars.len() {
        Err(VmError::VarOutOfRange)
    } else {
        match vars[idx as int] {
            VarModel::Int(n) => Ok(n),
            VarModel::Text(_) => Err(text_err),
        }
    }
}

/// The result of one arithmetic instruction, or its fault. Each operator
/// fixes which of its operands are variable reads and which are literals;
/// additions, subtractions and multiplications wrap, divisions truncate and
/// fault on a zero divisor or the one overflowing quotient.
pub open spec fn math_result(vars: Seq<VarModel>, lhs: i32, op: char, rhs: i32) -> Result<
    i32,
    VmError,
> {
    if op == '_' {
        match read_int(vars, lhs, VmError::MathOnText) {
            Ok(v) => Ok(v.wrapping_sub(rhs)),
            Err(e) => Err(e),
        }
    } else if op == '~' {
        match read_int(vars, rhs, VmError::MathOnText) {
            Ok(v) => Ok(lhs.wrapping_sub(v)),
            Err(e) => Err(e),
        }
    } else if op == '-' {
        match read_int(vars, lhs, VmError::MathOnText) {
            Ok(a) => match read_int(vars, rhs, VmError::MathOnText) {
                Ok(b) => Ok(a.wrapping_sub(b)),
                Err(e) => Err(e),
            },
            Err(e) => Err(e),
        }
    } else if op == '=' {
        match read_int(vars, lhs, VmError::MathOnText) {
            Ok(v) => Ok(v.wrapping_add(rhs)),
            Err(e) => Err(e),
        }
    } else if op == '+' {
        match read_int(vars, lhs, VmError::MathOnText) {
            Ok(a) => match read_int(vars, rhs, VmError::MathOnText) {
                Ok(b) => Ok(a.wrapping_add(b)),
                Err(e) => Err(e),
            },
            Err(e) => Err(e),
        }
    } else if op == '8' {
        match read_int(vars, lhs, VmError::MathOnText) {
            Ok(v) => Ok(v.wrapping_mul(rhs)),
            Err(e) => Err(e),
        }
    } else if op == '*' {
        match read_int(vars, lhs, VmError::MathOnText) {
            Ok(a) => match read_int(vars, rhs, VmError::MathOnText) {
                Ok(b) => Ok(a.wrapping_mul(b)),
                Err(e) => Err(e),
            },
            Err(e) => Err(e),
        }
    } else if op == '\\' {
        match read_int(vars, rhs, VmError::MathOnText) {
            Ok(d) => match lhs.checked_div(d) {
                Some(q) => Ok(q),
                None => Err(VmError::DivisionFault),
            },
            Err(e) => Err(e),
        }
    } else if op == '|' {
        match read_int(vars, lhs, VmError::MathOnText) {
            Ok(v) => match v.checked_div(rhs) {
                Some(q) => Ok(q),
                None => Err(VmError::DivisionFault),
            },
            Err(e) => Err(e),
        }
    } else if op == '/' {
        match read_int(vars, lhs, VmError::MathOnText) {
            Ok(a) => match read_int(vars, rhs, VmError::MathOnText) {
                Ok(b) => match a.checked_div(b) {
                    Some(q) => Ok(q),
                    None => Err(VmError::DivisionFault),
                },
                Err(e) => Err(e),
            },
            Err(e) => Err(e),
        }
    } else {
        Err(VmError::BadMathOp)
    }
}

/// The text one flush of the print items renders, walking the items in
/// insertion order from position `i`: a non-negative item prints the
/// variable it indexes followed by a separating space, a negative item
/// prints the character whose code is the item negated. A dead variable
/// index faults.
pub open spec fn flush_from(items: Seq<i32>, vars: Seq<VarModel>, i: int) -> Result<
    Seq<char>,
    VmError,
>
    decreases items.len() - i,
{
    if i < 0 || i >= items.len() {
        Ok(Seq::empty())
    } else {
        let it = items[i];
        if it >= 0 {
            if it >= vars.len() {
                Err(VmError::VarOutOfRange)
            } else {
                match flush_from(items, vars, i + 1) {
                    Ok(rest) => Ok(render(vars[it as int]) + seq![' '] + rest),
                    Err(e) => Err(e),
                }
            }
        } else {
            match flush_from(items, vars, i + 1) {
                Ok(rest) => Ok(seq![byte_char((0 as i32).wrapping_sub(it))] + rest),
                Err(e) => Err(e),
            }
        }
    }
}

/// The state after `SelectVar`: the store grows to include the index, the
/// focus moves there, and the rewrite mode is set.
pub open spec fn step_select(m: VmModel, idx: i32, mode: i32) -> (VmModel, Outcome) {
    if idx < 0 {
        (m, Outcome::Failed(VmError::VarOutOfRange))
    } else {
        (
            VmModel {
                vars: grown(m.vars, idx as int),
                selected: idx as usize,
                rewrite: mode,
                pc: (m.pc + 1) as usize,
                ..m
            },
            Outcome::Running,
        )
    }
}

/// The state after `SetVar`: under rewrite mode 0 the focused slot keeps its
/// tag (an Integer is overwritten, a Text gains one character); mode 1
/// forces Integer, mode 2 forces a one-character Text, any other mode leaves
/// the slot unchanged. The rewrite mode resets to 0.
pub open spec fn step_set_var(m: VmModel, value: i32) -> (VmModel, Outcome) {
    if m.selected >= m.vars.len() {
        (m, Outcome::Failed(VmError::VarOutOfRange))
    } else {
        let slot = m.vars[m.selected as int];
        let slot2 = if m.rewrite == 0 {
            match slot {
                VarModel::Int(_) => VarModel::Int(value),
                VarModel::Text(s) => VarModel::Text(s.push(byte_char(value))),
            }
        } else if m.rewrite == 1 {
            VarModel::Int(value)
        } else if m.rewrite == 2 {
            VarModel::Text(seq![byte_char(value)])
        } else {
            slot
        };
        (
            VmModel {
                vars: m.vars.update(m.selected as int, slot2),
                rewrite: 0,
                pc: (m.pc + 1) as usize,
                ..m
            },
            Outcome::Running,
        )
    }
}

/// The state after `Loop`: with no loop active, one activates here with the
/// iterator at `start`. With a loop active (control returned via `LoopEnd`),
/// the recognized step kind `+` advances the iterator by one and deactivates
/// the loop once the iterator reaches `end`; any other kind is fatal.
pub open spec fn step_loop(m: VmModel, start: i32, kind: char, end: i32) -> (VmModel, Outcome) {
    match m.loop_origin {
        None => (
            VmModel {
                loop_origin: Some(m.pc),
                iterator: start,
                pc: (m.pc + 1) as usize,
                ..m
            },
            Outcome::Running,
        ),
        Some(_) => {
            if kind == '+' {
                let it = m.iterator.wrapping_add(1);
                (
                    VmModel {
                        loop_origin: if it >= end {
                            None
                        } else {
                            m.loop_origin
                        },
                        iterator: it,
                        pc: (m.pc + 1) as usize,
                        ..m
                    },
                    Outcome::Running,
                )
            } else {
                (m, Outcome::Failed(VmError::BadLoopKind))
            }
        },
    }
}

/// The state after `LoopEnd`: with a loop active the program counter rewinds
/// to the `Loop` instruction, which then checks the termination condition;
/// with none it falls through.
pub open spec fn step_loop_end(m: VmModel) -> (VmModel, Outcome) {
    match m.loop_origin {
        Some(origin) => (VmModel { pc: origin, ..m }, Outcome::Running),
        None => (VmModel { pc: (m.pc + 1) as usize, ..m }, Outcome::Running),
    }
}

/// The state after `Math`: the operator's result is assigned to the focused
/// variable with the Integer tag.
pub open spec fn step_math(m: VmModel, lhs: i32, op: char, rhs: i32) -> (VmModel, Outcome) {
    match math_result(m.vars, lhs, op, rhs) {
        Err(e) => (m, Outcome::Failed(e)),
        Ok(res) => {
            if m.selected >= m.vars.len() {
                (m, Outcome::Failed(VmError::VarOutOfRange))
            } else {
                (
                    VmModel {
                        vars: m.vars.update(m.selected as int, VarModel::Int(res)),
                        pc: (m.pc + 1) as usize,
                        ..m
                    },
                    Outcome::Running,
                )
            }
        },
    }
}

/// The state after `AddToPrint`: the variable index joins the print buffer.
pub open spec fn step_add_to_print(m: VmModel, idx: i32) -> (VmModel, Outcome) {
    (VmModel { printing: m.printing.push(idx), pc: (m.pc + 1) as usize, ..m }, Outcome::Running)
}

/// The state after `AddCharToPrint`: the character code joins the print
/// buffer negated, which marks it as a literal character.
pub open spec fn step_add_char(m: VmModel, code: i32) -> (VmModel, Outcome) {
    (
        VmModel {
            printing: m.printing.push((0 as i32).wrapping_sub(code)),
            pc: (m.pc + 1) as usize,
            ..m
        },
        Outcome::Running,
    )
}

/// The state after `AddVarCharPrint`: the focused variable must be
/// Integer-tagged; its value joins the print buffer negated.
pub open spec fn step_add_var_char(m: VmModel, idx: i32) -> (VmModel, Outcome) {
    match read_int(m.vars, idx, VmError::CharOfText) {
        Err(e) => (m, Outcome::Failed(e)),
        Ok(v) => (
            VmModel {
                printing: m.printing.push((0 as i32).wrapping_sub(v)),
                pc: (m.pc + 1) as usize,
                ..m
            },
            Outcome::Running,
        ),
    }
}

/// How many queued items a `Print` with this count flushes: the count when
/// positive and within the buffer, else the whole buffer.
pub open spec fn print_count(count: i32, queued: int) -> int {
    if count <= 0 || count > queued {
        queued
    } else {
        count as int
    }
}

/// The state after `Print`: the flushed items render in insertion order, a
/// line terminator follows, and the buffer clears whatever the count was.
pub open spec fn step_print(m: VmModel, count: i32) -> (VmModel, Outcome) {
    let n = print_count(count, m.printing.len() as int);
    match flush_from(m.printing.take(n), m.vars, 0) {
        Err(e) => (m, Outcome::Failed(e)),
        Ok(text) => (
            VmModel {
                printing: Seq::empty(),
                output: m.output + text + seq!['\n'],
                pc: (m.pc + 1) as usize,
                ..m
            },
            Outcome::Running,
        ),
    }
}

/// Where a jump to label identifier `id` lands: the label index entry when
/// the identifier has one, else the end of the program, which halts.
pub open spec fn jump_target(m: VmModel, id: i32) -> usize {
    if 0 <= id < m.labels.len() {
        m.labels[id as int]
    } else {
        m.prog.len() as usize
    }
}

/// Whether the comparison a conditional's low two flag bits select holds.
pub open spec fn compare(code: i32, a: i32, b: i32) -> bool {
    if code == 0 {
        a != b
    } else if code == 1 {
        a == b
    } else if code == 2 {
        a < b
    } else {
        a > b
    }
}

/// The state after `Conditional`: flag bit 3 reads the left operand as a
/// literal rather than a variable, bit 2 the right one; on success the
/// program counter lands exactly on the jump target.
pub open spec fn step_conditional(m: VmModel, lhs: i32, op: i32, rhs: i32, id: i32) -> (
    VmModel,
    Outcome,
) {
    let lv = if (op & 8) == 8 {
        Ok(lhs)
    } else {
        read_int(m.vars, lhs, VmError::ConditionalOnText)
    };
    match lv {
        Err(e) => (m, Outcome::Failed(e)),
        Ok(a) => {
            let rv = if (op & 4) == 4 {
                Ok(rhs)
            } else {
                read_int(m.vars, rhs, VmError::ConditionalOnText)
            };
            match rv {
                Err(e) => (m, Outcome::Failed(e)),
                Ok(b) => {
                    if compare(op & 3, a, b) {
                        (VmModel { pc: jump_target(m, id), ..m }, Outcome::Running)
                    } else {
                        (VmModel { pc: (m.pc + 1) as usize, ..m }, Outcome::Running)
                    }
                },
            }
        },
    }
}

/// The state after `UserInput`'s prompting half: the prompt variable, when
/// asked for, must be a live slot and renders with no trailing newline; the
/// machine then waits for a line, its program counter still on this
/// instruction.
pub open spec fn step_user_input(m: VmModel, should_prompt: bool, prompt_var: i32) -> (
    VmModel,
    Outcome,
) {
    if should_prompt {
        if prompt_var < 0 || prompt_var >= m.vars.len() {
            (m, Outcome::Failed(VmError::BadPrompt))
        } else {
            (
                VmModel { output: m.output + render(m.vars[prompt_var as int]), ..m },
                Outcome::NeedInput,
            )
        }
    } else {
        (m, Outcome::NeedInput)
    }
}

/// One step of the machine: halted past the last instruction, else the
/// transition of the instruction under the program counter.
pub open spec fn spec_step(m: VmModel) -> (VmModel, Outcome) {
    if m.pc >= m.prog.len() {
        (m, Outcome::Halted)
    } else {
        match m.prog[m.pc as int] {
            Instr::SelectVar(idx, mode) => step_select(m, idx, mode),
            Instr::SetVar(value) => step_set_var(m, value),
            Instr::Loop(start, kind, end) => step_loop(m, start, kind, end),
            Instr::LoopEnd => step_loop_end(m),
            Instr::Math(lhs, op, rhs) => step_math(m, lhs, op, rhs),
            Instr::AddToPrint(idx) => step_add_to_print(m, idx),
            Instr::AddCharToPrint(code) => step_add_char(m, code),
            Instr::AddVarCharPrint(idx) => step_add_var_char(m, idx),
            Instr::Print(count) => step_print(m, count),
            Instr::Conditional(lhs, op, rhs, id) => step_conditional(m, lhs, op, rhs, id),
            Instr::Label(_) => (VmModel { pc: (m.pc + 1) as usize, ..m }, Outcome::Running),
            Instr::Exit => (VmModel { pc: m.prog.len() as usize, ..m }, Outcome::Running),
            Instr::UserInput(should_prompt, prompt_var) => step_user_input(
                m,
                should_prompt,
                prompt_var,
            ),
        }
    }
}

/// The state after a line of input arrives: its trailing line terminator is
/// stripped, the text is stored into the focused variable (which must be a
/// live slot), and execution moves past the `UserInput` instruction.
pub open spec fn feed_input(m: VmModel, line: Seq<char>) -> (VmModel, Outcome) {
    let stripped = if line.len() > 0 && line[line.len() - 1] == '\n' {
        line.drop_last()
    } else {
        line
    };
    if m.selected >= m.vars.len() {
        (m, Outcome::Failed(VmError::VarOutOfRange))
    } else {
        (
            VmModel {
                vars: m.vars.update(m.selected as int, VarModel::Text(stripped)),
                pc: if m.pc < m.prog.len() {
                    (m.pc + 1) as usize
                } else {
                    m.pc
                },
                ..m
            },
            Outcome::Running,
        )
    }
}

/// Up to `fuel` steps of the machine: stops early at the first outcome other
/// than `Running`, and reports `Running` when the fuel runs out first.
pub open spec fn spec_run(m: VmModel, fuel: u64) -> (VmModel, Outcome)
    decreases fuel,
{
    if fuel == 0 {
        (m, Outcome::Running)
    } else {
        let stepped = spec_step(m);
        if stepped.1 == Outcome::Running {
            spec_run(stepped.0, (fuel - 1) as u64)
        } else {
            stepped
        }
    }
}

/// The machine's state.
pub struct Vm {
    /// The compiled program.
    pub prog: Vec<Instr>,
    /// The label index built from the program.
    pub labels: Vec<usize>,
    /// The variable store, grown only by `SelectVar`.
    pub vars: Vec<Var>,
    /// The focused variable slot.
    pub selected: usize,
    /// The pending rewrite mode, consumed by the next `SetVar`.
    pub rewrite: i32,
    /// The position of the active loop's `Loop` instruction, if one is active.
    pub loop_origin: Option<usize>,
    /// The active loop's counter.
    pub iterator: i32,
    /// The print buffer: queued variable indices and negated character codes.
    pub printing: Vec<i32>,
    /// The program counter.
    pub pc: usize,
    /// Everything printed so far and not yet taken.
    pub output: String,
}

impl View for Vm {
    type V = VmModel;

    open spec fn view(&self) -> VmModel {
        VmModel {
            prog: self.prog@,
            labels: self.labels@,
            vars: vars_view(self.vars@),
            selected: self.selected,
            rewrite: self.rewrite,
            loop_origin: self.loop_origin,
            iterator: self.iterator,
            printing: self.printing@,
            pc: self.pc,
            output: self.output@,
        }
    }
}

/// The low byte of a value, as the Euclidean remainder of its division by 256.
fn low_byte(v: i32) -> (b: u8)
    ensures
        b as int == (v as int) % 256,
{
    if v >= 0 {
        ((v as u32) % 256) as u8
    } else {
        let m: i64 = (v as i64) + 0x1_0000_0000;
        proof {
            lemma_mod_multiples_vanish(0x100_0000, v as int, 256);
        }
        ((m as u32) % 256) as u8
    }
}

/// The character with the code of a value's low byte.
fn byte_char_of(v: i32) -> (c: char)
    ensures
        c == byte_char(v),
{
    low_byte(v) as char
}

/// Reads a variable as an integer, faulting on a dead index or a Text tag.
fn read_int_var(vars: &Vec<Var>, idx: i32, text_err: VmError) -> (r: Result<i32, VmError>)
    ensures
        r == read_int(vars_view(vars@), idx, text_err),
{
    proof {
        assert(forall|k: int|
            0 <= k < vars@.len() ==> #[trigger] vars_view(vars@)[k] == vars@[k]@);
    }
    if idx < 0 {
        Err(VmError::VarOutOfRange)
    } else {
        let i = idx as usize;
        if i >= vars.len() {
            Err(VmError::VarOutOfRange)
        } else {
            match &vars[i] {
                Var::Integer(n) => Ok(*n),
                Var::Str(_) => Err(text_err),
            }
        }
    }
}

/// Computes one arithmetic instruction's result, or its fault.
fn math_value(vars: &Vec<Var>, lhs: i32, op: char, rhs: i32) -> (r: Result<i32, VmError>)
    ensures
        r == math_result(vars_view(vars@), lhs, op, rhs),
{
    if op == '_' {
        match read_int_var(vars, lhs, VmError::MathOnText) {
            Ok(v) => Ok(v.wrapping_sub(rhs)),
            Err(e) => Err(e),
        }
    } else if op == '~' {
        match read_int_var(vars, rhs, VmError::MathOnText) {
            Ok(v) => Ok(lhs.wrapping_sub(v)),
            Err(e) => Err(e),
        }
    } else if op == '-' {
        match read_int_var(vars, lhs, VmError::MathOnText) {
            Ok(a) => match read_int_var(vars, rhs, VmError::MathOnText) {
                Ok(b) => Ok(a.wrapping_sub(b)),
                Err(e) => Err(e),
            },
            Err(e) => Err(e),
        }
    } else if op == '=' {
        match read_int_var(vars, lhs, VmError::MathOnText) {
            Ok(v) => Ok(v.wrapping_add(rhs)),
            Err(e) => Err(e),
        }
    } else if op == '+' {
        match read_int_var(vars, lhs, VmError::MathOnText) {
            Ok(a) => match read_int_var(vars, rhs, VmError::MathOnText) {
                Ok(b) => Ok(a.wrapping_add(b)),
                Err(e) => Err(e),
            },
            Err(e) => Err(e),
        }
    } else if op == '8' {
        match read_int_var(vars, lhs, VmError::MathOnText) {
            Ok(v) => Ok(v.wrapping_mul(rhs)),
            Err(e) => Err(e),
        }
    } else if op == '*' {
        match read_int_var(vars, lhs, VmError::MathOnText) {
            Ok(a) => match read_int_var(vars, rhs, VmError::MathOnText) {
                Ok(b) => Ok(a.wrapping_mul(b)),
                Err(e) => Err(e),
            },
            Err(e) => Err(e),
        }
    } else if op == '\\' {
        match read_int_var(vars, rhs, VmError::MathOnText) {
            Ok(d) => match lhs.checked_div(d) {
                Some(q) => Ok(q),
                None => Err(VmError::DivisionFault),
            },
            Err(e) => Err(e),
        }
    } else if op == '|' {
        match read_int_var(vars, lhs, VmError::MathOnText) {
            Ok(v) => match v.checked_div(rhs) {
                Some(q) => Ok(q),
                None => Err(VmError::DivisionFault),
            },
            Err(e) => Err(e),
        }
    } else if op == '/' {
        match read_int_var(vars, lhs, VmError::MathOnText) {
            Ok(a) => match read_int_var(vars, rhs, VmError::MathOnText) {
                Ok(b) => match a.checked_div(b) {
                    Some(q) => Ok(q),
                    None => Err(VmError::DivisionFault),
                },
                Err(e) => Err(e),
            },
            Err(e) => Err(e),
        }
    } else {
        Err(VmError::BadMathOp)
    }
}

/// Renders the first `n` print items in insertion order, or reports the
/// first fault among them.
fn flush_items(printing: &Vec<i32>, vars: &Vec<Var>, n: usize) -> (r: Result<String, VmError>)
    requires
        n <= printing@.len(),
    ensures
        (match (r, flush_from(printing@.take(n as int), vars_view(vars@), 0)) {
            (Ok(s), Ok(o)) => s@ == o,
            (Err(e), Err(se)) => e == se,
            _ => false,
        }),
{
    let ghost taken = printing@.take(n as int);
    let ghost vv = vars_view(vars@);
    proof {
        assert(forall|k: int|
            0 <= k < vars@.len() ==> #[trigger] vars_view(vars@)[k] == vars@[k]@);
    }
    let mut acc = String::new();
    let mut i: usize = 0;
    while i < n
        invariant
            0 <= i <= n <= printing@.len(),
            taken == printing@.take(n as int),
            vv == vars_view(vars@),
            flush_from(taken, vv, 0) == (match flush_from(taken, vv, i as int) {
                Ok(rest) => Ok::<Seq<char>, VmError>(acc@ + rest),
                Err(e) => Err(e),
            }),
        decreases n - i,
    {
        let ghost pre_acc = acc@;
        let item = printing[i];
        proof {
            assert(taken[i as int] == printing@[i as int]);
        }
        if item >= 0 {
            let idx = item as usize;
            if idx >= vars.len() {
                proof {
                    assert(flush_from(taken, vv, i as int) == Err::<Seq<char>, VmError>(
                        VmError::VarOutOfRange,
                    ));
                }
                return Err(VmError::VarOutOfRange);
            }
            let rendered = render_variable(&vars[idx]);
            acc.append(rendered.as_str());
            push_char(&mut acc, ' ');
            proof {
                assert(acc@ =~= pre_acc + (render(vv[item as int]) + seq![' ']));
                if flush_from(taken, vv, i + 1 as int) is Ok {
                    let rest = flush_from(taken, vv, i + 1 as int)->Ok_0;
                    assert(pre_acc + (render(vv[item as int]) + seq![' '] + rest) =~= acc@ + rest);
                }
            }
        } else {
            let c = byte_char_of(0i32.wrapping_sub(item));
            push_char(&mut acc, c);
            proof {
                assert(acc@ =~= pre_acc + seq![byte_char((0 as i32).wrapping_sub(item))]);
                if flush_from(taken, vv, i + 1 as int) is Ok {
                    let rest = flush_from(taken, vv, i + 1 as int)->Ok_0;
                    assert(pre_acc + (seq![byte_char((0 as i32).wrapping_sub(item))] + rest)
                        =~= acc@ + rest);
                }
            }
        }
        i = i + 1;
    }
    proof {
        assert(taken.len() == n as int);
        assert(flush_from(taken, vv, n as int) == Ok::<Seq<char>, VmError>(Seq::empty()));
        assert(acc@ + Seq::<char>::empty() =~= acc@);
    }
    Ok(acc)
}

/// Grows a store to include index `idx`, filling new slots with Integer 0.
fn grow_vars(vars: &mut Vec<Var>, idx: usize)
    ensures
        vars_view(final(vars)@) == grown(vars_view(old(vars)@), idx as int),
{
    let ghost pre = vars_view(old(vars)@);
    while vars.len() <= idx
        invariant
            pre == vars_view(old(vars)@),
            pre.len() <= vars@.len(),
            vars@.len() == pre.len() || vars@.len() <= idx + 1,
            forall|k: int| 0 <= k < pre.len() ==> #[trigger] vars@[k]@ == pre[k],
            forall|k: int| pre.len() <= k < vars@.len() ==> #[trigger] vars@[k]@ == VarModel::Int(
                0,
            ),
        decreases idx + 1 - vars@.len(),
    {
        vars.push(Var::Integer(0));
    }
    proof {
        assert(vars_view(vars@) =~= grown(pre, idx as int));
    }
}

impl Vm {
    /// A fresh machine over a compiled program: the label index is built, the
    /// store, print buffer and output are empty, the focus is slot 0, no
    /// rewrite is pending, no loop is active, and execution stands at the
    /// first instruction.
    pub fn new(prog: Vec<Instr>) -> (vm: Vm)
        ensures
            vm@.prog == prog@,
            labels_ok(vm@.labels, vm@.prog),
            vm@.vars == Seq::<VarModel>::empty(),
            vm@.selected == 0,
            vm@.rewrite == 0,
            vm@.loop_origin is None,
            vm@.iterator == 0,
            vm@.printing == Seq::<i32>::empty(),
            vm@.pc == 0,
            vm@.output == Seq::<char>::empty(),
    {
        let labels = build_labels(&prog);
        let vm = Vm {
            prog,
            labels,
            vars: Vec::new(),
            selected: 0,
            rewrite: 0,
            loop_origin: None,
            iterator: 0,
            printing: Vec::new(),
            pc: 0,
            output: String::new(),
        };
        proof {
            assert(vars_view(vm.vars@) =~= Seq::<VarModel>::empty());
        }
        vm
    }

    /// Whether execution has halted: the program counter stands past the
    /// last instruction.
    pub fn is_halted(&self) -> (r: bool)
        ensures
            r == (self@.pc >= self@.prog.len()),
    {
        self.pc >= self.prog.len()
    }

    /// Executes the instruction under the program counter, as
    /// [`spec_step`] states.
    pub fn step(&mut self) -> (o: Outcome)
        ensures
            final(self)@ == spec_step(old(self)@).0,
            o == spec_step(old(self)@).1,
    {
        proof {
            assert(forall|k: int|
                0 <= k < self.vars@.len() ==> #[trigger] vars_view(self.vars@)[k]
                    == self.vars@[k]@);
        }
        if self.pc >= self.prog.len() {
            return Outcome::Halted;
        }
        let ins = self.prog[self.pc];
        match ins {
            Instr::SelectVar(idx, mode) => {
                if idx < 0 {
                    Outcome::Failed(VmError::VarOutOfRange)
                } else {
                    grow_vars(&mut self.vars, idx as usize);
                    self.selected = idx as usize;
                    self.rewrite = mode;
                    self.pc = self.pc + 1;
                    proof {
                        assert(self@ =~= step_select(old(self)@, idx, mode).0);
                    }
                    Outcome::Running
                }
            },
            Instr::SetVar(value) => {
                if self.selected >= self.vars.len() {
                    Outcome::Failed(VmError::VarOutOfRange)
                } else {
                    let sel = self.selected;
                    let new_slot: Var = if self.rewrite == 0 {
                        match &self.vars[sel] {
                            Var::Integer(_) => Var::Integer(value),
                            Var::Str(s) => {
                                let mut s2 = s.clone();
                                push_char(&mut s2, byte_char_of(value));
                                Var::Str(s2)
                            },
                        }
                    } else if self.rewrite == 1 {
                        Var::Integer(value)
                    } else if self.rewrite == 2 {
                        let mut s2 = String::new();
                        push_char(&mut s2, byte_char_of(value));
                        proof {
                            assert(s2@ =~= seq![byte_char(value)]);
                        }
                        Var::Str(s2)
                    } else {
                        match &self.vars[sel] {
                            Var::Integer(n) => Var::Integer(*n),
                            Var::Str(s) => Var::Str(s.clone()),
                        }
                    };
                    self.vars.set(sel, new_slot);
                    self.rewrite = 0;
                    self.pc = self.pc + 1;
                    proof {
                        assert(vars_view(self.vars@) =~= vars_view(old(self).vars@).update(
                            sel as int,
                            new_slot@,
                        ));
                        assert(self@ =~= step_set_var(old(self)@, value).0);
                    }
                    Outcome::Running
                }
            },
            Instr::Loop(start, kind, end) => {
                match self.loop_origin {
                    None => {
                        self.loop_origin = Some(self.pc);
                        self.iterator = start;
                        self.pc = self.pc + 1;
                        proof {
                            assert(self@ =~= step_loop(old(self)@, start, kind, end).0);
                        }
                        Outcome::Running
                    },
                    Some(_) => {
                        if kind == '+' {
                            let it = self.iterator.wrapping_add(1);
                            self.iterator = it;
                            if it >= end {
                                self.loop_origin = None;
                            }
                            self.pc = self.pc + 1;
                            proof {
                                assert(self@ =~= step_loop(old(self)@, start, kind, end).0);
                            }
                            Outcome::Running
                        } else {
                            Outcome::Failed(VmError::BadLoopKind)
                        }
                    },
                }
            },
            Instr::LoopEnd => {
                match self.loop_origin {
                    Some(origin) => {
                        self.pc = origin;
                    },
                    None => {
                        self.pc = self.pc + 1;
                    },
                }
                proof {
                    assert(self@ =~= step_loop_end(old(self)@).0);
                }
                Outcome::Running
            },
            Instr::Math(lhs, op, rhs) => {
                match math_value(&self.vars, lhs, op, rhs) {
                    Err(e) => Outcome::Failed(e),
                    Ok(res) => {
                        if self.selected >= self.vars.len() {
                            Outcome::Failed(VmError::VarOutOfRange)
                        } else {
                            self.vars.set(self.selected, Var::Integer(res));
                            self.pc = self.pc + 1;
                            proof {
                                assert(vars_view(self.vars@) =~= vars_view(
                                    old(self).vars@,
                                ).update(old(self).selected as int, VarModel::Int(res)));
                                assert(self@ =~= step_math(old(self)@, lhs, op, rhs).0);
                            }
                            Outcome::Running
                        }
                    },
                }
            },
            Instr::AddToPrint(idx) => {
                self.printing.push(idx);
                self.pc = self.pc + 1;
                proof {
                    assert(self@ =~= step_add_to_print(old(self)@, idx).0);
                }
                Outcome::Running
            },
            Instr::AddCharToPrint(code) => {
                self.printing.push(0i32.wrapping_sub(code));
                self.pc = self.pc + 1;
                proof {
                    assert(self@ =~= step_add_char(old(self)@, code).0);
                }
                Outcome::Running
            },
            Instr::AddVarCharPrint(idx) => {
                match read_int_var(&self.vars, idx, VmError::CharOfText) {
                    Err(e) => Outcome::Failed(e),
                    Ok(v) => {
                        self.printing.push(0i32.wrapping_sub(v));
                        self.pc = self.pc + 1;
                        proof {
                            assert(self@ =~= step_add_var_char(old(self)@, idx).0);
                        }
                        Outcome::Running
                    },
                }
            },
            Instr::Print(count) => {
                let n: usize = if count <= 0 {
                    self.printing.len()
                } else {
                    let cu = count as usize;
                    if cu > self.printing.len() {
                        self.printing.len()
                    } else {
                        cu
                    }
                };
                proof {
                    assert(n as int == print_count(count, self.printing@.len() as int));
                }
                match flush_items(&self.printing, &self.vars, n) {
                    Err(e) => Outcome::Failed(e),
                    Ok(text) => {
                        self.output.append(text.as_str());
                        push_char(&mut self.output, '\n');
                        self.printing.clear();
                        self.pc = self.pc + 1;
                        proof {
                            let spec_text = flush_from(
                                old(self).printing@.take(n as int),
                                vars_view(old(self).vars@),
                                0,
                            )->Ok_0;
                            assert(self.output@ =~= old(self).output@ + spec_text + seq!['\n']);
                            assert(self@ =~= step_print(old(self)@, count).0);
                        }
                        Outcome::Running
                    },
                }
            },
            Instr::Conditional(lhs, op, rhs, id) => {
                let lv = if (op & 8) == 8 {
                    Ok(lhs)
                } else {
                    read_int_var(&self.vars, lhs, VmError::ConditionalOnText)
                };
                match lv {
                    Err(e) => Outcome::Failed(e),
                    Ok(a) => {
                        let rv = if (op & 4) == 4 {
                            Ok(rhs)
                        } else {
                            read_int_var(&self.vars, rhs, VmError::ConditionalOnText)
                        };
                        match rv {
                            Err(e) => Outcome::Failed(e),
                            Ok(b) => {
                                let code = op & 3;
                                let taken = if code == 0 {
                                    a != b
                                } else if code == 1 {
                                    a == b
                                } else if code == 2 {
                                    a < b
                                } else {
                                    a > b
                                };
                                if taken {
                                    let target: usize = if id >= 0 && (id as usize)
                                        < self.labels.len() {
                                        self.labels[id as usize]
                                    } else {
                                        self.prog.len()
                                    };
                                    self.pc = target;
                                } else {
                                    self.pc = self.pc + 1;
                                }
                                proof {
                                    assert(self@ =~= step_conditional(
                                        old(self)@,
                                        lhs,
                                        op,
                                        rhs,
                                        id,
                                    ).0);
                                }
                                Outcome::Running
                            },
                        }
                    },
                }
            },
            Instr::Label(_) => {
                self.pc = self.pc + 1;
                proof {
                    assert(self@ =~= spec_step(old(self)@).0);
                }
                Outcome::Running
            },
            Instr::Exit => {
                self.pc = self.prog.len();
                proof {
                    assert(self@ =~= spec_step(old(self)@).0);
                }
                Outcome::Running
            },
            Instr::UserInput(should_prompt, prompt_var) => {
                if should_prompt {
                    if prompt_var < 0 {
                        return Outcome::Failed(VmError::BadPrompt);
                    }
                    let pv = prompt_var as usize;
                    if pv >= self.vars.len() {
                        return Outcome::Failed(VmError::BadPrompt);
                    }
                    let rendered = render_variable(&self.vars[pv]);
                    self.output.append(rendered.as_str());
                    proof {
                        assert(self@ =~= step_user_input(old(self)@, should_prompt, prompt_var).0);
                    }
                }
                Outcome::NeedInput
            },
        }
    }

    /// Stores one line of console input into the focused variable, its
    /// trailing line terminator stripped, and moves past the `UserInput`
    /// instruction, as [`feed_input`] states.
    pub fn provide_input(&mut self, line: String) -> (o: Outcome)
        ensures
            final(self)@ == feed_input(old(self)@, line@).0,
            o == feed_input(old(self)@, line@).1,
    {
        let n = line.as_str().unicode_len();
        let stripped: String = if n > 0 && line.as_str().get_char(n - 1) == '\n' {
            let sub = line.as_str().substring_char(0, n - 1);
            proof {
                assert(sub@ =~= line@.drop_last());
            }
            sub.to_owned()
        } else {
            line
        };
        if self.selected >= self.vars.len() {
            return Outcome::Failed(VmError::VarOutOfRange);
        }
        proof {
            assert(forall|k: int|
                0 <= k < self.vars@.len() ==> #[trigger] vars_view(self.vars@)[k]
                    == self.vars@[k]@);
        }
        let sel = self.selected;
        self.vars.set(sel, Var::Str(stripped));
        if self.pc < self.prog.len() {
            self.pc = self.pc + 1;
        }
        proof {
            assert(vars_view(self.vars@) =~= feed_input(old(self)@, line@).0.vars);
            assert(self@ =~= feed_input(old(self)@, line@).0);
        }
        Outcome::Running
    }

    /// Hands the accumulated output over and clears it.
    pub fn take_output(&mut self) -> (s: String)
        ensures
            s@ == old(self)@.output,
            final(self)@ == (VmModel { output: Seq::empty(), ..old(self)@ }),
    {
        let mut s = String::new();
        core::mem::swap(&mut s, &mut self.output);
        proof {
            assert(self@ =~= (VmModel { output: Seq::empty(), ..old(self)@ }));
        }
        s
    }

    /// Runs up to `fuel` steps, stopping early at the first outcome other
    /// than `Running`; reports `Running` when the fuel runs out first.
    pub fn run(&mut self, fuel: u64) -> (o: Outcome)
        ensures
            final(self)@ == spec_run(old(self)@, fuel).0,
            o == spec_run(old(self)@, fuel).1,
    {
        let mut remaining: u64 = fuel;
        while remaining > 0
            invariant
                spec_run(old(self)@, fuel) == spec_run(self@, remaining),
            decreases remaining,
        {
            let o = self.step();
            match o {
                Outcome::Running => {
                    remaining = remaining - 1;
                },
                _ => {
                    return o;
                },
            }
        }
        Outcome::Running
    }
}

} // verus!
