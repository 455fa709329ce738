//! The instruction set: a fixed, closed vocabulary of tagged variants, the
//! unit the virtual machine executes. Instructions are immutable once
//! compiled; their position in the sequence is the program counter's
//! addressing unit.

use vstd::prelude::*;

verus! {

/// One instruction.
#[derive(Clone, Copy, PartialEq, Eq, Debug)]
pub enum Instr {
    /// Focus a variable slot, growing the store if needed, and set the
    /// pending rewrite mode.
    SelectVar(i32, i32),
    /// Assign or append to the focused variable, per the rewrite mode.
    SetVar(i32),
    /// Open or continue the single active loop: start, step kind, end.
    Loop(i32, char, i32),
    /// Close the current loop iteration: rewind to the loop or fall through.
    LoopEnd,
    /// Arithmetic into the focused variable: lhs, operator code, rhs.
    Math(i32, char, i32),
    /// Queue a variable for the next print.
    AddToPrint(i32),
    /// Queue a literal character for the next print.
    AddCharToPrint(i32),
    /// Queue a variable's integer value, read as a character, for the next
    /// print.
    AddVarCharPrint(i32),
    /// Flush queued print items: a count, or 0 for the whole buffer.
    Print(i32),
    /// Conditional jump: lhs, operand flags and comparison code, rhs, label.
    Conditional(i32, i32, i32, i32),
    /// Marks a jump target at this position.
    Label(i32),
    /// Unconditional halt.
    Exit,
    /// Read a line into the focused variable: whether to prompt, and the
    /// variable printed as the prompt.
    UserInput(bool, i32),
}

} // verus!
