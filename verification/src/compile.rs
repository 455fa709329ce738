//! The compiler: consumes the token sequence and produces the instruction
//! sequence, or fails with a structural error.
//!
//! A static table maps declaration names (keyword tokens ending in `:`) to
//! opcodes; other Keyword and Number tokens accumulate into a pending
//! argument list until a Newline token is seen, at which point the pending
//! opcode and arguments are translated into one instruction and both are
//! reset. A declaration name missing from the table leaves the pending
//! opcode unchanged; a line with no recognized opcode produces no
//! instruction. Fewer arguments than an opcode requires is a fatal error.

use vstd::prelude::*;

use crate::instr::Instr;
use crate::text::str_is;
use crate::token::{Token, TokenKind, TokenModel, tokens_view};

verus! {

/// The opcode a declaration name selects. `Deprecated` is recognized but
/// compiles to nothing.
#[derive(Clone, Copy, PartialEq, Eq, Debug)]
pub enum Decl {
    Deprecated,
    SelectVar,
    SetVar,
    Loop,
    Math,
    AddToPrint,
    Print,
    LoopEnd,
    AddCharToPrint,
    AddVarCharPrint,
    Conditional,
    Label,
    Exit,
    UserInput,
}

/// A structural compile error: a declaration with fewer arguments than its
/// opcode requires.
#[derive(Clone, Copy, PartialEq, Eq, Debug)]
pub enum CompileError {
    SelectVarArgs,
    SetVarArgs,
    LoopArgs,
    MathArgs,
    AddToPrintArgs,
    PrintArgs,
    AddCharToPrintArgs,
    AddVarCharPrintArgs,
    ConditionalArgs,
    LabelArgs,
    UserInputArgs,
}

/// The diagnostic text of a compile error.
pub open spec fn compile_error_text(e: CompileError) -> Seq<char> {
    match e {
        CompileError::SelectVarArgs => "Expected two args for a select var"@,
        CompileError::SetVarArgs => "Expected an arg for a set var"@,
        CompileError::LoopArgs => "Expected 3 args for loop"@,
        CompileError::MathArgs => "Expected 3 args for math operation"@,
        CompileError::AddToPrintArgs => "Expected 1 arg for add var print"@,
        CompileError::PrintArgs => "Expected 1 arg for print"@,
        CompileError::AddCharToPrintArgs => "Expected 1 arg for add char print"@,
        CompileError::AddVarCharPrintArgs => "Expected 1 arg for add var as char print"@,
        CompileError::ConditionalArgs => "Expected 4 args for conditional"@,
        CompileError::LabelArgs => "Expected 1 arg for label"@,
        CompileError::UserInputArgs => "Expected 2 args for user input"@,
    }
}

impl CompileError {
    /// The short description reported on the diagnostic stream.
    pub fn message(&self) -> (s: String)
        ensures
            s@ == compile_error_text(*self),
    {
        match self {
            CompileError::SelectVarArgs => String::from_str("Expected two args for a select var"),
            CompileError::SetVarArgs => String::from_str("Expected an arg for a set var"),
            CompileError::LoopArgs => String::from_str("Expected 3 args for loop"),
            CompileError::MathArgs => String::from_str("Expected 3 args for math operation"),
            CompileError::AddToPrintArgs => String::from_str("Expected 1 arg for add var print"),
            CompileError::PrintArgs => String::from_str("Expected 1 arg for print"),
            CompileError::AddCharToPrintArgs => String::from_str(
                "Expected 1 arg for add char print",
            ),
            CompileError::AddVarCharPrintArgs => String::from_str(
                "Expected 1 arg for add var as char print",
            ),
            CompileError::ConditionalArgs => String::from_str("Expected 4 args for conditional"),
            CompileError::LabelArgs => String::from_str("Expected 1 arg for label"),
            CompileError::UserInputArgs => String::from_str("Expected 2 args for user input"),
        }
    }
}

/// The declaration-name table: which opcode a `name:` keyword selects.
pub open spec fn spec_lookup(text: Seq<char>) -> Option<Decl> {
    if text == "background-size:"@ {
        Some(Decl::Deprecated)
    } else if text == "background-position:"@ {
        Some(Decl::SelectVar)
    } else if text == "background-color:"@ {
        Some(Decl::SetVar)
    } else if text == "outline:"@ {
        Some(Decl::Loop)
    } else if text == "border:"@ {
        Some(Decl::Math)
    } else if text == "padding-right:"@ {
        Some(Decl::AddToPrint)
    } else if text == "padding-left:"@ {
        Some(Decl::AddCharToPrint)
    } else if text == "padding-bottom:"@ {
        Some(Decl::AddVarCharPrint)
    } else if text == "padding-top:"@ {
        Some(Decl::Print)
    } else if text == "overflow:"@ {
        Some(Decl::LoopEnd)
    } else if text == "margin:"@ {
        Some(Decl::Conditional)
    } else if text == "opacity:"@ {
        Some(Decl::Label)
    } else if text == "word-wrap:"@ {
        Some(Decl::Exit)
    } else if text == "transition:"@ {
        Some(Decl::UserInput)
    } else {
        None
    }
}

/// Looks a declaration name up in the table.
pub fn lookup(text: &String) -> (r: Option<Decl>)
    ensures
        r == spec_lookup(text@),
{
    if str_is(text, "background-size:") {
        Some(Decl::Deprecated)
    } else if str_is(text, "background-position:") {
        Some(Decl::SelectVar)
    } else if str_is(text, "background-color:") {
        Some(Decl::SetVar)
    } else if str_is(text, "outline:") {
        Some(Decl::Loop)
    } else if str_is(text, "border:") {
        Some(Decl::Math)
    } else if str_is(text, "padding-right:") {
        Some(Decl::AddToPrint)
    } else if str_is(text, "padding-left:") {
        Some(Decl::AddCharToPrint)
    } else if str_is(text, "padding-bottom:") {
        Some(Decl::AddVarCharPrint)
    } else if str_is(text, "padding-top:") {
        Some(Decl::Print)
    } else if str_is(text, "overflow:") {
        Some(Decl::LoopEnd)
    } else if str_is(text, "margin:") {
        Some(Decl::Conditional)
    } else if str_is(text, "opacity:") {
        Some(Decl::Label)
    } else if str_is(text, "word-wrap:") {
        Some(Decl::Exit)
    } else if str_is(text, "transition:") {
        Some(Decl::UserInput)
    } else {
        None
    }
}

/// The loop step-kind table: `solid` is the recognized increment; anything
/// else is the sentinel rejected at run time.
pub open spec fn spec_loop_kind(text: Seq<char>) -> char {
    if text == "solid"@ {
        '+'
    } else {
        ' '
    }
}

/// Decodes a loop step-kind keyword.
pub fn loop_kind(text: &String) -> (r: char)
    ensures
        r == spec_loop_kind(text@),
{
    if str_is(text, "solid") {
        '+'
    } else {
        ' '
    }
}

/// The arithmetic operator table; an unknown keyword gives the sentinel
/// rejected at run time.
pub open spec fn spec_math_op(text: Seq<char>) -> char {
    if text == "none"@ {
        '_'
    } else if text == "hidden"@ {
        '~'
    } else if text == "dotted"@ {
        '-'
    } else if text == "dashed"@ {
        '='
    } else if text == "solid"@ {
        '+'
    } else if text == "double"@ {
        '8'
    } else if text == "groove"@ {
        '*'
    } else if text == "ridge"@ {
        '\\'
    } else if text == "inset"@ {
        '|'
    } else if text == "outset"@ {
        '/'
    } else {
        ' '
    }
}

/// Decodes an arithmetic operator keyword.
pub fn math_op(text: &String) -> (r: char)
    ensures
        r == spec_math_op(text@),
{
    if str_is(text, "none") {
        '_'
    } else if str_is(text, "hidden") {
        '~'
    } else if str_is(text, "dotted") {
        '-'
    } else if str_is(text, "dashed") {
        '='
    } else if str_is(text, "solid") {
        '+'
    } else if str_is(text, "double") {
        '8'
    } else if str_is(text, "groove") {
        '*'
    } else if str_is(text, "ridge") {
        '\\'
    } else if str_is(text, "inset") {
        '|'
    } else if str_is(text, "outset") {
        '/'
    } else {
        ' '
    }
}

/// What a completed declaration line compiles to: one instruction, nothing,
/// or a structural error when the arguments fall short of the opcode's
/// required arity.
pub open spec fn spec_translate(cmd: Option<Decl>, args: Seq<TokenModel>) -> Result<
    Option<Instr>,
    CompileError,
> {
    match cmd {
        None => Ok(None),
        Some(Decl::Deprecated) => Ok(None),
        Some(Decl::SelectVar) => if args.len() < 2 {
            Err(CompileError::SelectVarArgs)
        } else {
            Ok(Some(Instr::SelectVar(args[0].value, args[1].value)))
        },
        Some(Decl::SetVar) => if args.len() < 1 {
            Err(CompileError::SetVarArgs)
        } else {
            Ok(Some(Instr::SetVar(args[0].value)))
        },
        Some(Decl::Loop) => if args.len() < 3 {
            Err(CompileError::LoopArgs)
        } else {
            Ok(Some(Instr::Loop(args[0].value, spec_loop_kind(args[1].text), args[2].value)))
        },
        Some(Decl::Math) => if args.len() < 3 {
            Err(CompileError::MathArgs)
        } else {
            Ok(Some(Instr::Math(args[0].value, spec_math_op(args[1].text), args[2].value)))
        },
        Some(Decl::AddToPrint) => if args.len() < 1 {
            Err(CompileError::AddToPrintArgs)
        } else {
            Ok(Some(Instr::AddToPrint(args[0].value)))
        },
        Some(Decl::Print) => if args.len() < 1 {
            Err(CompileError::PrintArgs)
        } else {
            Ok(Some(Instr::Print(args[0].value)))
        },
        Some(Decl::LoopEnd) => Ok(Some(Instr::LoopEnd)),
        Some(Decl::AddCharToPrint) => if args.len() < 1 {
            Err(CompileError::AddCharToPrintArgs)
        } else {
            Ok(Some(Instr::AddCharToPrint(args[0].value)))
        },
        Some(Decl::AddVarCharPrint) => if args.len() < 1 {
            Err(CompileError::AddVarCharPrintArgs)
        } else {
            Ok(Some(Instr::AddVarCharPrint(args[0].value)))
        },
        Some(Decl::Conditional) => if args.len() < 4 {
            Err(CompileError::ConditionalArgs)
        } else {
            Ok(
                Some(
                    Instr::Conditional(
                        args[0].value,
                        args[1].value,
                        args[2].value,
                        args[3].value,
                    ),
                ),
            )
        },
        Some(Decl::Label) => if args.len() < 1 {
            Err(CompileError::LabelArgs)
        } else {
            Ok(Some(Instr::Label(args[0].value)))
        },
        Some(Decl::Exit) => Ok(Some(Instr::Exit)),
        Some(Decl::UserInput) => if args.len() < 2 {
            Err(CompileError::UserInputArgs)
        } else {
            Ok(Some(Instr::UserInput(args[0].text == "all"@, args[1].value)))
        },
    }
}

/// Translates a completed declaration line.
fn translate(cmd: Option<Decl>, args: &Vec<Token>) -> (r: Result<Option<Instr>, CompileError>)
    ensures
        r == spec_translate(cmd, tokens_view(args@)),
{
    let ghost av = tokens_view(args@);
    proof {
        assert(forall|k: int| 0 <= k < args@.len() ==> av[k] == args@[k]@);
    }
    match cmd {
        None => Ok(None),
        Some(Decl::Deprecated) => Ok(None),
        Some(Decl::SelectVar) => if args.len() < 2 {
            Err(CompileError::SelectVarArgs)
        } else {
            Ok(Some(Instr::SelectVar(args[0].value, args[1].value)))
        },
        Some(Decl::SetVar) => if args.len() < 1 {
            Err(CompileError::SetVarArgs)
        } else {
            Ok(Some(Instr::SetVar(args[0].value)))
        },
        Some(Decl::Loop) => if args.len() < 3 {
            Err(CompileError::LoopArgs)
        } else {
            Ok(Some(Instr::Loop(args[0].value, loop_kind(&args[1].text), args[2].value)))
        },
        Some(Decl::Math) => if args.len() < 3 {
            Err(CompileError::MathArgs)
        } else {
            Ok(Some(Instr::Math(args[0].value, math_op(&args[1].text), args[2].value)))
        },
        Some(Decl::AddToPrint) => if args.len() < 1 {
            Err(CompileError::AddToPrintArgs)
        } else {
            Ok(Some(Instr::AddToPrint(args[0].value)))
        },
        Some(Decl::Print) => if args.len() < 1 {
            Err(CompileError::PrintArgs)
        } else {
            Ok(Some(Instr::Print(args[0].value)))
        },
        Some(Decl::LoopEnd) => Ok(Some(Instr::LoopEnd)),
        Some(Decl::AddCharToPrint) => if args.len() < 1 {
            Err(CompileError::AddCharToPrintArgs)
        } else {
            Ok(Some(Instr::AddCharToPrint(args[0].value)))
        },
        Some(Decl::AddVarCharPrint) => if args.len() < 1 {
            Err(CompileError::AddVarCharPrintArgs)
        } else {
            Ok(Some(Instr::AddVarCharPrint(args[0].value)))
        },
        Some(Decl::Conditional) => if args.len() < 4 {
            Err(CompileError::ConditionalArgs)
        } else {
            Ok(
                Some(
                    Instr::Conditional(
                        args[0].value,
                        args[1].value,
                        args[2].value,
                        args[3].value,
                    ),
                ),
            )
        },
        Some(Decl::Label) => if args.len() < 1 {
            Err(CompileError::LabelArgs)
        } else {
            Ok(Some(Instr::Label(args[0].value)))
        },
        Some(Decl::Exit) => Ok(Some(Instr::Exit)),
        Some(Decl::UserInput) => if args.len() < 2 {
            Err(CompileError::UserInputArgs)
        } else {
            Ok(Some(Instr::UserInput(str_is(&args[0].text, "all"), args[1].value)))
        },
    }
}

/// Whether a keyword token's text is a declaration name shape: non-empty and
/// ending in `:`.
pub open spec fn is_decl_name(text: Seq<char>) -> bool {
    text.len() > 0 && text[text.len() - 1] == ':'
}

/// The instructions compiled from the tokens at positions `i` onward, given
/// the pending opcode, the pending arguments, and the instructions already
/// produced.
pub open spec fn compile_from(
    toks: Seq<TokenModel>,
    i: int,
    cmd: Option<Decl>,
    args: Seq<TokenModel>,
    acc: Seq<Instr>,
) -> Result<Seq<Instr>, CompileError>
    decreases toks.len() - i,
{
    if i < 0 || i >= toks.len() {
        Ok(acc)
    } else {
        let t = toks[i];
        if t.kind == TokenKind::Keyword {
            if is_decl_name(t.text) {
                let cmd2 = match spec_lookup(t.text) {
                    Some(d) => Some(d),
                    None => cmd,
                };
                compile_from(toks, i + 1, cmd2, args, acc)
            } else {
                compile_from(toks, i + 1, cmd, args.push(t), acc)
            }
        } else if t.kind == TokenKind::Newline {
            match spec_translate(cmd, args) {
                Err(e) => Err(e),
                Ok(None) => compile_from(toks, i + 1, None, Seq::empty(), acc),
                Ok(Some(ins)) => compile_from(toks, i + 1, None, Seq::empty(), acc.push(ins)),
            }
        } else {
            compile_from(toks, i + 1, cmd, args.push(t), acc)
        }
    }
}

/// The instructions compiled from a whole token sequence, or the structural
/// error the sequence produces.
pub open spec fn spec_compile(toks: Seq<TokenModel>) -> Result<Seq<Instr>, CompileError> {
    compile_from(toks, 0, None, Seq::empty(), Seq::empty())
}

/// Compiles a token sequence into an instruction sequence, or fails with the
/// first structural error.
pub fn compile(tokens: &Vec<Token>) -> (r: Result<Vec<Instr>, CompileError>)
    ensures
        (match (r, spec_compile(tokens_view(tokens@))) {
            (Ok(v), Ok(s)) => v@ == s,
            (Err(e), Err(se)) => e == se,
            _ => false,
        }),
{
    let ghost tv = tokens_view(tokens@);
    let mut out: Vec<Instr> = Vec::new();
    let mut cmd: Option<Decl> = None;
    let mut args: Vec<Token> = Vec::new();
    let mut i: usize = 0;
    proof {
        assert(tokens_view(args@) =~= Seq::<TokenModel>::empty());
    }
    while i < tokens.len()
        invariant
            0 <= i <= tokens@.len(),
            tv == tokens_view(tokens@),
            spec_compile(tv) == compile_from(tv, i as int, cmd, tokens_view(args@), out@),
        decreases tokens@.len() - i,
    {
        let t = &tokens[i];
        let ghost pre_cmd = cmd;
        let ghost pre_args = tokens_view(args@);
        let ghost pre_out = out@;
        proof {
            assert(tv[i as int] == tokens@[i as int]@);
        }
        match t.kind {
            TokenKind::Keyword => {
                let n = t.text.as_str().unicode_len();
                if n > 0 && t.text.as_str().get_char(n - 1) == ':' {
                    match lookup(&t.text) {
                        Some(d) => {
                            cmd = Some(d);
                        },
                        None => {},
                    }
                } else {
                    let copy = Token { kind: t.kind, text: t.text.clone(), value: t.value };
                    args.push(copy);
                    proof {
                        assert(tokens_view(args@) =~= pre_args.push(tv[i as int]));
                    }
                }
            },
            TokenKind::Newline => {
                match translate(cmd, &args) {
                    Err(e) => {
                        return Err(e);
                    },
                    Ok(None) => {},
                    Ok(Some(ins)) => {
                        out.push(ins);
                    },
                }
                cmd = None;
                args = Vec::new();
                proof {
                    assert(tokens_view(args@) =~= Seq::<TokenModel>::empty());
                }
            },
            TokenKind::Number => {
                let copy = Token { kind: t.kind, text: t.text.clone(), value: t.value };
                args.push(copy);
                proof {
                    assert(tokens_view(args@) =~= pre_args.push(tv[i as int]));
                }
            },
        }
        proof {
            assert(compile_from(tv, i as int, pre_cmd, pre_args, pre_out) == compile_from(
                tv,
                i + 1 as int,
                cmd,
                tokens_view(args@),
                out@,
            ));
        }
        i = i + 1;
    }
    Ok(out)
}

} // verus!
