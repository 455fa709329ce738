//! Variables: a tagged union of a signed 32-bit integer and a text value.
//! A variable may change tag across its lifetime: arithmetic forces the
//! integer tag, character appends force or extend the text tag.

use vstd::prelude::*;

use crate::text::{i32_to_string, int_string};

verus! {

/// One variable slot: Integer or Text.
#[derive(Clone, PartialEq, Eq, Debug)]
pub enum Var {
    Integer(i32),
    Str(String),
}

/// The mathematical shape of a variable.
pub enum VarModel {
    Int(i32),
    Text(Seq<char>),
}

impl View for Var {
    type V = VarModel;

    open spec fn view(&self) -> VarModel {
        match self {
            Var::Integer(n) => VarModel::Int(*n),
            Var::Str(s) => VarModel::Text(s@),
        }
    }
}

/// The view of a variable store.
pub open spec fn vars_view(vs: Seq<Var>) -> Seq<VarModel> {
    vs.map_values(|v: Var| v@)
}

impl Var {
    /// The integer a variable holds, if its tag is Integer.
    pub fn as_int(self) -> (r: Option<i32>)
        ensures
            r == (match self@ {
                VarModel::Int(n) => Some(n),
                VarModel::Text(_) => None::<i32>,
            }),
    {
        match self {
            Self::Integer(a) => Some(a),
            _ => None,
        }
    }

    /// The text a variable holds, if its tag is Text.
    pub fn as_string(self) -> (r: Option<String>)
        ensures
            (match self@ {
                VarModel::Int(_) => r is None,
                VarModel::Text(t) => r is Some && r->0@ == t,
            }),
    {
        match self {
            Self::Str(s) => Some(s),
            _ => None,
        }
    }
}

/// How a variable prints: an Integer as its decimal value, a Text as its
/// characters.
pub open spec fn render(v: VarModel) -> Seq<char> {
    match v {
        VarModel::Int(n) => int_string(n as int),
        VarModel::Text(t) => t,
    }
}

/// Renders a variable as it prints.
pub fn render_variable(v: &Var) -> (s: String)
    ensures
        s@ == render(v@),
{
    match v {
        Var::Integer(n) => i32_to_string(*n),
        Var::Str(t) => t.clone(),
    }
}

} // verus!
