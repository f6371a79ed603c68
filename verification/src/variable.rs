//! Variables: small tagged values (boolean, named enumeration, or wildcard)
//! with wildcard-aware equality.

use vstd::prelude::*;

verus! {

/// The abstract value of a [`Variable`]: the payload of an enumeration
/// variable is its character sequence.
pub enum VarVal {
    Bool(bool),
    Enum(Seq<char>),
    Any,
}

/// A runtime value for one named graph variable, or a wildcard pattern.
///
/// `Any` is the wildcard: it compares equal to every value in either
/// position. It is only meaningful inside switch case patterns; a stored
/// variable is never `Any`.
#[derive(Debug, Clone)]
pub enum Variable {
    Bool(bool),
    Enum(String),
    Any,
}

impl View for Variable {
    type V = VarVal;

    open spec fn view(&self) -> VarVal {
        match self {
            Variable::Bool(b) => VarVal::Bool(*b),
            Variable::Enum(s) => VarVal::Enum(s@),
            Variable::Any => VarVal::Any,
        }
    }
}

/// Wildcard-aware equality on variable values: `Any` matches anything in
/// either position; `Bool`/`Bool` and `Enum`/`Enum` compare by payload;
/// mismatched non-wildcard kinds are unequal.
pub open spec fn wild_eq(a: VarVal, b: VarVal) -> bool {
    match (a, b) {
        (VarVal::Any, _) => true,
        (_, VarVal::Any) => true,
        (VarVal::Bool(x), VarVal::Bool(y)) => x == y,
        (VarVal::Enum(x), VarVal::Enum(y)) => x == y,
        _ => false,
    }
}

impl Variable {
    /// Whether this value is the wildcard.
    pub fn is_any(&self) -> (r: bool)
        ensures
            r == (self@ is Any),
    {
        matches!(self, Variable::Any)
    }

    /// A copy of this value with the same abstract content.
    pub fn duplicate(&self) -> (r: Variable)
        ensures
            r@ == self@,
    {
        match self {
            Variable::Bool(b) => Variable::Bool(*b),
            Variable::Enum(s) => Variable::Enum(s.clone()),
            Variable::Any => Variable::Any,
        }
    }
}

impl PartialEq for Variable {
    fn eq(&self, other: &Variable) -> (r: bool) {
        match (self, other) {
            (Variable::Any, _) => true,
            (_, Variable::Any) => true,
            (Variable::Bool(a), Variable::Bool(b)) => *a == *b,
            (Variable::Enum(a), Variable::Enum(b)) => *a == *b,
            _ => false,
        }
    }
}

impl vstd::std_specs::cmp::PartialEqSpecImpl for Variable {
    open spec fn obeys_eq_spec() -> bool {
        true
    }

    open spec fn eq_spec(&self, other: &Variable) -> bool {
        wild_eq(self@, other@)
    }
}

} // verus!
