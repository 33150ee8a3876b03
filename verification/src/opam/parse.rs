//! Relational operators of OPAM formulas and the version sets they denote.

use crate::opam::version::OpamVersion;
use crate::range::{
    higher_range, lower_range, range_complement, singleton_range, strictly_higher_range,
    strictly_lower_range, Range, SegmentModel,
};
use vstd::prelude::*;

verus! {

/// A relational operator.
#[derive(Clone, Copy, Debug, PartialEq, Eq, Hash, Structural)]
pub enum RelOp {
    Eq,
    Neq,
    Lt,
    Leq,
    Gt,
    Geq,
}

impl RelOp {
    /// The operator that holds exactly where this one does not.
    pub open spec fn negated(self) -> RelOp {
        match self {
            RelOp::Eq => RelOp::Neq,
            RelOp::Neq => RelOp::Eq,
            RelOp::Lt => RelOp::Geq,
            RelOp::Geq => RelOp::Lt,
            RelOp::Leq => RelOp::Gt,
            RelOp::Gt => RelOp::Leq,
        }
    }

    /// What the operator is written as.
    pub open spec fn text(self) -> Seq<char> {
        match self {
            RelOp::Eq => "="@,
            RelOp::Neq => "!="@,
            RelOp::Lt => "<"@,
            RelOp::Leq => "<="@,
            RelOp::Gt => ">"@,
            RelOp::Geq => ">="@,
        }
    }

    /// What the operator is written as.
    pub fn to_string(&self) -> (s: String)
        ensures
            s@ == self.text(),
    {
        match self {
            RelOp::Eq => "=".to_string(),
            RelOp::Neq => "!=".to_string(),
            RelOp::Lt => "<".to_string(),
            RelOp::Leq => "<=".to_string(),
            RelOp::Gt => ">".to_string(),
            RelOp::Geq => ">=".to_string(),
        }
    }

    /// The versions `x` with `x relop v`.
    pub open spec fn range_of(self, v: Seq<char>) -> Seq<SegmentModel> {
        match self {
            RelOp::Eq => singleton_range(v),
            RelOp::Neq => range_complement::<OpamVersion>(singleton_range(v)),
            RelOp::Lt => strictly_lower_range(v),
            RelOp::Leq => lower_range(v),
            RelOp::Gt => strictly_higher_range(v),
            RelOp::Geq => higher_range(v),
        }
    }
}

/// The operator that holds exactly where `relop` does not: `=` and `!=`
/// change places, and so do `<` and `>=`, `<=` and `>`.
pub fn negate_relop(relop: RelOp) -> (r: RelOp)
    ensures
        r == relop.negated(),
{
    match relop {
        RelOp::Eq => RelOp::Neq,
        RelOp::Neq => RelOp::Eq,
        RelOp::Lt => RelOp::Geq,
        RelOp::Geq => RelOp::Lt,
        RelOp::Leq => RelOp::Gt,
        RelOp::Gt => RelOp::Leq,
    }
}

/// Negating an operator twice gives it back.
pub proof fn law_negation_of_operators(relop: RelOp)
    ensures
        relop.negated().negated() == relop,
{
}

/// The set of the versions `x` with `x relop version`.
pub fn relop_to_range(relop: &RelOp, version: OpamVersion) -> (r: Range<OpamVersion>)
    ensures
        r@ == relop.range_of(version@),
{
    match relop {
        RelOp::Eq => Range::singleton(version),
        RelOp::Neq => Range::singleton(version).complement(),
        RelOp::Lt => Range::strictly_lower_than(version),
        RelOp::Leq => Range::lower_than(version),
        RelOp::Gt => Range::strictly_higher_than(version),
        RelOp::Geq => Range::higher_than(version),
    }
}

} // verus!
