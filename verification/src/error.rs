//! The errors that a resolution can end with.

use vstd::prelude::*;

verus! {

/// A shape that the compiler of formulas cannot be handed by a well-formed
/// repository.
#[derive(Clone, Copy, Debug, PartialEq, Eq, Structural)]
pub enum InternalError {
    /// A `Lor` or `Proxy` package was asked for a version other than `lhs`
    /// and `rhs`.
    UnknownChoice,
    /// A `Formula` package was asked for a version other than `true` and
    /// `false`.
    UnknownTruthValue,
    /// A comparison other than `=` and `!=` between two formulas neither of
    /// which is a variable beside a literal.
    InvalidOperator,
    /// A literal that is no side of a comparison.
    StrayLiteral,
    /// A formula that holds nothing but a version constraint was to be
    /// negated.
    NegatedVersion,
    /// A `Proxy` package over a formula that is neither a disjunction nor a
    /// comparison.
    MisplacedProxy,
    /// A version of another ecosystem than the package's.
    ForeignVersion,
    /// A platform other than the supported ones was selected.
    UnknownPlatform,
}

/// How a resolution fails.
#[derive(Clone, Debug, PartialEq, Eq)]
pub enum SolverError {
    /// The name of the ecosystem is not known.
    UnsupportedEcosystem,
    /// The name of the platform is not known.
    UnsupportedPlatform,
    /// The version does not parse in its ecosystem.
    InvalidVersion,
    /// A repository could not be read.
    IndexLoadFailure(String),
    /// No assignment of versions meets all constraints; the explanation is
    /// attached.
    NoSolution(String),
    /// The resolution was cancelled.
    Cancelled,
    /// The solver or the compiler of formulas met a state it cannot handle.
    SolverInternal(InternalError),
}

} // verus!
