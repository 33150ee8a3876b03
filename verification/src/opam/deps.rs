//! OPAM packages as the solver sees them, and the compilation of dependency
//! formulas into constraints on such packages.
//!
//! A solver of version ranges knows constraints of one shape only: a package
//! and the set of versions allowed for it. Filters, disjunctions and
//! comparisons are therefore turned into auxiliary packages whose versions
//! stand for the choices that can be made.

use crate::constraints::{
    collect, collect_constraints, find_constraint, first_in_range, first_match, models, position,
    put, put_constraint, Copied, Dependencies, Key, Known,
};
use crate::error::InternalError;
use crate::opam::context::{learn, values_of, version_texts, Context, ContextModel, Table};
use crate::opam::index::{
    formula_text, package_formula_text, Binary, FormulaModel, OpamIndex,
    PackageFormula, PackageFormulaModel, VersionFormula,
};
use crate::opam::parse::{negate_relop, relop_to_range, RelOp};
use crate::opam::version::OpamVersion;
use crate::range::{
    full_range, range_intersection, singleton_of, singleton_range, Range, SegmentModel,
};
use crate::text::{
    chars_of, duplicate_names, find_char, find_from, names_string, names_text, same_names, texts,
};
use vstd::prelude::*;
use vstd::string::StringExecFns;

verus! {

/// A package of the OPAM world.
#[derive(Debug, PartialEq, Eq, Hash)]
pub enum OpamPackage {
    /// What a query asks for. It has one version and depends on its
    /// children.
    Root(Vec<(OpamPackage, Range<OpamVersion>)>),
    /// A package of the repository.
    Base(String),
    /// Packages of the operating system, with the condition under which
    /// they are needed.
    Depext { names: Vec<String>, formula: VersionFormula },
    /// A conflict class. Each member asks for its own version of the class,
    /// so that two members cannot be selected together.
    ConflictClass(String),
    /// A choice between two package formulas, with the versions `lhs` and
    /// `rhs`.
    Lor { lhs: Box<PackageFormula>, rhs: Box<PackageFormula> },
    /// The choice whether `base` is wanted under the filter `formula`, with
    /// the versions `true` and `false`.
    Formula { base: Box<OpamPackage>, formula: Box<VersionFormula> },
    /// A choice inside a filter, with the versions `lhs` and `rhs`.
    Proxy { base: Box<Option<OpamPackage>>, formula: Box<VersionFormula> },
    /// A variable. Its versions are its values.
    Var(String),
}

/// What an [`OpamPackage`] stands for.
pub enum PackageModel {
    Root(Seq<(PackageModel, Seq<SegmentModel>)>),
    Base(Seq<char>),
    Depext { names: Seq<Seq<char>>, formula: FormulaModel },
    ConflictClass(Seq<char>),
    Lor { lhs: Box<PackageFormulaModel>, rhs: Box<PackageFormulaModel> },
    Formula { base: Box<PackageModel>, formula: Box<FormulaModel> },
    Proxy { base: Box<Option<PackageModel>>, formula: Box<FormulaModel> },
    Var(Seq<char>),
}

/// Constraints on OPAM packages, as models.
pub type ConstraintsModel = Seq<(PackageModel, Seq<SegmentModel>)>;

impl OpamPackage {
    /// What the package stands for.
    pub open spec fn model(&self) -> PackageModel
        decreases self,
    {
        match self {
            OpamPackage::Root(children) => PackageModel::Root(
                Seq::new(
                    children.len() as nat,
                    |i: int|
                        if 0 <= i < children.len() {
                            (children[i].0.model(), children[i].1@)
                        } else {
                            arbitrary()
                        },
                ),
            ),
            OpamPackage::Base(name) => PackageModel::Base(name@),
            OpamPackage::Depext { names, formula } => PackageModel::Depext {
                names: texts(names@),
                formula: formula@,
            },
            OpamPackage::ConflictClass(name) => PackageModel::ConflictClass(name@),
            OpamPackage::Lor { lhs, rhs } => PackageModel::Lor {
                lhs: Box::new(lhs@),
                rhs: Box::new(rhs@),
            },
            OpamPackage::Formula { base, formula } => PackageModel::Formula {
                base: Box::new(base.model()),
                formula: Box::new(formula@),
            },
            OpamPackage::Proxy { base, formula } => PackageModel::Proxy {
                base: Box::new(
                    match **base {
                        Some(b) => Some(b.model()),
                        None => None,
                    },
                ),
                formula: Box::new(formula@),
            },
            OpamPackage::Var(name) => PackageModel::Var(name@),
        }
    }
}

impl View for OpamPackage {
    type V = PackageModel;

    open spec fn view(&self) -> PackageModel {
        self.model()
    }
}

/// The models of a list of constraints.
pub open spec fn constraint_models(c: Seq<(OpamPackage, Range<OpamVersion>)>) -> ConstraintsModel {
    models(c)
}

/// The model of a `Root` package is the list of the models of its children.
pub proof fn lemma_root_model(children: Vec<(OpamPackage, Range<OpamVersion>)>)
    ensures
        OpamPackage::Root(children)@ == PackageModel::Root(constraint_models(children@)),
{
    assert(OpamPackage::Root(children).model()->Root_0 =~= constraint_models(children@));
}

/// Copies a list of constraints.
pub fn duplicate_constraints(c: &Vec<(OpamPackage, Range<OpamVersion>)>) -> (r: Vec<
    (OpamPackage, Range<OpamVersion>),
>)
    ensures
        constraint_models(r@) == constraint_models(c@),
    decreases c,
{
    let mut out: Vec<(OpamPackage, Range<OpamVersion>)> = Vec::new();
    let mut i: usize = 0;
    while i < c.len()
        invariant
            i <= c.len(),
            out@.len() == i,
            forall|j: int| 0 <= j < i ==> out@[j].0@ == c@[j].0@ && out@[j].1@ == c@[j].1@,
        decreases c.len() - i,
    {
        let package = c[i].0.clone();
        let range = c[i].1.duplicate();
        out.push((package, range));
        i = i + 1;
    }
    assert(constraint_models(out@) =~= constraint_models(c@));
    out
}

/// Whether two lists of constraints are written the same.
pub fn same_constraints(
    a: &Vec<(OpamPackage, Range<OpamVersion>)>,
    b: &Vec<(OpamPackage, Range<OpamVersion>)>,
) -> (r: bool)
    ensures
        r == (constraint_models(a@) == constraint_models(b@)),
    decreases a,
{
    if a.len() != b.len() {
        assert(constraint_models(a@).len() != constraint_models(b@).len());
        return false;
    }
    let mut i: usize = 0;
    while i < a.len()
        invariant
            i <= a.len(),
            a.len() == b.len(),
            forall|j: int| 0 <= j < i ==> a@[j].0@ == b@[j].0@ && a@[j].1@ == b@[j].1@,
        decreases a.len() - i,
    {
        if !(a[i].0.same(&b[i].0) && a[i].1.same(&b[i].1)) {
            assert(constraint_models(a@)[i as int] != constraint_models(b@)[i as int]);
            return false;
        }
        i = i + 1;
    }
    assert(constraint_models(a@) =~= constraint_models(b@));
    true
}

impl Copied for OpamPackage {
    fn copied(&self) -> (r: Self) {
        self.clone()
    }
}

impl Key for OpamPackage {
    fn same_key(&self, other: &Self) -> (r: bool) {
        self.same(other)
    }
}

impl Clone for OpamPackage {
    fn clone(&self) -> (r: Self)
        ensures
            r@ == self@,
        decreases self,
    {
        match self {
            OpamPackage::Root(children) => {
                let copy = duplicate_constraints(children);
                proof {
                    lemma_root_model(copy);
                    lemma_root_model(*children);
                }
                OpamPackage::Root(copy)
            },
            OpamPackage::Base(name) => OpamPackage::Base(name.clone()),
            OpamPackage::Depext { names, formula } => OpamPackage::Depext {
                names: duplicate_names(names),
                formula: formula.clone(),
            },
            OpamPackage::ConflictClass(name) => OpamPackage::ConflictClass(name.clone()),
            OpamPackage::Lor { lhs, rhs } => OpamPackage::Lor {
                lhs: Box::new((**lhs).clone()),
                rhs: Box::new((**rhs).clone()),
            },
            OpamPackage::Formula { base, formula } => OpamPackage::Formula {
                base: Box::new((**base).clone()),
                formula: Box::new((**formula).clone()),
            },
            OpamPackage::Proxy { base, formula } => {
                let b = match &**base {
                    Some(p) => Some(p.clone()),
                    None => None,
                };
                OpamPackage::Proxy { base: Box::new(b), formula: Box::new((**formula).clone()) }
            },
            OpamPackage::Var(name) => OpamPackage::Var(name.clone()),
        }
    }
}

impl OpamPackage {
    /// Whether two packages are the same package: whether they are written
    /// the same, through all their parts.
    pub fn same(&self, other: &OpamPackage) -> (r: bool)
        ensures
            r == (self@ == other@),
        decreases self,
    {
        match (self, other) {
            (OpamPackage::Root(a), OpamPackage::Root(b)) => {
                proof {
                    lemma_root_model(*a);
                    lemma_root_model(*b);
                }
                same_constraints(a, b)
            },
            (OpamPackage::Base(a), OpamPackage::Base(b)) => *a == *b,
            (
                OpamPackage::Depext { names: n1, formula: f1 },
                OpamPackage::Depext { names: n2, formula: f2 },
            ) => same_names(n1, n2) && f1.same(f2),
            (OpamPackage::ConflictClass(a), OpamPackage::ConflictClass(b)) => *a == *b,
            (OpamPackage::Lor { lhs: l1, rhs: r1 }, OpamPackage::Lor { lhs: l2, rhs: r2 }) => {
                l1.same(l2) && r1.same(r2)
            },
            (
                OpamPackage::Formula { base: b1, formula: f1 },
                OpamPackage::Formula { base: b2, formula: f2 },
            ) => b1.same(b2) && f1.same(f2),
            (
                OpamPackage::Proxy { base: b1, formula: f1 },
                OpamPackage::Proxy { base: b2, formula: f2 },
            ) => {
                let bases = match (&**b1, &**b2) {
                    (Some(p), Some(q)) => p.same(q),
                    (None, None) => true,
                    _ => false,
                };
                bases && f1.same(f2)
            },
            (OpamPackage::Var(a), OpamPackage::Var(b)) => *a == *b,
            _ => false,
        }
    }
}

/// What a package is written as.
///
/// - A root: `Root`; a package of the repository: its name; a variable: its
///   name between backquotes; a conflict class: `Conflict class` and its
///   name.
/// - External dependencies: the list of their names.
/// - A choice between formulas: the two formulas with ` | ` between them.
/// - A package under a filter, and a choice inside a filter: the package and
///   the filter in braces.
pub open spec fn package_text(p: PackageModel) -> Seq<char>
    decreases p,
{
    match p {
        PackageModel::Root(_) => "Root"@,
        PackageModel::Base(name) => name,
        PackageModel::Depext { names, formula } => names_text(names),
        PackageModel::ConflictClass(name) => "Conflict class "@ + name,
        PackageModel::Lor { lhs, rhs } => package_formula_text(*lhs) + " | "@
            + package_formula_text(*rhs),
        PackageModel::Formula { base, formula } => package_text(*base) + " {"@ + formula_text(
            *formula,
        ) + "}"@,
        PackageModel::Proxy { base, formula } => match *base {
            Some(b) => package_text(b) + " {"@ + formula_text(*formula) + "}"@,
            None => "{"@ + formula_text(*formula) + "}"@,
        },
        PackageModel::Var(name) => "`"@ + name + "`"@,
    }
}

/// The name of a package is a text without `/`.
pub open spec fn is_package_name(s: Seq<char>) -> bool {
    find_from(s, '/', 0) is None
}

impl OpamPackage {
    /// Reads the name of a package of the repository. A text with `/` is no
    /// name.
    pub fn from_str(pkg: &str) -> (r: Result<OpamPackage, String>)
        ensures
            r is Ok <==> is_package_name(pkg@),
            r matches Ok(p) ==> p@ == PackageModel::Base(pkg@),
            r matches Err(m) ==> m@ == pkg@ + " is not a valid package name"@,
    {
        let chars = chars_of(pkg);
        match find_char(&chars, '/') {
            None => Ok(OpamPackage::Base(pkg.to_string())),
            Some(_) => {
                let mut message = pkg.to_string();
                message.append(" is not a valid package name");
                Err(message)
            },
        }
    }

    /// What the package is written as.
    pub fn to_string(&self) -> (s: String)
        ensures
            s@ == package_text(self@),
        decreases self,
    {
        match self {
            OpamPackage::Root(children) => {
                proof {
                    lemma_root_model(*children);
                }
                "Root".to_string()
            },
            OpamPackage::Base(pkg) => pkg.clone(),
            OpamPackage::Depext { names, formula } => names_string(names),
            OpamPackage::ConflictClass(pkg) => {
                let mut s = "Conflict class ".to_string();
                s.append(pkg.as_str());
                s
            },
            OpamPackage::Lor { lhs, rhs } => {
                let mut s = lhs.to_string();
                s.append(" | ");
                s.append(rhs.to_string().as_str());
                s
            },
            OpamPackage::Formula { base, formula } => {
                let mut s = base.to_string();
                s.append(" {");
                s.append(formula.to_string().as_str());
                s.append("}");
                s
            },
            OpamPackage::Proxy { base, formula } => {
                let mut s = match &**base {
                    Some(b) => {
                        let mut t = b.to_string();
                        t.append(" {");
                        t
                    },
                    None => "{".to_string(),
                };
                s.append(formula.to_string().as_str());
                s.append("}");
                s
            },
            OpamPackage::Var(var) => {
                let mut s = "`".to_string();
                s.append(var.as_str());
                s.append("`");
                s
            },
        }
    }
}

/// The constraints with what `set` adds for `key`: where the package has an
/// entry, its set is narrowed to what it has in common with `set`; else a new
/// entry goes to the end.
pub open spec fn merge_one(
    m: ConstraintsModel,
    key: PackageModel,
    set: Seq<SegmentModel>,
) -> ConstraintsModel {
    match position(m, key) {
        Some(p) => m.update(p, (m[p].0, range_intersection::<OpamVersion>(m[p].1, set))),
        None => m.push((key, set)),
    }
}

/// `left` after the entries `right[i..]` were merged into it in turn.
pub open spec fn merge_from(left: ConstraintsModel, right: ConstraintsModel, i: int) -> ConstraintsModel
    decreases right.len() - i,
{
    if i < 0 || i >= right.len() {
        left
    } else {
        merge_from(merge_one(left, right[i].0, right[i].1), right, i + 1)
    }
}

/// The constraints that hold when both `left` and `right` hold.
pub open spec fn merge(left: ConstraintsModel, right: ConstraintsModel) -> ConstraintsModel {
    merge_from(left, right, 0)
}

/// The model of a package that may be absent.
pub open spec fn option_model(base: Option<&OpamPackage>) -> Option<PackageModel> {
    match base {
        Some(b) => Some(b@),
        None => None,
    }
}

/// The constraint that allows `set` for `base`, where there is a base.
pub open spec fn base_constraint(
    base: Option<PackageModel>,
    set: Seq<SegmentModel>,
) -> ConstraintsModel {
    match base {
        Some(b) => seq![(b, set)],
        None => Seq::empty(),
    }
}

/// The formula is made of version constraints alone: it is a version
/// constraint, or version constraints joined by `&` and `|`.
pub open spec fn is_pure_version(f: FormulaModel) -> bool
    decreases f,
{
    match f {
        FormulaModel::Version(_) => true,
        FormulaModel::And(l, r) => is_pure_version(*l) && is_pure_version(*r),
        FormulaModel::Or(l, r) => is_pure_version(*l) && is_pure_version(*r),
        _ => false,
    }
}

/// The formula that is true exactly where `f` is false, as far as variables
/// decide. `&` and `|` change places; comparisons take the opposite operator;
/// an operand of `&` or `|` that is made of version constraints alone is
/// dropped, because it says which version is wanted and not whether the
/// package is. A formula that is made of version constraints alone has no
/// negation.
pub open spec fn negated(f: FormulaModel) -> Result<FormulaModel, InternalError>
    decreases f,
{
    match f {
        FormulaModel::Version(_) => Err(InternalError::NegatedVersion),
        FormulaModel::Variable(x) => Ok(FormulaModel::Not(x)),
        FormulaModel::Not(x) => Ok(FormulaModel::Variable(x)),
        FormulaModel::Lit(v) => Ok(FormulaModel::Lit(v)),
        FormulaModel::Comparator { relop, lhs, rhs } => Ok(
            FormulaModel::Comparator { relop: relop.negated(), lhs, rhs },
        ),
        FormulaModel::And(l, r) => if is_pure_version(*l) {
            negated(*r)
        } else if is_pure_version(*r) {
            negated(*l)
        } else {
            match (negated(*l), negated(*r)) {
                (Ok(a), Ok(b)) => Ok(FormulaModel::Or(Box::new(a), Box::new(b))),
                _ => Err(InternalError::NegatedVersion),
            }
        },
        FormulaModel::Or(l, r) => if is_pure_version(*l) {
            negated(*r)
        } else if is_pure_version(*r) {
            negated(*l)
        } else {
            match (negated(*l), negated(*r)) {
                (Ok(a), Ok(b)) => Ok(FormulaModel::And(Box::new(a), Box::new(b))),
                _ => Err(InternalError::NegatedVersion),
            }
        },
    }
}

/// The formula without the operands of `&` and `|` that are made of version
/// constraints alone, through all its levels.
pub open spec fn stripped(f: FormulaModel) -> FormulaModel
    decreases f,
{
    match f {
        FormulaModel::And(l, r) => if is_pure_version(*l) {
            stripped(*r)
        } else if is_pure_version(*r) {
            stripped(*l)
        } else {
            FormulaModel::And(Box::new(stripped(*l)), Box::new(stripped(*r)))
        },
        FormulaModel::Or(l, r) => if is_pure_version(*l) {
            stripped(*r)
        } else if is_pure_version(*r) {
            stripped(*l)
        } else {
            FormulaModel::Or(Box::new(stripped(*l)), Box::new(stripped(*r)))
        },
        _ => f,
    }
}

/// A formula has a negation exactly when it is not made of version
/// constraints alone. The negation holds no version constraint beside `&` or
/// `|`, so that stripping it changes nothing.
pub proof fn lemma_negated_shape(f: FormulaModel)
    ensures
        negated(f) is Ok <==> !is_pure_version(f),
        negated(f) is Err ==> negated(f) == Err::<FormulaModel, InternalError>(
            InternalError::NegatedVersion,
        ),
        negated(f) matches Ok(g) ==> !is_pure_version(g) && stripped(g) == g,
    decreases f,
{
    match f {
        FormulaModel::And(l, r) | FormulaModel::Or(l, r) => {
            lemma_negated_shape(*l);
            lemma_negated_shape(*r);
        },
        _ => {},
    }
}

/// Stripping keeps a formula from being made of version constraints alone,
/// and does not change its negation.
pub proof fn law_negation_ignores_versions(f: FormulaModel)
    requires
        !is_pure_version(f),
    ensures
        !is_pure_version(stripped(f)),
        negated(f) == negated(stripped(f)),
    decreases f,
{
    match f {
        FormulaModel::And(l, r) | FormulaModel::Or(l, r) => {
            if is_pure_version(*l) {
                law_negation_ignores_versions(*r);
            } else if is_pure_version(*r) {
                law_negation_ignores_versions(*l);
            } else {
                law_negation_ignores_versions(*l);
                law_negation_ignores_versions(*r);
            }
        },
        _ => {},
    }
}

/// Negating twice gives the formula back, without the version constraints
/// that negation drops: every formula that is not made of version constraints
/// alone has a negation, the negation has one too, and that is the formula
/// stripped of those constraints.
pub proof fn law_negation_idempotent(f: FormulaModel)
    requires
        !is_pure_version(f),
    ensures
        negated(f) is Ok,
        negated(negated(f)->Ok_0) == Ok::<FormulaModel, InternalError>(stripped(f)),
    decreases f,
{
    lemma_negated_shape(f);
    match f {
        FormulaModel::And(l, r) | FormulaModel::Or(l, r) => {
            if is_pure_version(*l) {
                law_negation_idempotent(*r);
            } else if is_pure_version(*r) {
                law_negation_idempotent(*l);
            } else {
                law_negation_idempotent(*l);
                law_negation_idempotent(*r);
                lemma_negated_shape(*l);
                lemma_negated_shape(*r);
            }
        },
        FormulaModel::Comparator { relop, lhs, rhs } => {
            assert(relop.negated().negated() == relop);
        },
        _ => {},
    }
}

/// Whether the formula is made of version constraints alone.
pub fn pure_version(f: &VersionFormula) -> (r: bool)
    ensures
        r == is_pure_version(f@),
    decreases f,
{
    match f {
        VersionFormula::Version(_) => true,
        VersionFormula::And(binary) => pure_version(&binary.lhs) && pure_version(&binary.rhs),
        VersionFormula::Or(binary) => pure_version(&binary.lhs) && pure_version(&binary.rhs),
        _ => false,
    }
}

/// The formula that is true where `expr` is false, as far as variables
/// decide. Fails exactly on a formula that is made of version constraints
/// alone.
pub fn negate_formula(expr: VersionFormula) -> (r: Result<VersionFormula, InternalError>)
    ensures
        match r {
            Ok(g) => negated(expr@) == Ok::<FormulaModel, InternalError>(g@),
            Err(e) => negated(expr@) == Err::<FormulaModel, InternalError>(e),
        },
        r is Ok <==> !is_pure_version(expr@),
    decreases expr,
{
    proof {
        lemma_negated_shape(expr@);
    }
    match expr {
        VersionFormula::Version(_) => Err(InternalError::NegatedVersion),
        VersionFormula::Variable(variable) => Ok(VersionFormula::Not(variable)),
        VersionFormula::Not(variable) => Ok(VersionFormula::Variable(variable)),
        VersionFormula::Lit(lit) => Ok(VersionFormula::Lit(lit)),
        VersionFormula::Comparator { relop, binary } => Ok(
            VersionFormula::Comparator { relop: negate_relop(relop), binary },
        ),
        VersionFormula::And(Binary { lhs, rhs }) => {
            if pure_version(&lhs) {
                negate_formula(*rhs)
            } else if pure_version(&rhs) {
                negate_formula(*lhs)
            } else {
                let a = negate_formula(*lhs);
                let b = negate_formula(*rhs);
                match (a, b) {
                    (Ok(x), Ok(y)) => Ok(
                        VersionFormula::Or(Binary { lhs: Box::new(x), rhs: Box::new(y) }),
                    ),
                    _ => Err(InternalError::NegatedVersion),
                }
            }
        },
        VersionFormula::Or(Binary { lhs, rhs }) => {
            if pure_version(&lhs) {
                negate_formula(*rhs)
            } else if pure_version(&rhs) {
                negate_formula(*lhs)
            } else {
                let a = negate_formula(*lhs);
                let b = negate_formula(*rhs);
                match (a, b) {
                    (Ok(x), Ok(y)) => Ok(
                        VersionFormula::And(Binary { lhs: Box::new(x), rhs: Box::new(y) }),
                    ),
                    _ => Err(InternalError::NegatedVersion),
                }
            }
        },
    }
}


/// What compiling a version formula gives: the constraints or the error,
/// and the values known for the variables afterwards.
pub struct Outcome {
    pub result: Result<ConstraintsModel, InternalError>,
    pub variables: Table,
}

/// The constraints for the filter `f` on the package `base`, and the values
/// of variables that the filter mentions.
///
/// - A version constraint allows its set for the base.
/// - A variable, plain or negated, allows any version of the base and asks
///   for the variable to be `true` or `false`.
/// - A comparison of a variable with a literal allows any version of the base
///   and the values of the variable that stand in that relation to the
///   literal, which becomes a known value of the variable.
/// - `&` asks for both sides.
/// - `|`, and `=` or `!=` between other formulas, leave the choice to a
///   `Proxy` package.
pub open spec fn version_outcome(
    base: Option<PackageModel>,
    f: FormulaModel,
    variables: Table,
) -> Outcome
    decreases f,
{
    match f {
        FormulaModel::Version(range) => Outcome {
            result: Ok(base_constraint(base, range)),
            variables,
        },
        FormulaModel::Variable(x) => Outcome {
            result: Ok(
                put(
                    base_constraint(base, full_range()),
                    PackageModel::Var(x),
                    singleton_range("true"@),
                ),
            ),
            variables,
        },
        FormulaModel::Not(x) => Outcome {
            result: Ok(
                put(
                    base_constraint(base, full_range()),
                    PackageModel::Var(x),
                    singleton_range("false"@),
                ),
            ),
            variables,
        },
        FormulaModel::Or(_, _) => Outcome {
            result: Ok(
                seq![
                    (
                        PackageModel::Proxy { base: Box::new(base), formula: Box::new(f) },
                        full_range(),
                    ),
                ],
            ),
            variables,
        },
        FormulaModel::And(l, r) => {
            let first = version_outcome(base, *l, variables);
            match first.result {
                Err(e) => first,
                Ok(c1) => {
                    let second = version_outcome(base, *r, first.variables);
                    match second.result {
                        Err(e) => second,
                        Ok(c2) => Outcome { result: Ok(merge(c1, c2)), variables: second.variables },
                    }
                },
            }
        },
        FormulaModel::Comparator { relop, lhs, rhs } => match (*lhs, *rhs) {
            (FormulaModel::Lit(value), FormulaModel::Variable(x))
            | (FormulaModel::Variable(x), FormulaModel::Lit(value)) => Outcome {
                result: Ok(
                    put(
                        base_constraint(base, full_range()),
                        PackageModel::Var(x),
                        relop.range_of(value),
                    ),
                ),
                variables: learn(variables, x, value),
            },
            _ => if relop == RelOp::Eq || relop == RelOp::Neq {
                Outcome {
                    result: Ok(
                        put(
                            base_constraint(base, full_range()),
                            PackageModel::Proxy { base: Box::new(base), formula: Box::new(f) },
                            full_range(),
                        ),
                    ),
                    variables,
                }
            } else {
                Outcome { result: Err(InternalError::InvalidOperator), variables }
            },
        },
        FormulaModel::Lit(_) => Outcome { result: Err(InternalError::StrayLiteral), variables },
    }
}

/// The constraints that hold when the filters `a` and `b` both hold for
/// `base`, where each of the two may have failed to be built.
pub open spec fn both_outcome(
    base: Option<PackageModel>,
    a: Result<FormulaModel, InternalError>,
    b: Result<FormulaModel, InternalError>,
    variables: Table,
) -> Outcome {
    match a {
        Err(e) => Outcome { result: Err(e), variables },
        Ok(fa) => {
            let first = version_outcome(base, fa, variables);
            match (first.result, b) {
                (Err(e), _) => first,
                (Ok(c1), Err(e)) => Outcome { result: Err(e), variables: first.variables },
                (Ok(c1), Ok(fb)) => {
                    let second = version_outcome(base, fb, first.variables);
                    match second.result {
                        Err(e) => second,
                        Ok(c2) => Outcome { result: Ok(merge(c1, c2)), variables: second.variables },
                    }
                },
            }
        },
    }
}

/// The constraints of a `Proxy` package over `f` at `version`.
///
/// - Over `l | r`: `lhs` asks for `l`, `rhs` for `r`.
/// - Over `l = r`: `lhs` asks for both sides, `rhs` for the negation of both.
/// - Over `l != r`: `lhs` asks for `l` and the negation of `r`, `rhs` for the
///   negation of `l` and `r`.
pub open spec fn proxy_outcome(
    base: Option<PackageModel>,
    version: Seq<char>,
    f: FormulaModel,
    variables: Table,
) -> Outcome {
    match f {
        FormulaModel::Or(l, r) => if version == "lhs"@ {
            version_outcome(base, *l, variables)
        } else if version == "rhs"@ {
            version_outcome(base, *r, variables)
        } else {
            Outcome { result: Err(InternalError::UnknownChoice), variables }
        },
        FormulaModel::Comparator { relop, lhs, rhs } => if relop == RelOp::Eq {
            if version == "lhs"@ {
                both_outcome(base, Ok(*lhs), Ok(*rhs), variables)
            } else if version == "rhs"@ {
                both_outcome(base, negated(*lhs), negated(*rhs), variables)
            } else {
                Outcome { result: Err(InternalError::UnknownChoice), variables }
            }
        } else if relop == RelOp::Neq {
            if version == "lhs"@ {
                both_outcome(base, Ok(*lhs), negated(*rhs), variables)
            } else if version == "rhs"@ {
                both_outcome(base, negated(*lhs), Ok(*rhs), variables)
            } else {
                Outcome { result: Err(InternalError::UnknownChoice), variables }
            }
        } else {
            Outcome { result: Err(InternalError::InvalidOperator), variables }
        },
        _ => Outcome { result: Err(InternalError::MisplacedProxy), variables },
    }
}

/// The package that stands for the name and the filter of a package formula:
/// the package itself under a bare version constraint, else the `Formula`
/// package that decides whether it is wanted.
pub open spec fn filtered(base: PackageModel, formula: FormulaModel) -> ConstraintsModel {
    match formula {
        FormulaModel::Version(range) => seq![(base, range)],
        _ => seq![
            (
                PackageModel::Formula { base: Box::new(base), formula: Box::new(formula) },
                full_range(),
            ),
        ],
    }
}

/// The constraints of a package formula, and the members known for the
/// conflict classes afterwards.
///
/// - A package with a filter: see [`filtered`].
/// - Membership in a conflict class asks for the member's own version of the
///   class, and makes the member known.
/// - `|` leaves the choice to a `Lor` package.
/// - `&` asks for both sides.
pub open spec fn package_outcome(f: PackageFormulaModel, conflicts: Table) -> (
    ConstraintsModel,
    Table,
)
    decreases f,
{
    match f {
        PackageFormulaModel::Base { name, formula } => (
            filtered(PackageModel::Base(name), formula),
            conflicts,
        ),
        PackageFormulaModel::Depext { names, formula } => (
            filtered(PackageModel::Depext { names, formula }, formula),
            conflicts,
        ),
        PackageFormulaModel::ConflictClass { name, package } => (
            seq![(PackageModel::ConflictClass(name), singleton_range(package))],
            learn(conflicts, name, package),
        ),
        PackageFormulaModel::Or(l, r) => (
            seq![(PackageModel::Lor { lhs: l, rhs: r }, full_range())],
            conflicts,
        ),
        PackageFormulaModel::And(l, r) => {
            let first = package_outcome(*l, conflicts);
            let second = package_outcome(*r, first.1);
            (merge(first.0, second.0), second.1)
        },
    }
}

/// The constraints of the formulas `fs[i..]` merged into `acc` in turn, and
/// the members known for the conflict classes afterwards.
pub open spec fn formulas_outcome_from(
    fs: Seq<PackageFormulaModel>,
    i: int,
    acc: ConstraintsModel,
    conflicts: Table,
) -> (ConstraintsModel, Table)
    decreases fs.len() - i,
{
    if i < 0 || i >= fs.len() {
        (acc, conflicts)
    } else {
        let one = package_outcome(fs[i], conflicts);
        formulas_outcome_from(fs, i + 1, merge(acc, one.0), one.1)
    }
}

/// The constraints of a list of formulas that all have to hold.
pub open spec fn formulas_outcome(fs: Seq<PackageFormulaModel>, conflicts: Table) -> (
    ConstraintsModel,
    Table,
) {
    formulas_outcome_from(fs, 0, Seq::empty(), conflicts)
}

/// The models of a list of formulas.
pub open spec fn formula_models(fs: Seq<PackageFormula>) -> Seq<PackageFormulaModel> {
    fs.map_values(|f: PackageFormula| f@)
}

/// Narrows the entry for `key` by `set`, or adds the entry.
fn merge_constraint(
    map: &mut Vec<(OpamPackage, Range<OpamVersion>)>,
    key: OpamPackage,
    set: Range<OpamVersion>,
)
    ensures
        constraint_models(final(map)@) == merge_one(constraint_models(old(map)@), key@, set@),
{
    let ghost before = constraint_models(map@);
    match find_constraint(map, &key) {
        Some(p) => {
            assert(before[p as int] == (map@[p as int].0@, map@[p as int].1@));
            let narrowed = map[p].1.intersection(&set);
            let package = map[p].0.clone();
            map.set(p, (package, narrowed));
            assert(constraint_models(map@) =~= before.update(
                p as int,
                (before[p as int].0, range_intersection::<OpamVersion>(before[p as int].1, set@)),
            ));
        },
        None => {
            map.push((key, set));
            assert(constraint_models(map@) =~= before.push((key@, set@)));
        },
    }
}

/// The constraints that hold when both `left` and `right` hold: a package
/// that both constrain is allowed what both allow.
pub fn merge_constraints(
    left: Vec<(OpamPackage, Range<OpamVersion>)>,
    right: Vec<(OpamPackage, Range<OpamVersion>)>,
) -> (r: Vec<(OpamPackage, Range<OpamVersion>)>)
    ensures
        constraint_models(r@) == merge(constraint_models(left@), constraint_models(right@)),
{
    let mut out = left;
    let ghost a = constraint_models(left@);
    let ghost b = constraint_models(right@);
    let mut i: usize = 0;
    while i < right.len()
        invariant
            i <= right.len(),
            b == constraint_models(right@),
            merge(a, b) == merge_from(constraint_models(out@), b, i as int),
        decreases right.len() - i,
    {
        assert(b[i as int] == (right@[i as int].0@, right@[i as int].1@));
        let package = right[i].0.clone();
        let range = right[i].1.duplicate();
        merge_constraint(&mut out, package, range);
        i = i + 1;
    }
    out
}

/// The version `true`.
pub fn true_version() -> (v: OpamVersion)
    ensures
        v@ == "true"@,
{
    OpamVersion("true".to_string())
}

/// The version `false`.
pub fn false_version() -> (v: OpamVersion)
    ensures
        v@ == "false"@,
{
    OpamVersion("false".to_string())
}

/// The version `lhs`.
pub fn lhs_version() -> (v: OpamVersion)
    ensures
        v@ == "lhs"@,
{
    OpamVersion("lhs".to_string())
}

/// The version `rhs`.
pub fn rhs_version() -> (v: OpamVersion)
    ensures
        v@ == "rhs"@,
{
    OpamVersion("rhs".to_string())
}

/// The constraint on the base, where there is one.
fn base_entry(base: Option<&OpamPackage>, set: Range<OpamVersion>) -> (r: Vec<
    (OpamPackage, Range<OpamVersion>),
>)
    ensures
        constraint_models(r@) == base_constraint(option_model(base), set@),
{
    let mut map: Vec<(OpamPackage, Range<OpamVersion>)> = Vec::new();
    match base {
        Some(b) => {
            map.push((b.clone(), set));
            assert(constraint_models(map@) =~= seq![(b@, set@)]);
        },
        None => {
            assert(constraint_models(map@) =~= Seq::empty());
        },
    }
    map
}

/// A copy of the base, where there is one.
fn duplicate_base(base: Option<&OpamPackage>) -> (r: Option<OpamPackage>)
    ensures
        match r {
            Some(b) => option_model(base) == Some(b@),
            None => option_model(base) is None,
        },
{
    match base {
        Some(b) => Some(b.clone()),
        None => None,
    }
}

/// The `Proxy` package for `formula` on `base`, allowed at any version.
fn proxy_entry(base: Option<&OpamPackage>, formula: &VersionFormula) -> (r: (
    OpamPackage,
    Range<OpamVersion>,
))
    ensures
        r.0@ == (PackageModel::Proxy {
            base: Box::new(option_model(base)),
            formula: Box::new(formula@),
        }),
        r.1@ == full_range(),
{
    (
        OpamPackage::Proxy {
            base: Box::new(duplicate_base(base)),
            formula: Box::new(formula.clone()),
        },
        Range::full(),
    )
}

/// Compiles the filter `formula` on the package `base` into constraints. The
/// values that the filter compares variables with become known values of
/// those variables.
pub fn from_version_formula(
    base: Option<&OpamPackage>,
    formula: &VersionFormula,
    ctx: &mut Context,
) -> (r: Result<Vec<(OpamPackage, Range<OpamVersion>)>, InternalError>)
    ensures
        match r {
            Ok(c) => version_outcome(option_model(base), formula@, old(ctx)@.variables).result
                == Ok::<ConstraintsModel, InternalError>(constraint_models(c@)),
            Err(e) => version_outcome(option_model(base), formula@, old(ctx)@.variables).result
                == Err::<ConstraintsModel, InternalError>(e),
        },
        final(ctx)@.variables == version_outcome(
            option_model(base),
            formula@,
            old(ctx)@.variables,
        ).variables,
        final(ctx)@.conflicts == old(ctx)@.conflicts,
    decreases formula,
{
    match formula {
        VersionFormula::Version(range) => Ok(base_entry(base, range.0.duplicate())),
        VersionFormula::Variable(variable) => {
            let mut map = base_entry(base, Range::full());
            put_constraint(
                &mut map,
                OpamPackage::Var(variable.clone()),
                Range::singleton(true_version()),
            );
            Ok(map)
        },
        VersionFormula::Not(variable) => {
            let mut map = base_entry(base, Range::full());
            put_constraint(
                &mut map,
                OpamPackage::Var(variable.clone()),
                Range::singleton(false_version()),
            );
            Ok(map)
        },
        VersionFormula::Or(_) => {
            let entry = proxy_entry(base, formula);
            let mut map: Vec<(OpamPackage, Range<OpamVersion>)> = Vec::new();
            map.push(entry);
            assert(constraint_models(map@) =~= seq![(entry.0@, entry.1@)]);
            Ok(map)
        },
        VersionFormula::And(Binary { lhs, rhs }) => {
            let left = match from_version_formula(base, lhs, ctx) {
                Ok(c) => c,
                Err(e) => {
                    return Err(e);
                },
            };
            let right = match from_version_formula(base, rhs, ctx) {
                Ok(c) => c,
                Err(e) => {
                    return Err(e);
                },
            };
            Ok(merge_constraints(left, right))
        },
        VersionFormula::Comparator { relop, binary } => {
            let mut map = base_entry(base, Range::full());
            match (&*binary.lhs, &*binary.rhs) {
                (VersionFormula::Lit(value), VersionFormula::Variable(variable))
                | (VersionFormula::Variable(variable), VersionFormula::Lit(value)) => {
                    ctx.learn_variable(variable, value);
                    let range = relop_to_range(relop, OpamVersion(value.0.clone()));
                    put_constraint(&mut map, OpamPackage::Var(variable.clone()), range);
                    assert(formula@ matches FormulaModel::Comparator { relop: op, lhs: l, rhs: r }
                        && op == *relop && *l == binary.lhs@ && *r == binary.rhs@);
                    Ok(map)
                },
                _ => {
                    match relop {
                        RelOp::Eq | RelOp::Neq => {
                            let entry = proxy_entry(base, formula);
                            put_constraint(&mut map, entry.0, entry.1);
                            Ok(map)
                        },
                        _ => Err(InternalError::InvalidOperator),
                    }
                },
            }
        },
        VersionFormula::Lit(_) => Err(InternalError::StrayLiteral),
    }
}

/// Compiles two filters on `base` that both have to hold, each of which may
/// have failed to be built.
fn from_both(
    base: Option<&OpamPackage>,
    first: Result<VersionFormula, InternalError>,
    second: Result<VersionFormula, InternalError>,
    ctx: &mut Context,
) -> (r: Result<Vec<(OpamPackage, Range<OpamVersion>)>, InternalError>)
    ensures
        match r {
            Ok(c) => both_outcome(
                option_model(base),
                result_model(first),
                result_model(second),
                old(ctx)@.variables,
            ).result == Ok::<ConstraintsModel, InternalError>(constraint_models(c@)),
            Err(e) => both_outcome(
                option_model(base),
                result_model(first),
                result_model(second),
                old(ctx)@.variables,
            ).result == Err::<ConstraintsModel, InternalError>(e),
        },
        final(ctx)@.variables == both_outcome(
            option_model(base),
            result_model(first),
            result_model(second),
            old(ctx)@.variables,
        ).variables,
        final(ctx)@.conflicts == old(ctx)@.conflicts,
{
    let a = match first {
        Ok(f) => f,
        Err(e) => {
            return Err(e);
        },
    };
    let left = match from_version_formula(base, &a, ctx) {
        Ok(c) => c,
        Err(e) => {
            return Err(e);
        },
    };
    let b = match second {
        Ok(f) => f,
        Err(e) => {
            return Err(e);
        },
    };
    let right = match from_version_formula(base, &b, ctx) {
        Ok(c) => c,
        Err(e) => {
            return Err(e);
        },
    };
    Ok(merge_constraints(left, right))
}

/// The model of a formula that may have failed to be built.
pub open spec fn result_model(f: Result<VersionFormula, InternalError>) -> Result<
    FormulaModel,
    InternalError,
> {
    match f {
        Ok(g) => Ok(g@),
        Err(e) => Err(e),
    }
}

/// Whether the version is written `text`.
fn version_is(version: &OpamVersion, text: &str) -> (r: bool)
    ensures
        r == (version@ == text@),
{
    version.0 == text.to_string()
}

/// The constraints of a `Proxy` package over `formula` at `version`.
pub fn from_proxy_formula(
    base: Option<&OpamPackage>,
    version: &OpamVersion,
    formula: &VersionFormula,
    ctx: &mut Context,
) -> (r: Result<Vec<(OpamPackage, Range<OpamVersion>)>, InternalError>)
    ensures
        match r {
            Ok(c) => proxy_outcome(
                option_model(base),
                version@,
                formula@,
                old(ctx)@.variables,
            ).result == Ok::<ConstraintsModel, InternalError>(constraint_models(c@)),
            Err(e) => proxy_outcome(
                option_model(base),
                version@,
                formula@,
                old(ctx)@.variables,
            ).result == Err::<ConstraintsModel, InternalError>(e),
        },
        final(ctx)@.variables == proxy_outcome(
            option_model(base),
            version@,
            formula@,
            old(ctx)@.variables,
        ).variables,
        final(ctx)@.conflicts == old(ctx)@.conflicts,
{
    match formula {
        VersionFormula::Or(Binary { lhs, rhs }) => {
            if version_is(version, "lhs") {
                from_version_formula(base, lhs, ctx)
            } else if version_is(version, "rhs") {
                from_version_formula(base, rhs, ctx)
            } else {
                Err(InternalError::UnknownChoice)
            }
        },
        VersionFormula::Comparator { relop, binary } => {
            assert(formula@ matches FormulaModel::Comparator { relop: op, lhs: l, rhs: r } && op
                == *relop && *l == binary.lhs@ && *r == binary.rhs@);
            match relop {
                RelOp::Eq => {
                    if version_is(version, "lhs") {
                        from_both(
                            base,
                            Ok((*binary.lhs).clone()),
                            Ok((*binary.rhs).clone()),
                            ctx,
                        )
                    } else if version_is(version, "rhs") {
                        from_both(
                            base,
                            negate_formula((*binary.lhs).clone()),
                            negate_formula((*binary.rhs).clone()),
                            ctx,
                        )
                    } else {
                        Err(InternalError::UnknownChoice)
                    }
                },
                RelOp::Neq => {
                    if version_is(version, "lhs") {
                        from_both(
                            base,
                            Ok((*binary.lhs).clone()),
                            negate_formula((*binary.rhs).clone()),
                            ctx,
                        )
                    } else if version_is(version, "rhs") {
                        from_both(
                            base,
                            negate_formula((*binary.lhs).clone()),
                            Ok((*binary.rhs).clone()),
                            ctx,
                        )
                    } else {
                        Err(InternalError::UnknownChoice)
                    }
                },
                _ => Err(InternalError::InvalidOperator),
            }
        },
        _ => Err(InternalError::MisplacedProxy),
    }
}

/// The constraints for a package and its filter.
fn from_filtered(base: OpamPackage, formula: &VersionFormula) -> (r: Vec<
    (OpamPackage, Range<OpamVersion>),
>)
    ensures
        constraint_models(r@) == filtered(base@, formula@),
{
    let mut map: Vec<(OpamPackage, Range<OpamVersion>)> = Vec::new();
    match formula {
        VersionFormula::Version(range) => {
            let set = range.0.duplicate();
            map.push((base, set));
            assert(constraint_models(map@) =~= seq![(base@, set@)]);
        },
        _ => {
            let package = OpamPackage::Formula {
                base: Box::new(base),
                formula: Box::new(formula.clone()),
            };
            let set: Range<OpamVersion> = Range::full();
            map.push((package, set));
            assert(constraint_models(map@) =~= seq![(package@, set@)]);
        },
    }
    map
}

/// Compiles a package formula into constraints. The members of conflict
/// classes that the formula names become known.
pub fn from_formula(formula: &PackageFormula, ctx: &mut Context) -> (r: Vec<
    (OpamPackage, Range<OpamVersion>),
>)
    ensures
        constraint_models(r@) == package_outcome(formula@, old(ctx)@.conflicts).0,
        final(ctx)@.conflicts == package_outcome(formula@, old(ctx)@.conflicts).1,
        final(ctx)@.variables == old(ctx)@.variables,
    decreases formula,
{
    match formula {
        PackageFormula::Base { name, formula } => from_filtered(
            OpamPackage::Base(name.clone()),
            formula,
        ),
        PackageFormula::Depext { names, formula } => from_filtered(
            OpamPackage::Depext { names: duplicate_names(names), formula: formula.clone() },
            formula,
        ),
        PackageFormula::ConflictClass { name, package } => {
            let member = OpamVersion(package.clone());
            ctx.learn_conflict(name, &member);
            let key = OpamPackage::ConflictClass(name.clone());
            let set = Range::singleton(member);
            let mut map: Vec<(OpamPackage, Range<OpamVersion>)> = Vec::new();
            map.push((key, set));
            assert(constraint_models(map@) =~= seq![(key@, set@)]);
            map
        },
        PackageFormula::Or(Binary { lhs, rhs }) => {
            let key = OpamPackage::Lor {
                lhs: Box::new((**lhs).clone()),
                rhs: Box::new((**rhs).clone()),
            };
            let set: Range<OpamVersion> = Range::full();
            let mut map: Vec<(OpamPackage, Range<OpamVersion>)> = Vec::new();
            map.push((key, set));
            assert(constraint_models(map@) =~= seq![(key@, set@)]);
            map
        },
        PackageFormula::And(Binary { lhs, rhs }) => {
            let left = from_formula(lhs, ctx);
            let right = from_formula(rhs, ctx);
            merge_constraints(left, right)
        },
    }
}

/// Compiles a list of package formulas that all have to hold.
pub fn from_formulas(formulas: &Vec<PackageFormula>, ctx: &mut Context) -> (r: Vec<
    (OpamPackage, Range<OpamVersion>),
>)
    ensures
        constraint_models(r@) == formulas_outcome(
            formula_models(formulas@),
            old(ctx)@.conflicts,
        ).0,
        final(ctx)@.conflicts == formulas_outcome(
            formula_models(formulas@),
            old(ctx)@.conflicts,
        ).1,
        final(ctx)@.variables == old(ctx)@.variables,
{
    let ghost fs = formula_models(formulas@);
    let ghost start = ctx@.conflicts;
    let mut acc: Vec<(OpamPackage, Range<OpamVersion>)> = Vec::new();
    assert(constraint_models(acc@) =~= Seq::empty());
    let mut i: usize = 0;
    while i < formulas.len()
        invariant
            i <= formulas.len(),
            fs == formula_models(formulas@),
            ctx@.variables == old(ctx)@.variables,
            formulas_outcome(fs, start) == formulas_outcome_from(
                fs,
                i as int,
                constraint_models(acc@),
                ctx@.conflicts,
            ),
        decreases formulas.len() - i,
    {
        assert(fs[i as int] == formulas@[i as int]@);
        let one = from_formula(&formulas[i], ctx);
        acc = merge_constraints(acc, one);
        i = i + 1;
    }
    acc
}

/// The values of the variable `os`.
pub open spec fn os_values() -> Seq<Seq<char>> {
    seq![
        "linux"@,
        "macos"@,
        "win32"@,
        "cygwin"@,
        "freebsd"@,
        "openbsd"@,
        "netbsd"@,
        "dragonfly"@,
    ]
}

/// The values of the variable `arch`.
pub open spec fn arch_values() -> Seq<Seq<char>> {
    seq!["arm64"@, "x86_32"@, "x86_64"@, "ppc32"@, "ppc64"@, "arm32"@]
}

/// The versions of a package, in the order in which they are tried.
///
/// - `Root` and, seen from OPAM alone, `Depext` have the one version `""`.
/// - A package of the repository has its versions, newest first.
/// - A conflict class has the members known for it.
/// - `Lor` and `Proxy` have `lhs` and `rhs`; `Formula` has `true` and
///   `false`.
/// - A variable has its values: a fixed list for `os` and `arch`, else the
///   values known for it, else `true` and `false`.
pub open spec fn opam_versions(
    index: &OpamIndex,
    ctx: ContextModel,
    package: PackageModel,
) -> Seq<Seq<char>> {
    match package {
        PackageModel::Root(_) => seq![""@],
        PackageModel::Depext { .. } => seq![""@],
        PackageModel::Base(name) => index.packages.versions_of(name),
        PackageModel::ConflictClass(name) => match values_of(ctx.conflicts, name) {
            Some(members) => members,
            None => Seq::empty(),
        },
        PackageModel::Lor { .. } => seq!["lhs"@, "rhs"@],
        PackageModel::Proxy { .. } => seq!["lhs"@, "rhs"@],
        PackageModel::Formula { .. } => seq!["true"@, "false"@],
        PackageModel::Var(name) => if name == "os"@ {
            os_values()
        } else if name == "arch"@ {
            arch_values()
        } else {
            match values_of(ctx.variables, name) {
                Some(values) => values,
                None => seq!["true"@, "false"@],
            }
        },
    }
}

/// The values of variables known after the children `children[i..]` of a
/// root were looked at: a child that pins a variable to one value makes that
/// value known.
pub open spec fn root_variables(children: ConstraintsModel, i: int, variables: Table) -> Table
    decreases children.len() - i,
{
    if i < 0 || i >= children.len() {
        variables
    } else {
        let next = match (children[i].0, singleton_of::<OpamVersion>(children[i].1)) {
            (PackageModel::Var(x), Some(v)) => learn(variables, x, v),
            _ => variables,
        };
        root_variables(children, i + 1, next)
    }
}

/// What asking for the dependencies of a package at a version gives.
pub struct Answer {
    /// The constraints, or that nothing is known of the package at the
    /// version and why, or the error.
    pub result: Result<Known<ConstraintsModel>, InternalError>,
    /// What is known of variables and conflict classes afterwards.
    pub context: ContextModel,
}

/// The answer that an outcome of the compiler gives.
pub open spec fn answer_of(outcome: Outcome, conflicts: Table) -> Answer {
    Answer {
        result: match outcome.result {
            Ok(c) => Ok(Known::Available(c)),
            Err(e) => Err(e),
        },
        context: ContextModel { variables: outcome.variables, conflicts },
    }
}

/// The dependencies of `package` at `version`.
///
/// - A root depends on its children.
/// - A package of the repository depends on what its formulas compile to;
///   nothing is known of a version that the index does not hold.
/// - `Lor` at `lhs` or `rhs` depends on that side.
/// - `Formula` at `true` depends on its base and on what its filter asks; at
///   `false` on what the negation of the filter asks, without the base.
/// - `Proxy`: see [`proxy_outcome`].
/// - Conflict classes, variables and, seen from OPAM alone, `Depext` depend
///   on nothing.
pub open spec fn opam_dependencies(
    index: &OpamIndex,
    ctx: ContextModel,
    package: PackageModel,
    version: Seq<char>,
    formulas: Option<Vec<PackageFormula>>,
) -> Answer {
    match package {
        PackageModel::Root(children) => Answer {
            result: Ok(Known::Available(collect(children))),
            context: ContextModel {
                variables: root_variables(children, 0, ctx.variables),
                conflicts: ctx.conflicts,
            },
        },
        PackageModel::Base(name) => match formulas {
            Some(fs) => {
                let outcome = formulas_outcome(formula_models(fs@), ctx.conflicts);
                Answer {
                    result: Ok(Known::Available(outcome.0)),
                    context: ContextModel { variables: ctx.variables, conflicts: outcome.1 },
                }
            },
            None => Answer { result: Ok(Known::Unavailable(Seq::empty())), context: ctx },
        },
        PackageModel::ConflictClass(_) | PackageModel::Var(_) | PackageModel::Depext { .. } => {
            Answer { result: Ok(Known::Available(Seq::empty())), context: ctx }
        },
        PackageModel::Lor { lhs, rhs } => if version == "lhs"@ {
            let outcome = package_outcome(*lhs, ctx.conflicts);
            Answer {
                result: Ok(Known::Available(outcome.0)),
                context: ContextModel { variables: ctx.variables, conflicts: outcome.1 },
            }
        } else if version == "rhs"@ {
            let outcome = package_outcome(*rhs, ctx.conflicts);
            Answer {
                result: Ok(Known::Available(outcome.0)),
                context: ContextModel { variables: ctx.variables, conflicts: outcome.1 },
            }
        } else {
            Answer { result: Err(InternalError::UnknownChoice), context: ctx }
        },
        PackageModel::Formula { base, formula } => if version == "true"@ {
            answer_of(version_outcome(Some(*base), *formula, ctx.variables), ctx.conflicts)
        } else if version == "false"@ {
            match negated(*formula) {
                Ok(g) => answer_of(version_outcome(None, g, ctx.variables), ctx.conflicts),
                Err(e) => Answer { result: Err(e), context: ctx },
            }
        } else {
            Answer { result: Err(InternalError::UnknownTruthValue), context: ctx }
        },
        PackageModel::Proxy { base, formula } => answer_of(
            proxy_outcome(*base, version, *formula, ctx.variables),
            ctx.conflicts,
        ),
    }
}

/// The model of what an index answers.
pub open spec fn dependencies_model(
    d: Result<Dependencies<OpamPackage, Range<OpamVersion>>, InternalError>,
) -> Result<Known<ConstraintsModel>, InternalError> {
    match d {
        Ok(Dependencies::Available(c)) => Ok(Known::Available(constraint_models(c@))),
        Ok(Dependencies::Unavailable(reason)) => Ok(Known::Unavailable(reason@)),
        Err(e) => Err(e),
    }
}

/// Builds a list of versions from their texts.
fn versions_from(texts: Vec<&str>) -> (r: Vec<OpamVersion>)
    ensures
        r@.len() == texts@.len(),
        forall|i: int| 0 <= i < r@.len() ==> r@[i]@ == texts@[i]@,
{
    let mut r: Vec<OpamVersion> = Vec::new();
    let mut i: usize = 0;
    while i < texts.len()
        invariant
            i <= texts.len(),
            r@.len() == i,
            forall|j: int| 0 <= j < i ==> r@[j]@ == texts@[j]@,
        decreases texts.len() - i,
    {
        r.push(OpamVersion(texts[i].to_string()));
        i = i + 1;
    }
    r
}

impl OpamIndex {
    /// The versions of `package`, in the order in which they are to be
    /// tried.
    pub fn list_versions(&self, ctx: &Context, package: &OpamPackage) -> (r: Vec<OpamVersion>)
        ensures
            version_texts(r@) == opam_versions(self, ctx@, package@),
    {
        match package {
            OpamPackage::Root(_) => {
                proof {
                    lemma_root_model(package->Root_0);
                }
                let r = versions_from(vec![""]);
                assert(version_texts(r@) =~= seq![""@]);
                r
            },
            OpamPackage::Depext { .. } => {
                let r = versions_from(vec![""]);
                assert(version_texts(r@) =~= seq![""@]);
                r
            },
            OpamPackage::Base(name) => {
                let r = self.available_versions(name);
                assert(version_texts(r@) =~= r@.map_values(|v: OpamVersion| v@));
                r
            },
            OpamPackage::ConflictClass(name) => match ctx.conflict_members(name) {
                Some(members) => members,
                None => {
                    let r: Vec<OpamVersion> = Vec::new();
                    assert(version_texts(r@) =~= Seq::empty());
                    r
                },
            },
            OpamPackage::Lor { .. } => {
                let r = versions_from(vec!["lhs", "rhs"]);
                assert(version_texts(r@) =~= seq!["lhs"@, "rhs"@]);
                r
            },
            OpamPackage::Proxy { .. } => {
                let r = versions_from(vec!["lhs", "rhs"]);
                assert(version_texts(r@) =~= seq!["lhs"@, "rhs"@]);
                r
            },
            OpamPackage::Formula { .. } => {
                let r = versions_from(vec!["true", "false"]);
                assert(version_texts(r@) =~= seq!["true"@, "false"@]);
                r
            },
            OpamPackage::Var(name) => {
                if *name == "os".to_string() {
                    let r = versions_from(
                        vec![
                            "linux",
                            "macos",
                            "win32",
                            "cygwin",
                            "freebsd",
                            "openbsd",
                            "netbsd",
                            "dragonfly",
                        ],
                    );
                    assert(version_texts(r@) =~= os_values());
                    r
                } else if *name == "arch".to_string() {
                    let r = versions_from(
                        vec!["arm64", "x86_32", "x86_64", "ppc32", "ppc64", "arm32"],
                    );
                    assert(version_texts(r@) =~= arch_values());
                    r
                } else {
                    match ctx.variable_values(name) {
                        Some(values) => values,
                        None => {
                            let r = versions_from(vec!["true", "false"]);
                            assert(version_texts(r@) =~= seq!["true"@, "false"@]);
                            r
                        },
                    }
                }
            },
        }
    }

    /// The first listed version of `package` that lies in `range`.
    pub fn choose_version(
        &self,
        ctx: &Context,
        package: &OpamPackage,
        range: &Range<OpamVersion>,
    ) -> (r: Option<OpamVersion>)
        ensures
            match r {
                Some(v) => first_match::<OpamVersion>(
                    opam_versions(self, ctx@, package@),
                    range@,
                ) == Some(v@),
                None => first_match::<OpamVersion>(opam_versions(self, ctx@, package@), range@)
                    is None,
            },
    {
        let versions = self.list_versions(ctx, package);
        assert(versions@.map_values(|x: OpamVersion| crate::order::VersionOrder::text(&x))
            =~= version_texts(versions@));
        first_in_range(versions, range)
    }

    /// The priority of a package in the search: all packages count alike.
    pub fn prioritize(&self, _package: &OpamPackage, _range: &Range<OpamVersion>) -> (r: u8)
        ensures
            r == 1,
    {
        1
    }

    /// The dependencies of `package` at `version`. What the formulas say of
    /// variables and conflict classes becomes known to `ctx`.
    pub fn get_dependencies(
        &self,
        ctx: &mut Context,
        package: &OpamPackage,
        version: &OpamVersion,
    ) -> (r: Result<Dependencies<OpamPackage, Range<OpamVersion>>, InternalError>)
        ensures
            dependencies_model(r) == opam_dependencies(
                self,
                old(ctx)@,
                package@,
                version@,
                self.formulas_of(package@, version@),
            ).result,
            final(ctx)@ == opam_dependencies(
                self,
                old(ctx)@,
                package@,
                version@,
                self.formulas_of(package@, version@),
            ).context,
    {
        match package {
            OpamPackage::Root(children) => {
                proof {
                    lemma_root_model(*children);
                }
                let ghost items = constraint_models(children@);
                let ghost start = ctx@.variables;
                let mut i: usize = 0;
                while i < children.len()
                    invariant
                        i <= children.len(),
                        items == constraint_models(children@),
                        ctx@.conflicts == old(ctx)@.conflicts,
                        root_variables(items, 0, start) == root_variables(
                            items,
                            i as int,
                            ctx@.variables,
                        ),
                    decreases children.len() - i,
                {
                    assert(items[i as int] == (children@[i as int].0@, children@[i as int].1@));
                    match &children[i].0 {
                        OpamPackage::Var(variable) => {
                            match children[i].1.as_singleton() {
                                Some(value) => {
                                    ctx.learn_variable(variable, value);
                                },
                                None => {},
                            }
                        },
                        _ => {},
                    }
                    i = i + 1;
                }
                Ok(Dependencies::Available(collect_constraints(children)))
            },
            OpamPackage::Base(name) => {
                match self.packages.get(name.as_str(), version) {
                    Some(formulas) => Ok(Dependencies::Available(from_formulas(formulas, ctx))),
                    None => Ok(Dependencies::Unavailable(String::new())),
                }
            },
            OpamPackage::ConflictClass(_) | OpamPackage::Var(_) | OpamPackage::Depext { .. } => {
                let none: Vec<(OpamPackage, Range<OpamVersion>)> = Vec::new();
                assert(constraint_models(none@) =~= Seq::empty());
                Ok(Dependencies::Available(none))
            },
            OpamPackage::Lor { lhs, rhs } => {
                if version_is(version, "lhs") {
                    Ok(Dependencies::Available(from_formula(lhs, ctx)))
                } else if version_is(version, "rhs") {
                    Ok(Dependencies::Available(from_formula(rhs, ctx)))
                } else {
                    Err(InternalError::UnknownChoice)
                }
            },
            OpamPackage::Formula { base, formula } => {
                if version_is(version, "true") {
                    match from_version_formula(Some(&**base), formula, ctx) {
                        Ok(c) => Ok(Dependencies::Available(c)),
                        Err(e) => Err(e),
                    }
                } else if version_is(version, "false") {
                    match negate_formula((**formula).clone()) {
                        Ok(g) => match from_version_formula(None, &g, ctx) {
                            Ok(c) => Ok(Dependencies::Available(c)),
                            Err(e) => Err(e),
                        },
                        Err(e) => Err(e),
                    }
                } else {
                    Err(InternalError::UnknownTruthValue)
                }
            },
            OpamPackage::Proxy { base, formula } => {
                let b = match &**base {
                    Some(p) => Some(p),
                    None => None,
                };
                match from_proxy_formula(b, version, formula, ctx) {
                    Ok(c) => Ok(Dependencies::Available(c)),
                    Err(e) => Err(e),
                }
            },
        }
    }

    /// The formulas recorded for `version` of the package of the repository
    /// that `package` names, where it names one.
    pub open spec fn formulas_of(&self, package: PackageModel, version: Seq<char>) -> Option<
        Vec<PackageFormula>,
    > {
        match package {
            PackageModel::Base(name) => self.packages.entry_of(name, version),
            _ => None,
        }
    }
}

} // verus!
