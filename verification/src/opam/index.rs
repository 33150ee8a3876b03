//! The formulas of OPAM dependency fields.
//!
//! A package formula names packages, joined by `&` and `|`; each name may
//! carry a version formula in braces: version constraints, variables and
//! comparisons, joined by `&` and `|` again.

use crate::index::{Index, PackageName};
use crate::opam::parse::RelOp;
use crate::opam::version::OpamVersion;
use crate::range::{range_text, Range, SegmentModel};
use crate::text::{duplicate_names, names_string, names_text, same_names, texts};
use vstd::prelude::*;
use vstd::string::StringExecFns;

verus! {

/// The two sides of `&`, `|` or a comparison.
#[derive(Debug, PartialEq, Eq, Hash)]
pub struct Binary<T> {
    pub lhs: Box<T>,
    pub rhs: Box<T>,
}

/// A set of OPAM versions, as it stands in a formula.
#[derive(Debug, PartialEq, Eq, Hash)]
pub struct HashedRange(pub Range<OpamVersion>);

/// What stands in the braces after a package name.
#[derive(Debug, PartialEq, Eq, Hash)]
pub enum VersionFormula {
    /// A constraint on the version of the package itself.
    Version(HashedRange),
    /// A variable that has to be true.
    Variable(String),
    /// A variable that has to be false.
    Not(String),
    /// A literal value, as one side of a comparison.
    Lit(OpamVersion),
    /// A comparison of two formulas.
    Comparator { relop: RelOp, binary: Binary<VersionFormula> },
    And(Binary<VersionFormula>),
    Or(Binary<VersionFormula>),
}

/// What a [`VersionFormula`] stands for.
pub enum FormulaModel {
    Version(Seq<SegmentModel>),
    Variable(Seq<char>),
    Not(Seq<char>),
    Lit(Seq<char>),
    Comparator { relop: RelOp, lhs: Box<FormulaModel>, rhs: Box<FormulaModel> },
    And(Box<FormulaModel>, Box<FormulaModel>),
    Or(Box<FormulaModel>, Box<FormulaModel>),
}

/// A formula over packages.
#[derive(Debug, PartialEq, Eq, Hash)]
pub enum PackageFormula {
    /// An OPAM package, with what is asked of its version.
    Base { name: String, formula: VersionFormula },
    /// Packages of the operating system, with the condition under which
    /// they are needed.
    Depext { names: Vec<String>, formula: VersionFormula },
    /// Membership of `package` in the conflict class `name`.
    ConflictClass { name: String, package: String },
    Or(Binary<PackageFormula>),
    And(Binary<PackageFormula>),
}

/// What a [`PackageFormula`] stands for.
pub enum PackageFormulaModel {
    Base { name: Seq<char>, formula: FormulaModel },
    Depext { names: Seq<Seq<char>>, formula: FormulaModel },
    ConflictClass { name: Seq<char>, package: Seq<char> },
    Or(Box<PackageFormulaModel>, Box<PackageFormulaModel>),
    And(Box<PackageFormulaModel>, Box<PackageFormulaModel>),
}

impl VersionFormula {
    /// What the formula stands for.
    pub open spec fn model(&self) -> FormulaModel
        decreases self,
    {
        match self {
            VersionFormula::Version(range) => FormulaModel::Version(range.0@),
            VersionFormula::Variable(name) => FormulaModel::Variable(name@),
            VersionFormula::Not(name) => FormulaModel::Not(name@),
            VersionFormula::Lit(value) => FormulaModel::Lit(value@),
            VersionFormula::Comparator { relop, binary } => FormulaModel::Comparator {
                relop: *relop,
                lhs: Box::new(binary.lhs.model()),
                rhs: Box::new(binary.rhs.model()),
            },
            VersionFormula::And(binary) => FormulaModel::And(
                Box::new(binary.lhs.model()),
                Box::new(binary.rhs.model()),
            ),
            VersionFormula::Or(binary) => FormulaModel::Or(
                Box::new(binary.lhs.model()),
                Box::new(binary.rhs.model()),
            ),
        }
    }

    /// Whether two formulas are written the same.
    pub fn same(&self, other: &VersionFormula) -> (r: bool)
        ensures
            r == (self@ == other@),
        decreases self,
    {
        match (self, other) {
            (VersionFormula::Version(a), VersionFormula::Version(b)) => a.0.same(&b.0),
            (VersionFormula::Variable(a), VersionFormula::Variable(b)) => *a == *b,
            (VersionFormula::Not(a), VersionFormula::Not(b)) => *a == *b,
            (VersionFormula::Lit(a), VersionFormula::Lit(b)) => a.0 == b.0,
            (
                VersionFormula::Comparator { relop: r1, binary: b1 },
                VersionFormula::Comparator { relop: r2, binary: b2 },
            ) => *r1 == *r2 && b1.lhs.same(&b2.lhs) && b1.rhs.same(&b2.rhs),
            (VersionFormula::And(b1), VersionFormula::And(b2)) => b1.lhs.same(&b2.lhs)
                && b1.rhs.same(&b2.rhs),
            (VersionFormula::Or(b1), VersionFormula::Or(b2)) => b1.lhs.same(&b2.lhs)
                && b1.rhs.same(&b2.rhs),
            _ => false,
        }
    }
}

impl View for VersionFormula {
    type V = FormulaModel;

    open spec fn view(&self) -> FormulaModel {
        self.model()
    }
}

impl Clone for VersionFormula {
    fn clone(&self) -> (r: Self)
        ensures
            r@ == self@,
        decreases self,
    {
        match self {
            VersionFormula::Version(range) => VersionFormula::Version(
                HashedRange(range.0.duplicate()),
            ),
            VersionFormula::Variable(name) => VersionFormula::Variable(name.clone()),
            VersionFormula::Not(name) => VersionFormula::Not(name.clone()),
            VersionFormula::Lit(value) => VersionFormula::Lit(OpamVersion(value.0.clone())),
            VersionFormula::Comparator { relop, binary } => VersionFormula::Comparator {
                relop: *relop,
                binary: Binary {
                    lhs: Box::new((*binary.lhs).clone()),
                    rhs: Box::new((*binary.rhs).clone()),
                },
            },
            VersionFormula::And(binary) => VersionFormula::And(
                Binary {
                    lhs: Box::new((*binary.lhs).clone()),
                    rhs: Box::new((*binary.rhs).clone()),
                },
            ),
            VersionFormula::Or(binary) => VersionFormula::Or(
                Binary {
                    lhs: Box::new((*binary.lhs).clone()),
                    rhs: Box::new((*binary.rhs).clone()),
                },
            ),
        }
    }
}

impl PackageFormula {
    /// What the formula stands for.
    pub open spec fn model(&self) -> PackageFormulaModel
        decreases self,
    {
        match self {
            PackageFormula::Base { name, formula } => PackageFormulaModel::Base {
                name: name@,
                formula: formula@,
            },
            PackageFormula::Depext { names, formula } => PackageFormulaModel::Depext {
                names: texts(names@),
                formula: formula@,
            },
            PackageFormula::ConflictClass { name, package } => PackageFormulaModel::ConflictClass {
                name: name@,
                package: package@,
            },
            PackageFormula::Or(binary) => PackageFormulaModel::Or(
                Box::new(binary.lhs.model()),
                Box::new(binary.rhs.model()),
            ),
            PackageFormula::And(binary) => PackageFormulaModel::And(
                Box::new(binary.lhs.model()),
                Box::new(binary.rhs.model()),
            ),
        }
    }

    /// Whether two formulas are written the same.
    pub fn same(&self, other: &PackageFormula) -> (r: bool)
        ensures
            r == (self@ == other@),
        decreases self,
    {
        match (self, other) {
            (
                PackageFormula::Base { name: n1, formula: f1 },
                PackageFormula::Base { name: n2, formula: f2 },
            ) => *n1 == *n2 && f1.same(f2),
            (
                PackageFormula::Depext { names: n1, formula: f1 },
                PackageFormula::Depext { names: n2, formula: f2 },
            ) => same_names(n1, n2) && f1.same(f2),
            (
                PackageFormula::ConflictClass { name: n1, package: p1 },
                PackageFormula::ConflictClass { name: n2, package: p2 },
            ) => *n1 == *n2 && *p1 == *p2,
            (PackageFormula::Or(b1), PackageFormula::Or(b2)) => b1.lhs.same(&b2.lhs)
                && b1.rhs.same(&b2.rhs),
            (PackageFormula::And(b1), PackageFormula::And(b2)) => b1.lhs.same(&b2.lhs)
                && b1.rhs.same(&b2.rhs),
            _ => false,
        }
    }
}

impl View for PackageFormula {
    type V = PackageFormulaModel;

    open spec fn view(&self) -> PackageFormulaModel {
        self.model()
    }
}

impl DeepView for PackageFormula {
    type V = PackageFormulaModel;

    open spec fn deep_view(&self) -> PackageFormulaModel {
        self.model()
    }
}

impl Clone for PackageFormula {
    fn clone(&self) -> (r: Self)
        ensures
            r@ == self@,
        decreases self,
    {
        match self {
            PackageFormula::Base { name, formula } => PackageFormula::Base {
                name: name.clone(),
                formula: formula.clone(),
            },
            PackageFormula::Depext { names, formula } => PackageFormula::Depext {
                names: duplicate_names(names),
                formula: formula.clone(),
            },
            PackageFormula::ConflictClass { name, package } => PackageFormula::ConflictClass {
                name: name.clone(),
                package: package.clone(),
            },
            PackageFormula::Or(binary) => PackageFormula::Or(
                Binary {
                    lhs: Box::new((*binary.lhs).clone()),
                    rhs: Box::new((*binary.rhs).clone()),
                },
            ),
            PackageFormula::And(binary) => PackageFormula::And(
                Binary {
                    lhs: Box::new((*binary.lhs).clone()),
                    rhs: Box::new((*binary.rhs).clone()),
                },
            ),
        }
    }
}

/// What a version formula is written as.
pub open spec fn formula_text(f: FormulaModel) -> Seq<char>
    decreases f,
{
    match f {
        FormulaModel::Version(range) => range_text(range),
        FormulaModel::Variable(x) => x,
        FormulaModel::Not(x) => "!"@ + x,
        FormulaModel::Lit(v) => "\""@ + v + "\""@,
        FormulaModel::Comparator { relop, lhs, rhs } => formula_text(*lhs) + " "@ + relop.text()
            + " "@ + formula_text(*rhs),
        FormulaModel::And(l, r) => formula_text(*l) + " & "@ + formula_text(*r),
        FormulaModel::Or(l, r) => formula_text(*l) + " | "@ + formula_text(*r),
    }
}

/// What a package formula is written as.
pub open spec fn package_formula_text(f: PackageFormulaModel) -> Seq<char>
    decreases f,
{
    match f {
        PackageFormulaModel::Base { name, formula } => name + " {"@ + formula_text(formula)
            + "}"@,
        PackageFormulaModel::Depext { names, formula } => names_text(names) + " {"@
            + formula_text(formula) + "}"@,
        PackageFormulaModel::ConflictClass { name, package } => "conflict-class "@ + name,
        PackageFormulaModel::Or(l, r) => package_formula_text(*l) + " | "@
            + package_formula_text(*r),
        PackageFormulaModel::And(l, r) => package_formula_text(*l) + " & "@
            + package_formula_text(*r),
    }
}

impl VersionFormula {
    /// What the formula is written as.
    pub fn to_string(&self) -> (s: String)
        ensures
            s@ == formula_text(self@),
        decreases self,
    {
        match self {
            VersionFormula::Version(range) => range.0.to_string(),
            VersionFormula::Variable(name) => name.clone(),
            VersionFormula::Not(name) => {
                let mut s = "!".to_string();
                s.append(name.as_str());
                s
            },
            VersionFormula::Lit(value) => {
                let mut s = "\"".to_string();
                s.append(value.0.as_str());
                s.append("\"");
                s
            },
            VersionFormula::Comparator { relop, binary } => {
                let mut s = binary.lhs.to_string();
                s.append(" ");
                s.append(relop.to_string().as_str());
                s.append(" ");
                s.append(binary.rhs.to_string().as_str());
                s
            },
            VersionFormula::And(binary) => {
                let mut s = binary.lhs.to_string();
                s.append(" & ");
                s.append(binary.rhs.to_string().as_str());
                s
            },
            VersionFormula::Or(binary) => {
                let mut s = binary.lhs.to_string();
                s.append(" | ");
                s.append(binary.rhs.to_string().as_str());
                s
            },
        }
    }
}

impl PackageFormula {
    /// What the formula is written as.
    pub fn to_string(&self) -> (s: String)
        ensures
            s@ == package_formula_text(self@),
        decreases self,
    {
        match self {
            PackageFormula::Base { name, formula } => {
                let mut s = name.clone();
                s.append(" {");
                s.append(formula.to_string().as_str());
                s.append("}");
                s
            },
            PackageFormula::Depext { names, formula } => {
                let mut s = names_string(names);
                s.append(" {");
                s.append(formula.to_string().as_str());
                s.append("}");
                s
            },
            PackageFormula::ConflictClass { name, package } => {
                let mut s = "conflict-class ".to_string();
                s.append(name.as_str());
                s
            },
            PackageFormula::Or(binary) => {
                let mut s = binary.lhs.to_string();
                s.append(" | ");
                s.append(binary.rhs.to_string().as_str());
                s
            },
            PackageFormula::And(binary) => {
                let mut s = binary.lhs.to_string();
                s.append(" & ");
                s.append(binary.rhs.to_string().as_str());
                s
            },
        }
    }
}

/// The packages of an OPAM repository: for each version of each package the
/// formulas of its dependency fields, which all have to hold.
#[derive(Debug)]
pub struct OpamIndex {
    pub packages: Index<OpamVersion, Vec<PackageFormula>>,
    pub debug: bool,
    pub version_debug: bool,
}

impl OpamIndex {
    /// The versions of every package go from the newest to the oldest.
    pub open spec fn wf(&self) -> bool {
        self.packages.wf()
    }

    /// Whether the versions of every package go from the newest to the
    /// oldest.
    pub fn is_well_formed(&self) -> (r: bool)
        ensures
            r == self.wf(),
    {
        self.packages.is_well_formed()
    }

    /// An index without packages.
    pub fn new() -> (r: OpamIndex)
        ensures
            r.wf(),
            r.packages.model() == Seq::<(Seq<char>, Seq<Seq<char>>)>::empty(),
            !r.debug,
            !r.version_debug,
    {
        OpamIndex { packages: Index::new(), debug: false, version_debug: false }
    }

    /// The versions of `package`, newest first.
    pub fn available_versions(&self, package: &PackageName) -> (r: Vec<OpamVersion>)
        ensures
            r@.map_values(|v: OpamVersion| v@) == self.packages.versions_of(package@),
    {
        let r = self.packages.available_versions(package);
        assert(r@.map_values(|v: OpamVersion| v@) =~= r@.map_values(
            |v: OpamVersion| crate::order::VersionOrder::text(&v),
        ));
        r
    }

    /// Records the dependency formulas of `version` of `package`.
    pub fn add_formulas(&mut self, package: &str, version: OpamVersion, formulas: Vec<PackageFormula>)
        ensures
            old(self).wf() ==> final(self).wf(),
            final(self).packages.entry_of(package@, version@) == Some(formulas),
            final(self).debug == old(self).debug,
            final(self).version_debug == old(self).version_debug,
    {
        self.packages.add_deps(package, version, formulas);
    }

    /// Turns the tracing of dependencies on or off.
    pub fn set_debug(&mut self, flag: bool)
        ensures
            final(self).debug == flag,
            final(self).version_debug == old(self).version_debug,
            final(self).packages == old(self).packages,
    {
        self.debug = flag;
    }

    /// Turns the tracing of version lists on or off.
    pub fn set_version_debug(&mut self, flag: bool)
        ensures
            final(self).version_debug == flag,
            final(self).debug == old(self).debug,
            final(self).packages == old(self).packages,
    {
        self.version_debug = flag;
    }
}

} // verus!
