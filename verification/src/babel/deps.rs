//! Packages across the ecosystems.

use crate::alpine::deps::{AlpinePackage, PackageModel as AlpineModel};
use crate::babel::version::{BabelVersionSet, SetModel};
use crate::cargo::names::{Names, NamesModel};
use crate::constraints::{models, Copied, Key};
use crate::debian::deps::{DebianPackage, PackageModel as DebianModel};
use crate::opam::deps::{OpamPackage, PackageModel as OpamModel};
use crate::opam::index::{FormulaModel, VersionFormula};
use crate::opam::parse::RelOp;
use crate::text::same_text;
use vstd::prelude::*;
use vstd::string::StringExecFns;

verus! {

/// The packages that stand for the platform of a query.
#[derive(Clone, Copy, Debug, PartialEq, Eq, Hash, Structural)]
pub enum PlatformPackage {
    /// The operating system. Its versions are the supported systems.
    OS,
}

/// A package of some ecosystem, or one of the packages that a query adds.
#[derive(Debug, PartialEq, Eq, Hash)]
pub enum BabelPackage<'a> {
    /// What a query asks for. It has one version and depends on its
    /// children.
    Root(Vec<(BabelPackage<'a>, BabelVersionSet)>),
    Opam(OpamPackage),
    Debian(DebianPackage),
    Alpine(AlpinePackage),
    Cargo(Names<'a>),
    Platform(PlatformPackage),
}

/// What a [`BabelPackage`] stands for.
pub enum PackageModel {
    Root(Seq<(PackageModel, SetModel)>),
    Opam(OpamModel),
    Debian(DebianModel),
    Alpine(AlpineModel),
    Cargo(NamesModel),
    Platform(PlatformPackage),
}

/// Constraints on packages, as models.
pub type ConstraintsModel = Seq<(PackageModel, SetModel)>;

impl<'a> BabelPackage<'a> {
    /// What the package stands for.
    pub open spec fn model(&self) -> PackageModel
        decreases self,
    {
        match self {
            BabelPackage::Root(children) => PackageModel::Root(
                Seq::new(
                    children.len() as nat,
                    |i: int|
                        if 0 <= i < children.len() {
                            (children[i].0.model(), children[i].1@)
                        } else {
                            arbitrary()
                        },
                ),
            ),
            BabelPackage::Opam(p) => PackageModel::Opam(p@),
            BabelPackage::Debian(p) => PackageModel::Debian(p@),
            BabelPackage::Alpine(p) => PackageModel::Alpine(p@),
            BabelPackage::Cargo(p) => PackageModel::Cargo(p@),
            BabelPackage::Platform(p) => PackageModel::Platform(*p),
        }
    }
}

impl<'a> View for BabelPackage<'a> {
    type V = PackageModel;

    open spec fn view(&self) -> PackageModel {
        self.model()
    }
}

/// The models of a list of constraints.
pub open spec fn constraint_models(c: Seq<(BabelPackage, BabelVersionSet)>) -> ConstraintsModel {
    models(c)
}

/// The model of a `Root` package is the list of the models of its children.
pub proof fn lemma_root_model(children: Vec<(BabelPackage, BabelVersionSet)>)
    ensures
        BabelPackage::Root(children)@ == PackageModel::Root(constraint_models(children@)),
{
    assert(BabelPackage::Root(children).model()->Root_0 =~= constraint_models(children@));
}

/// Copies a list of constraints.
pub fn duplicate_constraints<'a>(c: &Vec<(BabelPackage<'a>, BabelVersionSet)>) -> (r: Vec<
    (BabelPackage<'a>, BabelVersionSet),
>)
    ensures
        constraint_models(r@) == constraint_models(c@),
    decreases c,
{
    let mut out: Vec<(BabelPackage<'a>, BabelVersionSet)> = Vec::new();
    let mut i: usize = 0;
    while i < c.len()
        invariant
            i <= c.len(),
            out@.len() == i,
            forall|j: int| 0 <= j < i ==> out@[j].0@ == c@[j].0@ && out@[j].1@ == c@[j].1@,
        decreases c.len() - i,
    {
        let package = c[i].0.clone();
        let set = c[i].1.duplicate();
        out.push((package, set));
        i = i + 1;
    }
    assert(constraint_models(out@) =~= constraint_models(c@));
    out
}

/// Whether two lists of constraints are written the same.
pub fn same_constraints<'a>(
    a: &Vec<(BabelPackage<'a>, BabelVersionSet)>,
    b: &Vec<(BabelPackage<'a>, BabelVersionSet)>,
) -> (r: bool)
    ensures
        r == (constraint_models(a@) == constraint_models(b@)),
    decreases a,
{
    if a.len() != b.len() {
        assert(constraint_models(a@).len() != constraint_models(b@).len());
        return false;
    }
    let mut i: usize = 0;
    while i < a.len()
        invariant
            i <= a.len(),
            a.len() == b.len(),
            forall|j: int| 0 <= j < i ==> a@[j].0@ == b@[j].0@ && a@[j].1@ == b@[j].1@,
        decreases a.len() - i,
    {
        if !(a[i].0.same(&b[i].0) && a[i].1.written_same(&b[i].1)) {
            assert(constraint_models(a@)[i as int] != constraint_models(b@)[i as int]);
            return false;
        }
        i = i + 1;
    }
    assert(constraint_models(a@) =~= constraint_models(b@));
    true
}

impl<'a> Copied for BabelPackage<'a> {
    fn copied(&self) -> (r: Self) {
        self.clone()
    }
}

impl<'a> Key for BabelPackage<'a> {
    fn same_key(&self, other: &Self) -> (r: bool) {
        self.same(other)
    }
}

impl<'a> Clone for BabelPackage<'a> {
    fn clone(&self) -> (r: Self)
        ensures
            r@ == self@,
        decreases self,
    {
        match self {
            BabelPackage::Root(children) => {
                let copy = duplicate_constraints(children);
                proof {
                    lemma_root_model(copy);
                    lemma_root_model(*children);
                }
                BabelPackage::Root(copy)
            },
            BabelPackage::Opam(p) => BabelPackage::Opam(p.clone()),
            BabelPackage::Debian(p) => BabelPackage::Debian(p.clone()),
            BabelPackage::Alpine(p) => BabelPackage::Alpine(p.clone()),
            BabelPackage::Cargo(p) => BabelPackage::Cargo(p.duplicate()),
            BabelPackage::Platform(p) => BabelPackage::Platform(*p),
        }
    }
}

/// What a package is written as: `Root`, `Platform OS`, or its ecosystem and
/// what it is written as there.
pub open spec fn package_text(p: PackageModel) -> Seq<char> {
    match p {
        PackageModel::Root(_) => "Root"@,
        PackageModel::Platform(_) => "Platform OS"@,
        PackageModel::Opam(q) => "Opam "@ + crate::opam::deps::package_text(q),
        PackageModel::Debian(q) => "Debian "@ + match q {
            DebianModel::Root(_) => "Root"@,
            DebianModel::Base(name) => name,
        },
        PackageModel::Alpine(q) => "Alpine "@ + match q {
            AlpineModel::Root(_) => "Root"@,
            AlpineModel::Base(name) => name,
        },
        PackageModel::Cargo(q) => "Cargo "@ + crate::cargo::names::names_text(q),
    }
}

impl<'a> BabelPackage<'a> {
    /// Whether two packages are the same package: whether they are written
    /// the same, through all their parts.
    pub fn same(&self, other: &BabelPackage<'a>) -> (r: bool)
        ensures
            r == (self@ == other@),
        decreases self,
    {
        match (self, other) {
            (BabelPackage::Root(a), BabelPackage::Root(b)) => {
                proof {
                    lemma_root_model(*a);
                    lemma_root_model(*b);
                }
                same_constraints(a, b)
            },
            (BabelPackage::Opam(a), BabelPackage::Opam(b)) => a.same(b),
            (BabelPackage::Debian(a), BabelPackage::Debian(b)) => a.same(b),
            (BabelPackage::Alpine(a), BabelPackage::Alpine(b)) => a.same(b),
            (BabelPackage::Cargo(a), BabelPackage::Cargo(b)) => a.same(b),
            (BabelPackage::Platform(a), BabelPackage::Platform(b)) => true,
            _ => false,
        }
    }

    /// What the package is written as.
    pub fn to_string(&self) -> (s: String)
        ensures
            s@ == package_text(self@),
    {
        match self {
            BabelPackage::Root(children) => {
                proof {
                    lemma_root_model(*children);
                }
                "Root".to_string()
            },
            BabelPackage::Platform(PlatformPackage::OS) => "Platform OS".to_string(),
            BabelPackage::Opam(pkg) => {
                let mut s = "Opam ".to_string();
                s.append(pkg.to_string().as_str());
                s
            },
            BabelPackage::Debian(pkg) => {
                let mut s = "Debian ".to_string();
                s.append(pkg.to_string().as_str());
                s
            },
            BabelPackage::Alpine(pkg) => {
                let mut s = "Alpine ".to_string();
                s.append(pkg.to_string().as_str());
                s
            },
            BabelPackage::Cargo(pkg) => {
                let mut s = "Cargo ".to_string();
                s.append(pkg.to_string().as_str());
                s
            },
        }
    }
}

/// The variable names the distribution or the family of the operating
/// system.
pub open spec fn is_os_variable(name: Seq<char>) -> bool {
    name == "os-distribution"@ || name == "os-family"@
}

/// The filter holds the condition that the distribution or the family of the
/// operating system is `os`: a comparison `=` between one of the two
/// variables and the literal `os`, alone or under `&` and `|`.
pub open spec fn has_os_condition(f: FormulaModel, os: Seq<char>) -> bool
    decreases f,
{
    match f {
        FormulaModel::Comparator { relop, lhs, rhs } => relop == RelOp::Eq && match (*lhs, *rhs) {
            (FormulaModel::Variable(x), FormulaModel::Lit(value)) => is_os_variable(x) && value
                == os,
            (FormulaModel::Lit(value), FormulaModel::Variable(x)) => is_os_variable(x) && value
                == os,
            _ => false,
        },
        FormulaModel::And(l, r) => has_os_condition(*l, os) || has_os_condition(*r, os),
        FormulaModel::Or(l, r) => has_os_condition(*l, os) || has_os_condition(*r, os),
        _ => false,
    }
}

/// Whether the variable names the distribution or the family of the
/// operating system.
fn os_variable(name: &String) -> (r: bool)
    ensures
        r == is_os_variable(name@),
{
    same_text(name.as_str(), "os-distribution") || same_text(name.as_str(), "os-family")
}

/// Checks whether a filter holds the condition that the distribution or the
/// family of the operating system is `os_name`.
pub fn contains_os_condition(formula: &VersionFormula, os_name: &str) -> (r: bool)
    ensures
        r == has_os_condition(formula@, os_name@),
    decreases formula,
{
    match formula {
        VersionFormula::Comparator { relop, binary } => {
            assert(formula@ matches FormulaModel::Comparator { relop: op, lhs: l, rhs: r } && op
                == *relop && *l == binary.lhs@ && *r == binary.rhs@);
            match relop {
                RelOp::Eq => match (&*binary.lhs, &*binary.rhs) {
                    (VersionFormula::Variable(var_name), VersionFormula::Lit(version)) => {
                        os_variable(var_name) && same_text(version.0.as_str(), os_name)
                    },
                    (VersionFormula::Lit(version), VersionFormula::Variable(var_name)) => {
                        os_variable(var_name) && same_text(version.0.as_str(), os_name)
                    },
                    _ => false,
                },
                _ => false,
            }
        },
        VersionFormula::And(binary) => {
            contains_os_condition(&binary.lhs, os_name) || contains_os_condition(
                &binary.rhs,
                os_name,
            )
        },
        VersionFormula::Or(binary) => {
            contains_os_condition(&binary.lhs, os_name) || contains_os_condition(
                &binary.rhs,
                os_name,
            )
        },
        _ => false,
    }
}

} // verus!
