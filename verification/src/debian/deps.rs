//! Debian packages as the solver sees them, and what the index answers
//! about them.

use crate::constraints::{
    collect, collect_constraints, first_in_range, first_match, models, put, put_all_from,
    put_constraint, Copied, Dependencies, Key, Known,
};
use crate::debian::index::{DebianIndex, Dependency, DependencyModel};
use crate::debian::version::DebianVersion;
use crate::order::VersionOrder;
use crate::range::{Range, SegmentModel};
use crate::text::{chars_of, find_char, find_from};
use vstd::prelude::*;
use vstd::string::StringExecFns;

verus! {

/// A package of the Debian world.
#[derive(Debug, PartialEq, Eq, Hash)]
pub enum DebianPackage {
    /// What a query asks for. It has one version and depends on its
    /// children.
    Root(Vec<(DebianPackage, Range<DebianVersion>)>),
    /// A package of the repository.
    Base(String),
}

/// What an [`DebianPackage`] stands for.
pub enum PackageModel {
    Root(Seq<(PackageModel, Seq<SegmentModel>)>),
    Base(Seq<char>),
}

/// Constraints on Debian packages, as models.
pub type ConstraintsModel = Seq<(PackageModel, Seq<SegmentModel>)>;

impl DebianPackage {
    /// What the package stands for.
    pub open spec fn model(&self) -> PackageModel
        decreases self,
    {
        match self {
            DebianPackage::Root(children) => PackageModel::Root(
                Seq::new(
                    children.len() as nat,
                    |i: int|
                        if 0 <= i < children.len() {
                            (children[i].0.model(), children[i].1@)
                        } else {
                            arbitrary()
                        },
                ),
            ),
            DebianPackage::Base(name) => PackageModel::Base(name@),
        }
    }
}

impl View for DebianPackage {
    type V = PackageModel;

    open spec fn view(&self) -> PackageModel {
        self.model()
    }
}

/// The models of a list of constraints.
pub open spec fn constraint_models(
    c: Seq<(DebianPackage, Range<DebianVersion>)>,
) -> ConstraintsModel {
    models(c)
}

/// The model of a `Root` package is the list of the models of its children.
pub proof fn lemma_root_model(children: Vec<(DebianPackage, Range<DebianVersion>)>)
    ensures
        DebianPackage::Root(children)@ == PackageModel::Root(constraint_models(children@)),
{
    assert(DebianPackage::Root(children).model()->Root_0 =~= constraint_models(children@));
}

/// Copies a list of constraints.
pub fn duplicate_constraints(c: &Vec<(DebianPackage, Range<DebianVersion>)>) -> (r: Vec<
    (DebianPackage, Range<DebianVersion>),
>)
    ensures
        constraint_models(r@) == constraint_models(c@),
    decreases c,
{
    let mut out: Vec<(DebianPackage, Range<DebianVersion>)> = Vec::new();
    let mut i: usize = 0;
    while i < c.len()
        invariant
            i <= c.len(),
            out@.len() == i,
            forall|j: int| 0 <= j < i ==> out@[j].0@ == c@[j].0@ && out@[j].1@ == c@[j].1@,
        decreases c.len() - i,
    {
        let package = c[i].0.clone();
        let range = c[i].1.duplicate();
        out.push((package, range));
        i = i + 1;
    }
    assert(constraint_models(out@) =~= constraint_models(c@));
    out
}

/// Whether two lists of constraints are written the same.
pub fn same_constraints(
    a: &Vec<(DebianPackage, Range<DebianVersion>)>,
    b: &Vec<(DebianPackage, Range<DebianVersion>)>,
) -> (r: bool)
    ensures
        r == (constraint_models(a@) == constraint_models(b@)),
    decreases a,
{
    if a.len() != b.len() {
        assert(constraint_models(a@).len() != constraint_models(b@).len());
        return false;
    }
    let mut i: usize = 0;
    while i < a.len()
        invariant
            i <= a.len(),
            a.len() == b.len(),
            forall|j: int| 0 <= j < i ==> a@[j].0@ == b@[j].0@ && a@[j].1@ == b@[j].1@,
        decreases a.len() - i,
    {
        if !(a[i].0.same(&b[i].0) && a[i].1.same(&b[i].1)) {
            assert(constraint_models(a@)[i as int] != constraint_models(b@)[i as int]);
            return false;
        }
        i = i + 1;
    }
    assert(constraint_models(a@) =~= constraint_models(b@));
    true
}

impl Copied for DebianPackage {
    fn copied(&self) -> (r: Self) {
        self.clone()
    }
}

impl Key for DebianPackage {
    fn same_key(&self, other: &Self) -> (r: bool) {
        self.same(other)
    }
}

impl Clone for DebianPackage {
    fn clone(&self) -> (r: Self)
        ensures
            r@ == self@,
        decreases self,
    {
        match self {
            DebianPackage::Root(children) => {
                let copy = duplicate_constraints(children);
                proof {
                    lemma_root_model(copy);
                    lemma_root_model(*children);
                }
                DebianPackage::Root(copy)
            },
            DebianPackage::Base(name) => DebianPackage::Base(name.clone()),
        }
    }
}

/// The name of a package is a text without `/`.
pub open spec fn is_package_name(s: Seq<char>) -> bool {
    find_from(s, '/', 0) is None
}

impl DebianPackage {
    /// Whether two packages are the same package.
    pub fn same(&self, other: &DebianPackage) -> (r: bool)
        ensures
            r == (self@ == other@),
        decreases self,
    {
        match (self, other) {
            (DebianPackage::Root(a), DebianPackage::Root(b)) => {
                proof {
                    lemma_root_model(*a);
                    lemma_root_model(*b);
                }
                same_constraints(a, b)
            },
            (DebianPackage::Base(a), DebianPackage::Base(b)) => *a == *b,
            _ => false,
        }
    }

    /// Reads the name of a package of the repository. A text with `/` is no
    /// name.
    pub fn from_str(pkg: &str) -> (r: Result<DebianPackage, String>)
        ensures
            r is Ok <==> is_package_name(pkg@),
            r matches Ok(p) ==> p@ == PackageModel::Base(pkg@),
            r matches Err(m) ==> m@ == pkg@ + " is not a valid package name"@,
    {
        let chars = chars_of(pkg);
        match find_char(&chars, '/') {
            None => Ok(DebianPackage::Base(pkg.to_string())),
            Some(_) => {
                let mut message = pkg.to_string();
                message.append(" is not a valid package name");
                Err(message)
            },
        }
    }

    /// What the package is shown as: `Root`, or the name.
    pub fn to_string(&self) -> (s: String)
        ensures
            s@ == match self@ {
                PackageModel::Root(_) => "Root"@,
                PackageModel::Base(name) => name,
            },
    {
        match self {
            DebianPackage::Root(_) => "Root".to_string(),
            DebianPackage::Base(name) => name.clone(),
        }
    }
}

/// The versions of a package, in the order in which they are tried: a root
/// has the one version `""`, a package of the repository its versions,
/// newest first.
pub open spec fn debian_versions(index: &DebianIndex, package: PackageModel) -> Seq<Seq<char>> {
    match package {
        PackageModel::Root(_) => seq![""@],
        PackageModel::Base(name) => index.packages.versions_of(name),
    }
}

/// The constraints that a list of dependencies gives: each package is
/// allowed the versions of its dependency, and a later dependency on a
/// package replaces an earlier one.
pub open spec fn dependency_constraints(dependencies: Seq<DependencyModel>) -> ConstraintsModel {
    collect(dependencies.map_values(|d: DependencyModel| (PackageModel::Base(d.name), d.range)))
}

/// The dependencies of `package` at `version`; where nothing is known, no
/// reason is given: a root depends on its children, a package of the repository on
/// what the index records for the version.
pub open spec fn debian_dependencies(
    package: PackageModel,
    recorded: Option<Vec<Dependency>>,
) -> Known<ConstraintsModel> {
    match package {
        PackageModel::Root(children) => Known::Available(collect(children)),
        PackageModel::Base(_) => match recorded {
            Some(d) => Known::Available(dependency_constraints(d.deep_view())),
            None => Known::Unavailable(Seq::empty()),
        },
    }
}

/// The model of what an index answers.
pub open spec fn dependencies_model(
    d: Dependencies<DebianPackage, Range<DebianVersion>>,
) -> Known<ConstraintsModel> {
    match d {
        Dependencies::Available(c) => Known::Available(constraint_models(c@)),
        Dependencies::Unavailable(reason) => Known::Unavailable(reason@),
    }
}

/// The constraints that a list of dependencies gives.
pub fn from_dependencies(dependencies: &Vec<Dependency>) -> (r: Vec<
    (DebianPackage, Range<DebianVersion>),
>)
    ensures
        constraint_models(r@) == dependency_constraints(dependencies.deep_view()),
{
    let ghost items = dependencies.deep_view().map_values(
        |d: DependencyModel| (PackageModel::Base(d.name), d.range),
    );
    let mut map: Vec<(DebianPackage, Range<DebianVersion>)> = Vec::new();
    assert(constraint_models(map@) =~= Seq::empty());
    let mut i: usize = 0;
    while i < dependencies.len()
        invariant
            i <= dependencies.len(),
            items == dependencies.deep_view().map_values(
                |d: DependencyModel| (PackageModel::Base(d.name), d.range),
            ),
            collect(items) == put_all_from(constraint_models(map@), items, i as int),
        decreases dependencies.len() - i,
    {
        let dep = &dependencies[i];
        assert(dependencies.deep_view()[i as int] == dep@);
        put_constraint(&mut map, DebianPackage::Base(dep.name.clone()), dep.range.0.duplicate());
        i = i + 1;
    }
    map
}

impl DebianIndex {
    /// The versions of `package`, in the order in which they are to be
    /// tried.
    pub fn list_versions(&self, package: &DebianPackage) -> (r: Vec<DebianVersion>)
        ensures
            r@.map_values(|v: DebianVersion| v@) == debian_versions(self, package@),
    {
        match package {
            DebianPackage::Root(_) => {
                let mut r: Vec<DebianVersion> = Vec::new();
                r.push(DebianVersion("".to_string()));
                assert(r@.map_values(|v: DebianVersion| v@) =~= seq![""@]);
                r
            },
            DebianPackage::Base(pkg) => self.available_versions(pkg),
        }
    }

    /// The priority of a package in the search: all packages count alike.
    pub fn prioritize(&self, _package: &DebianPackage, _range: &Range<DebianVersion>) -> (r: u8)
        ensures
            r == 1,
    {
        1
    }

    /// The first listed version of `package` that lies in `range`.
    pub fn choose_version(&self, package: &DebianPackage, range: &Range<DebianVersion>) -> (r:
        Option<DebianVersion>)
        ensures
            match r {
                Some(v) => first_match::<DebianVersion>(debian_versions(self, package@), range@)
                    == Some(v@),
                None => first_match::<DebianVersion>(debian_versions(self, package@), range@)
                    is None,
            },
    {
        let versions = self.list_versions(package);
        assert(versions@.map_values(|x: DebianVersion| VersionOrder::text(&x))
            =~= versions@.map_values(|v: DebianVersion| v@));
        first_in_range(versions, range)
    }

    /// What the index records for `version` of the package of the
    /// repository that `package` names, where it names one.
    pub open spec fn recorded(&self, package: PackageModel, version: Seq<char>) -> Option<
        Vec<Dependency>,
    > {
        match package {
            PackageModel::Base(name) => self.packages.entry_of(name, version),
            PackageModel::Root(_) => None,
        }
    }

    /// The dependencies of `package` at `version`.
    pub fn get_dependencies(&self, package: &DebianPackage, version: &DebianVersion) -> (r:
        Dependencies<DebianPackage, Range<DebianVersion>>)
        ensures
            dependencies_model(r) == debian_dependencies(
                package@,
                self.recorded(package@, version@),
            ),
    {
        match package {
            DebianPackage::Root(deps) => {
                proof {
                    lemma_root_model(*deps);
                }
                Dependencies::Available(collect_constraints(deps))
            },
            DebianPackage::Base(pkg) => match self.packages.get(pkg.as_str(), version) {
                None => Dependencies::Unavailable(String::new()),
                Some(dependencies) => Dependencies::Available(from_dependencies(dependencies)),
            },
        }
    }
}

} // verus!
