//! The packages of an Alpine repository.

use crate::alpine::version::AlpineVersion;
use crate::index::{descending, Index, PackageName};
use crate::order::VersionOrder;
use crate::range::{range_text, Range, SegmentModel};
use vstd::prelude::*;
use vstd::string::StringExecFns;

verus! {

/// A set of Alpine versions, as it stands in a dependency.
#[derive(Debug, PartialEq, Eq, Hash)]
pub struct HashedRange(pub Range<AlpineVersion>);

impl HashedRange {
    /// What the range is written as.
    pub fn to_string(&self) -> (s: String)
        ensures
            s@ == range_text(self.0@),
    {
        self.0.to_string()
    }
}

/// A dependency: a package and the versions of it that will do.
#[derive(Debug, PartialEq, Eq, Hash)]
pub struct Dependency {
    pub name: PackageName,
    pub range: HashedRange,
}

/// What a [`Dependency`] stands for.
pub struct DependencyModel {
    pub name: Seq<char>,
    pub range: Seq<SegmentModel>,
}

impl View for Dependency {
    type V = DependencyModel;

    open spec fn view(&self) -> DependencyModel {
        DependencyModel { name: self.name@, range: self.range.0@ }
    }
}

impl DeepView for Dependency {
    type V = DependencyModel;

    open spec fn deep_view(&self) -> DependencyModel {
        self@
    }
}

impl Clone for Dependency {
    fn clone(&self) -> (r: Self)
        ensures
            r@ == self@,
    {
        Dependency { name: self.name.clone(), range: HashedRange(self.range.0.duplicate()) }
    }
}

impl Dependency {
    /// What the dependency is written as: the name, a colon and the range.
    pub fn to_string(&self) -> (s: String)
        ensures
            s@ == self@.name + ": "@ + range_text(self@.range),
    {
        let mut s = self.name.clone();
        s.append(": ");
        s.append(self.range.to_string().as_str());
        s
    }

    /// Whether two dependencies name the same package and the same range.
    pub fn same(&self, other: &Dependency) -> (r: bool)
        ensures
            r == (self@ == other@),
    {
        self.name == other.name && self.range.0.same(&other.range.0)
    }
}

/// The packages of an Alpine repository: for each version of each package
/// its dependencies.
#[derive(Debug)]
pub struct AlpineIndex {
    pub packages: Index<AlpineVersion, Vec<Dependency>>,
    pub debug: bool,
    pub version_debug: bool,
}

impl AlpineIndex {
    /// The versions of every package go from the newest to the oldest.
    pub open spec fn wf(&self) -> bool {
        self.packages.wf()
    }

    /// Whether the versions of every package go from the newest to the
    /// oldest.
    pub fn is_well_formed(&self) -> (r: bool)
        ensures
            r == self.wf(),
    {
        self.packages.is_well_formed()
    }

    /// An index without packages.
    pub fn new() -> (r: AlpineIndex)
        ensures
            r.wf(),
            r.packages.contents() == Seq::<
                (Seq<char>, Seq<(Seq<char>, Seq<DependencyModel>)>),
            >::empty(),
            !r.debug,
            !r.version_debug,
    {
        AlpineIndex { packages: Index::new(), debug: false, version_debug: false }
    }

    /// The versions of `package`, newest first.
    pub fn available_versions(&self, package: &PackageName) -> (r: Vec<AlpineVersion>)
        ensures
            r@.map_values(|v: AlpineVersion| v@) == self.packages.versions_of(package@),
            self.wf() ==> descending::<AlpineVersion>(self.packages.versions_of(package@)),
    {
        let r = self.packages.available_versions(package);
        assert(r@.map_values(|v: AlpineVersion| v@) =~= r@.map_values(
            |v: AlpineVersion| VersionOrder::text(&v),
        ));
        r
    }

    /// Records the dependencies of `version` of the package `name`.
    pub fn add_deps(&mut self, name: &str, version: AlpineVersion, dependencies: Vec<Dependency>)
        ensures
            old(self).wf() ==> final(self).wf(),
            final(self).packages.contents() == crate::index::packages_with::<
                AlpineVersion,
                Seq<DependencyModel>,
            >(old(self).packages.contents(), name@, version@, dependencies.deep_view()),
            final(self).packages.entry_of(name@, version@) == Some(dependencies),
            final(self).debug == old(self).debug,
            final(self).version_debug == old(self).version_debug,
    {
        self.packages.add_deps(name, version, dependencies);
    }

    /// Turns the tracing of dependencies on or off.
    pub fn set_debug(&mut self, flag: bool)
        ensures
            final(self).debug == flag,
            final(self).version_debug == old(self).version_debug,
            final(self).packages == old(self).packages,
    {
        self.debug = flag;
    }

    /// Turns the tracing of version lists on or off.
    pub fn set_version_debug(&mut self, flag: bool)
        ensures
            final(self).version_debug == flag,
            final(self).debug == old(self).debug,
            final(self).packages == old(self).packages,
    {
        self.version_debug = flag;
    }

    /// The number of packages.
    pub fn package_count(&self) -> (n: usize)
        ensures
            n == self.packages.contents().len(),
    {
        self.packages.package_count()
    }
}

} // verus!
