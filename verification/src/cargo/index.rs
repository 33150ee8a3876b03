//! The crates that the Cargo ecosystem presents: for each package its
//! versions, newest first, and for each version its dependencies.
//!
//! The order of Cargo versions is that of the SemVer library. A version is
//! taken into the index only where that order, asked both ways, puts it
//! between its neighbours; so the versions of a package go from the newest to
//! the oldest whatever the library answers.

use crate::cargo::names::{Names, NamesModel};
use crate::cargo::version::CargoVersion;
use crate::constraints::{first_in_range, first_match, Dependencies};
use crate::index::{above_len, descending, keys_with, lemma_slot, present, slot};
use crate::order::VersionOrder;
use crate::text::Sign;
use crate::range::{Range, SegmentModel};
use vstd::prelude::*;

verus! {

/// Constraints on Cargo packages.
pub type Constraints<'c> = Vec<(Names<'c>, Range<CargoVersion>)>;

/// Constraints on Cargo packages, as models.
pub type ConstraintsModel = Seq<(NamesModel, Seq<SegmentModel>)>;

/// The versions of one package, each with its dependencies.
#[derive(Debug)]
pub struct Crate<'c> {
    pub package: Names<'c>,
    pub versions: Vec<(CargoVersion, Constraints<'c>)>,
}

/// The packages of the Cargo ecosystem.
#[derive(Debug)]
pub struct CargoIndex<'c> {
    pub crates: Vec<Crate<'c>>,
}

/// The models of a list of constraints.
pub open spec fn constraint_models(c: Seq<(Names, Range<CargoVersion>)>) -> ConstraintsModel {
    c.map_values(|e: (Names, Range<CargoVersion>)| (e.0@, e.1@))
}

/// The texts of the versions of a package.
pub open spec fn version_keys(versions: Seq<(CargoVersion, Constraints)>) -> Seq<Seq<char>> {
    versions.map_values(|e: (CargoVersion, Constraints)| e.0@)
}

/// Position of the first entry for `package` at or after position `i`.
pub open spec fn crate_position(crates: Seq<Crate>, package: NamesModel, i: int) -> Option<int>
    decreases crates.len() - i,
{
    if i < 0 || i >= crates.len() {
        None
    } else if crates[i].package@ == package {
        Some(i)
    } else {
        crate_position(crates, package, i + 1)
    }
}

/// Position of the first version at or after position `i` that is written
/// `version`.
pub open spec fn version_position(keys: Seq<Seq<char>>, version: Seq<char>, i: int) -> Option<int>
    decreases keys.len() - i,
{
    if i < 0 || i >= keys.len() {
        None
    } else if keys[i] == version {
        Some(i)
    } else {
        version_position(keys, version, i + 1)
    }
}

/// Copies a list of constraints.
pub fn duplicate_constraints<'c>(c: &Constraints<'c>) -> (r: Constraints<'c>)
    ensures
        constraint_models(r@) == constraint_models(c@),
{
    let mut out: Constraints<'c> = Vec::new();
    let mut i: usize = 0;
    while i < c.len()
        invariant
            i <= c.len(),
            out@.len() == i,
            forall|j: int| 0 <= j < i ==> out@[j].0@ == c@[j].0@ && out@[j].1@ == c@[j].1@,
        decreases c.len() - i,
    {
        out.push((c[i].0.duplicate(), c[i].1.duplicate()));
        i = i + 1;
    }
    assert(constraint_models(out@) =~= constraint_models(c@));
    out
}

/// The version `v` can be taken into a list of versions that goes from the
/// newest to the oldest: it compares equal to the version at its slot, or it
/// goes to the end, or it is above the version that it would stand before.
pub open spec fn fits(keys: Seq<Seq<char>>, v: Seq<char>) -> bool {
    let k = slot::<CargoVersion>(keys, v);
    present::<CargoVersion>(keys, v) || k >= keys.len() || CargoVersion::order(v, keys[k])
        == Sign::Greater
}

/// Puts `version` with `dependencies` at its slot in a list of versions, or
/// replaces the dependencies of the version that compares equal to it, where
/// the version fits; else leaves the list as it is.
#[verifier::loop_isolation(false)]
pub fn insert_checked<'c>(
    entries: &mut Vec<(CargoVersion, Constraints<'c>)>,
    version: CargoVersion,
    dependencies: Constraints<'c>,
) -> (taken: bool)
    ensures
        taken == fits(version_keys(old(entries)@), version@),
        taken ==> version_keys(final(entries)@) == keys_with::<CargoVersion>(
            version_keys(old(entries)@),
            version@,
        ),
        !taken ==> version_keys(final(entries)@) == version_keys(old(entries)@),
        descending::<CargoVersion>(version_keys(old(entries)@)) ==> descending::<CargoVersion>(
            version_keys(final(entries)@),
        ),
{
    let ghost keys = version_keys(entries@);
    let ghost v = version@;
    proof {
        lemma_slot::<CargoVersion>(keys, v, 0);
    }
    let mut i: usize = 0;
    while i < entries.len() && entries[i].0.compare(&version) == Sign::Greater
        invariant
            i <= entries.len(),
            keys == version_keys(entries@),
            slot::<CargoVersion>(keys, v) == i + above_len::<CargoVersion>(keys, v, i as int),
        decreases entries.len() - i,
    {
        assert(keys[i as int] == entries@[i as int].0@);
        i = i + 1;
    }
    if i < entries.len() {
        assert(keys[i as int] == entries@[i as int].0@);
    }
    assert(slot::<CargoVersion>(keys, v) == i);
    if i < entries.len() && entries[i].0.compare(&version) == Sign::Equal {
        let old_entry = entries.remove(i);
        entries.insert(i, (old_entry.0, dependencies));
        assert(version_keys(entries@) =~= keys);
        true
    } else if i >= entries.len() || version.compare(&entries[i].0) == Sign::Greater {
        entries.insert(i, (version, dependencies));
        let ghost after = version_keys(entries@);
        assert(after =~= keys.insert(i as int, v));
        proof {
            if descending::<CargoVersion>(keys) {
                assert forall|a: int, b: int| 0 <= a && b == a + 1 && b < after.len() implies
                    CargoVersion::order(#[trigger] after[a], #[trigger] after[b])
                    == Sign::Greater by {
                    if b < i {
                        assert(after[a] == keys[a] && after[b] == keys[b]);
                    } else if b == i {
                        assert(after[a] == keys[a] && after[b] == v);
                    } else if a == i {
                        assert(after[a] == v && after[b] == keys[i as int]);
                    } else {
                        assert(after[a] == keys[a - 1] && after[b] == keys[a]);
                    }
                }
            }
        }
        true
    } else {
        false
    }
}

impl<'c> CargoIndex<'c> {
    /// The versions recorded for `package`, newest first; none where the
    /// package is not known.
    pub open spec fn versions_of(&self, package: NamesModel) -> Seq<Seq<char>> {
        match crate_position(self.crates@, package, 0) {
            Some(p) => version_keys(self.crates@[p].versions@),
            None => Seq::empty(),
        }
    }

    /// The dependencies recorded for the version of `package` that is
    /// written `version`.
    pub open spec fn dependencies_of(&self, package: NamesModel, version: Seq<char>) -> Option<
        ConstraintsModel,
    > {
        match crate_position(self.crates@, package, 0) {
            Some(p) => {
                let versions = self.crates@[p].versions@;
                match version_position(version_keys(versions), version, 0) {
                    Some(k) => Some(constraint_models(versions[k].1@)),
                    None => None,
                }
            },
            None => None,
        }
    }

    /// An index without packages.
    pub fn new() -> (r: Self)
        ensures
            r.crates@.len() == 0,
            r.wf(),
    {
        CargoIndex { crates: Vec::new() }
    }

    /// Finds the entry of `package`.
    pub fn find_crate(&self, package: &Names<'c>) -> (r: Option<usize>)
        ensures
            match r {
                Some(p) => crate_position(self.crates@, package@, 0) == Some(p as int) && p
                    < self.crates.len(),
                None => crate_position(self.crates@, package@, 0) is None,
            },
    {
        let mut i: usize = 0;
        while i < self.crates.len()
            invariant
                i <= self.crates.len(),
                crate_position(self.crates@, package@, 0) == crate_position(
                    self.crates@,
                    package@,
                    i as int,
                ),
            decreases self.crates.len() - i,
        {
            if self.crates[i].package.same(package) {
                return Some(i);
            }
            i = i + 1;
        }
        None
    }

    /// Records a version of `package` with its dependencies, at its place
    /// among the versions of the package, and says whether it was taken: a
    /// version is refused where the order does not put it above the version
    /// that it would stand before. Where a version that compares equal is
    /// recorded already, its dependencies are replaced.
    pub fn add_version(
        &mut self,
        package: Names<'c>,
        version: CargoVersion,
        dependencies: Constraints<'c>,
    ) -> (taken: bool)
        ensures
            taken == fits(old(self).versions_of(package@), version@),
            taken ==> final(self).versions_of(package@) == keys_with::<CargoVersion>(
                old(self).versions_of(package@),
                version@,
            ),
            !taken ==> final(self).versions_of(package@) == old(self).versions_of(package@),
            old(self).wf() ==> final(self).wf(),
    {
        let ghost before = self.crates@;
        match self.find_crate(&package) {
            Some(p) => {
                let mut entry = self.crates.remove(p);
                let taken = insert_checked(&mut entry.versions, version, dependencies);
                self.crates.insert(p, entry);
                proof {
                    lemma_crate_position(before, self.crates@, package@, 0);
                    if old(self).wf() {
                        assert forall|i: int| 0 <= i < self.crates@.len() implies descending::<
                            CargoVersion,
                        >(version_keys((#[trigger] self.crates@[i]).versions@)) by {
                            if i != p {
                                assert(self.crates@[i] == before[i]);
                            }
                        }
                    }
                }
                taken
            },
            None => {
                let mut versions: Vec<(CargoVersion, Constraints<'c>)> = Vec::new();
                assert(version_keys(versions@) =~= Seq::<Seq<char>>::empty());
                let taken = insert_checked(&mut versions, version, dependencies);
                self.crates.push(Crate { package, versions });
                proof {
                    lemma_crate_position_end(before, self.crates@, package@, 0);
                    if old(self).wf() {
                        assert forall|i: int| 0 <= i < self.crates@.len() implies descending::<
                            CargoVersion,
                        >(version_keys((#[trigger] self.crates@[i]).versions@)) by {
                            if i < before.len() {
                                assert(self.crates@[i] == before[i]);
                            }
                        }
                    }
                }
                taken
            },
        }
    }

    /// The versions of every package go from the newest to the oldest.
    pub open spec fn wf(&self) -> bool {
        forall|i: int|
            0 <= i < self.crates@.len() ==> descending::<CargoVersion>(
                version_keys((#[trigger] self.crates@[i]).versions@),
            )
    }

    /// Whether the versions of every package go from the newest to the
    /// oldest.
    pub fn is_well_formed(&self) -> (r: bool)
        ensures
            r == self.wf(),
    {
        let mut i: usize = 0;
        while i < self.crates.len()
            invariant
                i <= self.crates.len(),
                forall|k: int|
                    0 <= k < i ==> descending::<CargoVersion>(
                        version_keys((#[trigger] self.crates@[k]).versions@),
                    ),
            decreases self.crates.len() - i,
        {
            assert(version_keys(self.crates@[i as int].versions@)
                =~= crate::index::version_keys(self.crates@[i as int].versions@));
            if !crate::index::is_descending(&self.crates[i].versions) {
                return false;
            }
            i = i + 1;
        }
        true
    }

    /// The versions of `package`, in the order in which they are to be
    /// tried.
    pub fn list_versions(&self, package: &Names<'c>) -> (r: Vec<CargoVersion>)
        ensures
            r@.map_values(|v: CargoVersion| v@) == self.versions_of(package@),
            self.wf() ==> descending::<CargoVersion>(self.versions_of(package@)),
    {
        let mut out: Vec<CargoVersion> = Vec::new();
        match self.find_crate(package) {
            Some(p) => {
                let versions = &self.crates[p].versions;
                let mut i: usize = 0;
                while i < versions.len()
                    invariant
                        i <= versions.len(),
                        out@.len() == i,
                        forall|j: int| 0 <= j < i ==> out@[j]@ == versions@[j].0@,
                    decreases versions.len() - i,
                {
                    out.push(versions[i].0.duplicate());
                    i = i + 1;
                }
                assert(out@.map_values(|v: CargoVersion| v@) =~= version_keys(versions@));
            },
            None => {
                assert(out@.map_values(|v: CargoVersion| v@) =~= Seq::empty());
            },
        }
        out
    }

    /// The first listed version of `package` that lies in `range`.
    pub fn choose_version(&self, package: &Names<'c>, range: &Range<CargoVersion>) -> (r: Option<
        CargoVersion,
    >)
        ensures
            match r {
                Some(v) => first_match::<CargoVersion>(self.versions_of(package@), range@)
                    == Some(v@),
                None => first_match::<CargoVersion>(self.versions_of(package@), range@) is None,
            },
    {
        let versions = self.list_versions(package);
        assert(versions@.map_values(|x: CargoVersion| VersionOrder::text(&x))
            =~= versions@.map_values(|v: CargoVersion| v@));
        first_in_range(versions, range)
    }

    /// The dependencies of `package` at `version`.
    #[verifier::loop_isolation(false)]
    pub fn get_dependencies(&self, package: &Names<'c>, version: &CargoVersion) -> (r:
        Dependencies<Names<'c>, Range<CargoVersion>>)
        ensures
            match r {
                Dependencies::Available(c) => self.dependencies_of(package@, version@) == Some(
                    constraint_models(c@),
                ),
                Dependencies::Unavailable(reason) => self.dependencies_of(package@, version@)
                    is None && reason@ == Seq::<char>::empty(),
            },
    {
        match self.find_crate(package) {
            Some(p) => {
                let versions = &self.crates[p].versions;
                let ghost keys = version_keys(versions@);
                let mut i: usize = 0;
                while i < versions.len()
                    invariant
                        i <= versions.len(),
                        version_position(keys, version@, 0) == version_position(
                            keys,
                            version@,
                            i as int,
                        ),
                    decreases versions.len() - i,
                {
                    assert(keys[i as int] == versions@[i as int].0@);
                    if versions[i].0.same(version) {
                        return Dependencies::Available(duplicate_constraints(&versions[i].1));
                    }
                    i = i + 1;
                }
                Dependencies::Unavailable(String::new())
            },
            None => Dependencies::Unavailable(String::new()),
        }
    }
}

/// Replacing the entry of a package by another entry of the same package
/// leaves the package where it was.
pub proof fn lemma_crate_position(a: Seq<Crate>, b: Seq<Crate>, package: NamesModel, i: int)
    requires
        0 <= i,
        a.len() == b.len(),
        forall|j: int| 0 <= j < a.len() ==> (#[trigger] a[j]).package@ == b[j].package@,
    ensures
        crate_position(a, package, i) == crate_position(b, package, i),
    decreases a.len() - i,
{
    if i < a.len() && a[i].package@ != package {
        lemma_crate_position(a, b, package, i + 1);
    }
}

/// A package that is not known is found at the end once it was put there.
pub proof fn lemma_crate_position_end(a: Seq<Crate>, b: Seq<Crate>, package: NamesModel, i: int)
    requires
        0 <= i <= a.len(),
        b.len() == a.len() + 1,
        forall|j: int| 0 <= j < a.len() ==> (#[trigger] a[j]) == b[j],
        b[a.len() as int].package@ == package,
        crate_position(a, package, i) is None,
    ensures
        crate_position(b, package, i) == Some(a.len() as int),
    decreases a.len() - i,
{
    if i < a.len() {
        lemma_crate_position_end(a, b, package, i + 1);
    }
}

} // verus!
