//! An index of packages: for each package its versions, newest first, and
//! with each version what the repository says of it.

use crate::constraints::{lemma_position_from, position, position_from};
use crate::order::{ConsistentOrder, VersionOrder};
use crate::text::Sign;
use vstd::prelude::*;

verus! {

/// The name of a package.
pub type PackageName = String;

/// An index of the packages of one ecosystem. `V` is the ecosystem's kind of
/// version and `D` what the repository records for each version.
#[derive(Debug)]
pub struct Index<V, D> {
    pub packages: Vec<(PackageName, Vec<(V, D)>)>,
}

/// The versions of one package as texts, in the order of the list.
pub open spec fn version_keys<V: VersionOrder, D>(entries: Seq<(V, D)>) -> Seq<Seq<char>> {
    entries.map_values(|e: (V, D)| e.0.text())
}

/// The versions of one package with what is recorded for each, in the order
/// of the list.
pub open spec fn entry_models<V: VersionOrder, D: DeepView>(entries: Seq<(V, D)>) -> Seq<
    (Seq<char>, D::V),
> {
    entries.map_values(|e: (V, D)| (e.0.text(), e.1.deep_view()))
}

/// The versions of a list of entries.
pub open spec fn keys_of<D>(entries: Seq<(Seq<char>, D)>) -> Seq<Seq<char>> {
    entries.map_values(|e: (Seq<char>, D)| e.0)
}

/// The entries of a package after `d` was recorded for `v`: where a version
/// that compares equal to `v` is there, `d` replaces what is recorded for
/// it; else `v` goes to its slot with `d`.
pub open spec fn entries_with<V: VersionOrder, D>(
    entries: Seq<(Seq<char>, D)>,
    v: Seq<char>,
    d: D,
) -> Seq<(Seq<char>, D)> {
    let keys = keys_of(entries);
    let k = slot::<V>(keys, v);
    if present::<V>(keys, v) {
        entries.update(k, (entries[k].0, d))
    } else {
        entries.insert(k, (v, d))
    }
}

/// The packages of an index after `d` was recorded for the version `v` of
/// the package `name`: a package that is not there yet goes to the end.
pub open spec fn packages_with<V: VersionOrder, D>(
    packages: Seq<(Seq<char>, Seq<(Seq<char>, D)>)>,
    name: Seq<char>,
    v: Seq<char>,
    d: D,
) -> Seq<(Seq<char>, Seq<(Seq<char>, D)>)> {
    match position(packages, name) {
        Some(p) => packages.update(p, (name, entries_with::<V, D>(packages[p].1, v, d))),
        None => packages.push((name, entries_with::<V, D>(Seq::empty(), v, d))),
    }
}

/// Each version of the list is above the one that follows it.
pub open spec fn descending<V: VersionOrder>(keys: Seq<Seq<char>>) -> bool {
    forall|i: int, j: int|
        0 <= i && j == i + 1 && j < keys.len() ==> V::order(#[trigger] keys[i], #[trigger] keys[j])
            == Sign::Greater
}

/// Number of versions from position `i` on that are above `v`, up to the
/// first that is not.
pub open spec fn above_len<V: VersionOrder>(keys: Seq<Seq<char>>, v: Seq<char>, i: int) -> nat
    decreases keys.len() - i,
{
    if 0 <= i < keys.len() && V::order(keys[i], v) == Sign::Greater {
        1 + above_len::<V>(keys, v, i + 1)
    } else {
        0
    }
}

/// Where `v` belongs in a list of versions that goes from the newest to the
/// oldest: the position of the first version that is not above `v`.
pub open spec fn slot<V: VersionOrder>(keys: Seq<Seq<char>>, v: Seq<char>) -> int {
    above_len::<V>(keys, v, 0) as int
}

/// `v` is already in the list, at its slot.
pub open spec fn present<V: VersionOrder>(keys: Seq<Seq<char>>, v: Seq<char>) -> bool {
    slot::<V>(keys, v) < keys.len() && V::order(keys[slot::<V>(keys, v)], v) == Sign::Equal
}

/// The versions of a package after `v` was recorded: where a version that
/// compares equal to `v` is there, the list is unchanged; else `v` stands at
/// its slot.
pub open spec fn keys_with<V: VersionOrder>(keys: Seq<Seq<char>>, v: Seq<char>) -> Seq<
    Seq<char>,
> {
    if present::<V>(keys, v) {
        keys
    } else {
        keys.insert(slot::<V>(keys, v), v)
    }
}

/// The slot lies in the list or at its end, every version before it is above
/// `v`, and the version at it is not.
pub proof fn lemma_slot<V: VersionOrder>(keys: Seq<Seq<char>>, v: Seq<char>, i: int)
    requires
        0 <= i <= keys.len(),
    ensures
        i + above_len::<V>(keys, v, i) <= keys.len(),
        forall|j: int|
            i <= j < i + above_len::<V>(keys, v, i) ==> V::order(#[trigger] keys[j], v)
                == Sign::Greater,
        i + above_len::<V>(keys, v, i) < keys.len() ==> V::order(
            keys[i + above_len::<V>(keys, v, i)],
            v,
        ) != Sign::Greater,
    decreases keys.len() - i,
{
    if i < keys.len() && V::order(keys[i], v) == Sign::Greater {
        lemma_slot::<V>(keys, v, i + 1);
    }
}

/// Recording a version keeps the list in order from the newest to the
/// oldest.
pub proof fn lemma_keys_with_descending<V: ConsistentOrder>(keys: Seq<Seq<char>>, v: Seq<char>)
    requires
        descending::<V>(keys),
    ensures
        descending::<V>(keys_with::<V>(keys, v)),
{
    lemma_slot::<V>(keys, v, 0);
    let k = slot::<V>(keys, v);
    let after = keys_with::<V>(keys, v);
    if !present::<V>(keys, v) {
        assert forall|i: int, j: int| 0 <= i && j == i + 1 && j < after.len() implies V::order(
            #[trigger] after[i],
            #[trigger] after[j],
        ) == Sign::Greater by {
            if i + 1 < k {
                assert(after[i] == keys[i] && after[i + 1] == keys[i + 1]);
            } else if i + 1 == k {
                assert(after[i] == keys[i] && after[i + 1] == v);
            } else if i == k {
                assert(after[i] == v && after[i + 1] == keys[k]);
                V::lemma_order_flips(keys[k], v);
            } else {
                assert(after[i] == keys[i - 1] && after[i + 1] == keys[i]);
            }
        }
    }
}

impl<V: ConsistentOrder, D: DeepView> Index<V, D> {
    /// The names of the packages, in the order in which they were recorded,
    /// each with its versions.
    pub open spec fn model(&self) -> Seq<(Seq<char>, Seq<Seq<char>>)> {
        self.packages@.map_values(|p: (PackageName, Vec<(V, D)>)| (p.0@, version_keys(p.1@)))
    }

    /// The packages in the order in which they were recorded, each with its
    /// versions and what is recorded for them.
    pub open spec fn contents(&self) -> Seq<(Seq<char>, Seq<(Seq<char>, D::V)>)> {
        self.packages@.map_values(|p: (PackageName, Vec<(V, D)>)| (p.0@, entry_models(p.1@)))
    }

    /// The versions of every package go from the newest to the oldest.
    pub open spec fn wf(&self) -> bool {
        forall|i: int|
            0 <= i < self.packages@.len() ==> descending::<V>(
                version_keys((#[trigger] self.packages@[i]).1@),
            )
    }

    /// The versions recorded for `name`, newest first; none where the package
    /// is not known.
    pub open spec fn versions_of(&self, name: Seq<char>) -> Seq<Seq<char>> {
        match position(self.model(), name) {
            Some(p) => self.model()[p].1,
            None => Seq::empty(),
        }
    }

    /// What is recorded for the version of `name` that compares equal to
    /// `version`.
    pub open spec fn entry_of(&self, name: Seq<char>, version: Seq<char>) -> Option<D> {
        match position(self.model(), name) {
            Some(p) => {
                let entries = self.packages@[p].1@;
                let keys = version_keys(entries);
                if present::<V>(keys, version) {
                    Some(entries[slot::<V>(keys, version)].1)
                } else {
                    None
                }
            },
            None => None,
        }
    }

    /// Whether the versions of every package go from the newest to the
    /// oldest.
    pub fn is_well_formed(&self) -> (r: bool)
        ensures
            r == self.wf(),
    {
        let mut i: usize = 0;
        while i < self.packages.len()
            invariant
                i <= self.packages.len(),
                forall|k: int|
                    0 <= k < i ==> descending::<V>(
                        version_keys((#[trigger] self.packages@[k]).1@),
                    ),
            decreases self.packages.len() - i,
        {
            if !is_descending(&self.packages[i].1) {
                return false;
            }
            i = i + 1;
        }
        true
    }

    /// An index without packages.
    pub fn new() -> (r: Self)
        ensures
            r.wf(),
            r.model() == Seq::<(Seq<char>, Seq<Seq<char>>)>::empty(),
            r.contents() == Seq::<(Seq<char>, Seq<(Seq<char>, D::V)>)>::empty(),
    {
        let r = Index { packages: Vec::new() };
        assert(r.model() =~= Seq::empty());
        assert(r.contents() =~= Seq::empty());
        r
    }

    /// The number of packages.
    pub fn package_count(&self) -> (n: usize)
        ensures
            n == self.model().len(),
    {
        self.packages.len()
    }

    /// Finds the entry of the package `name`.
    pub fn find_package(&self, name: &str) -> (r: Option<usize>)
        ensures
            match r {
                Some(p) => position(self.model(), name@) == Some(p as int) && p
                    < self.packages.len(),
                None => position(self.model(), name@) is None,
            },
    {
        let ghost m = self.model();
        let wanted = name.to_string();
        let mut i: usize = 0;
        while i < self.packages.len()
            invariant
                i <= self.packages.len(),
                m == self.model(),
                wanted@ == name@,
                position(m, name@) == position_from(m, name@, i as int),
            decreases self.packages.len() - i,
        {
            assert(m[i as int].0 == self.packages@[i as int].0@);
            if self.packages[i].0 == wanted {
                return Some(i);
            }
            i = i + 1;
        }
        None
    }

    /// The versions of `package`, newest first.
    pub fn available_versions(&self, package: &PackageName) -> (r: Vec<V>)
        ensures
            r@.map_values(|v: V| v.text()) == self.versions_of(package@),
            self.wf() ==> descending::<V>(self.versions_of(package@)),
    {
        let mut out: Vec<V> = Vec::new();
        match self.find_package(package.as_str()) {
            Some(p) => {
                let entries = &self.packages[p].1;
                let ghost keys = version_keys(entries@);
                assert(self.model()[p as int].1 == keys);
                let mut i: usize = 0;
                while i < entries.len()
                    invariant
                        i <= entries.len(),
                        keys == version_keys(entries@),
                        out@.len() == i,
                        forall|j: int| 0 <= j < i ==> out@[j].text() == keys[j],
                    decreases entries.len() - i,
                {
                    out.push(entries[i].0.duplicate());
                    i = i + 1;
                }
                assert(out@.map_values(|v: V| v.text()) =~= keys);
            },
            None => {
                assert(out@.map_values(|v: V| v.text()) =~= Seq::empty());
            },
        }
        out
    }

    /// What is recorded for `version` of `package`.
    #[verifier::loop_isolation(false)]
    pub fn get(&self, package: &str, version: &V) -> (r: Option<&D>)
        ensures
            match r {
                Some(d) => self.entry_of(package@, version.text()) == Some(*d),
                None => self.entry_of(package@, version.text()) is None,
            },
    {
        match self.find_package(package) {
            Some(p) => {
                let entries = &self.packages[p].1;
                let ghost keys = version_keys(entries@);
                let mut i: usize = 0;
                while i < entries.len()
                    invariant
                        i <= entries.len(),
                        keys == version_keys(entries@),
                        slot::<V>(keys, version.text()) == i + above_len::<V>(
                            keys,
                            version.text(),
                            i as int,
                        ),
                    decreases entries.len() - i,
                {
                    assert(keys[i as int] == entries@[i as int].0.text());
                    let o = entries[i].0.compare(version);
                    if o == Sign::Equal {
                        return Some(&entries[i].1);
                    }
                    if o != Sign::Greater {
                        return None;
                    }
                    i = i + 1;
                }
                None
            },
            None => None,
        }
    }

    /// Records what the repository says of `version` of `package`. Where a
    /// version that compares equal is recorded already, what is recorded
    /// for it is replaced.
    pub fn add_deps(&mut self, package: &str, version: V, deps: D)
        ensures
            old(self).wf() ==> final(self).wf(),
            final(self).contents() == packages_with::<V, D::V>(
                old(self).contents(),
                package@,
                version.text(),
                deps.deep_view(),
            ),
            final(self).versions_of(package@) == keys_with::<V>(
                old(self).versions_of(package@),
                version.text(),
            ),
            final(self).entry_of(package@, version.text()) == Some(deps),
            forall|other: Seq<char>|
                other != package@ ==> final(self).versions_of(other) == old(self).versions_of(
                    other,
                ),
    {
        let ghost before = self.model();
        let ghost full = self.contents();
        let ghost v = version.text();
        let found = self.find_package(package);
        proof {
            lemma_position_from(before, package@, 0);
            assert(before.len() == full.len());
            assert forall|i: int| 0 <= i < before.len() implies (#[trigger] before[i]).0
                == full[i].0 by {}
            lemma_same_names_same_position(before, full, package@);
        }
        match found {
            Some(p) => {
                let ghost keys = before[p as int].1;
                assert(keys == version_keys(self.packages@[p as int].1@));
                assert(before[p as int].0 == self.packages@[p as int].0@);
                assert(full[p as int].1 == entry_models(self.packages@[p as int].1@));
                let taken = self.packages.remove(p);
                let name = taken.0;
                let mut entries = taken.1;
                assert(keys_of(entry_models(entries@)) =~= keys);
                insert_version(&mut entries, version, deps);
                self.packages.insert(p, (name, entries));
                let ghost after = self.model();
                assert(after =~= before.update(p as int, (package@, keys_with::<V>(keys, v))));
                assert(self.contents() =~= full.update(
                    p as int,
                    (package@, entries_with::<V, D::V>(full[p as int].1, v, deps.deep_view())),
                ));
                proof {
                    lemma_same_names_same_position(before, after, package@);
                    if old(self).wf() {
                        lemma_keys_with_descending::<V>(keys, v);
                        assert forall|i: int| 0 <= i < self.packages@.len() implies descending::<
                            V,
                        >(version_keys((#[trigger] self.packages@[i]).1@)) by {
                            if i != p {
                                assert(self.packages@[i] == old(self).packages@[i]);
                            }
                        }
                    }
                    assert forall|other: Seq<char>| other != package@ implies self.versions_of(
                        other,
                    ) == old(self).versions_of(other) by {
                        lemma_same_names_same_position(before, after, other);
                        lemma_position_from(before, other, 0);
                    }
                }
            },
            None => {
                let mut entries: Vec<(V, D)> = Vec::new();
                assert(entry_models(entries@) =~= Seq::<(Seq<char>, D::V)>::empty());
                insert_version(&mut entries, version, deps);
                assert(version_keys(Seq::<(V, D)>::empty()) =~= Seq::<Seq<char>>::empty());
                self.packages.push((package.to_string(), entries));
                assert(self.contents() =~= full.push(
                    (package@, entries_with::<V, D::V>(Seq::empty(), v, deps.deep_view())),
                ));
                let ghost after = self.model();
                assert(after =~= before.push(
                    (package@, keys_with::<V>(Seq::<Seq<char>>::empty(), v)),
                ));
                proof {
                    lemma_keys_with_descending::<V>(Seq::<Seq<char>>::empty(), v);
                    lemma_position_is(after, package@, before.len() as int);
                    if old(self).wf() {
                        assert forall|i: int| 0 <= i < self.packages@.len() implies descending::<
                            V,
                        >(version_keys((#[trigger] self.packages@[i]).1@)) by {
                            if i < before.len() {
                                assert(self.packages@[i] == old(self).packages@[i]);
                            }
                        }
                    }
                    assert forall|other: Seq<char>| other != package@ implies self.versions_of(
                        other,
                    ) == old(self).versions_of(other) by {
                        lemma_position_from(before, other, 0);
                        lemma_position_from(after, other, 0);
                        match position(before, other) {
                            Some(q) => {
                                lemma_position_is(after, other, q);
                            },
                            None => {},
                        }
                    }
                }
            },
        }
    }
}

/// Whether each version of the list is above the one that follows it.
pub fn is_descending<V: VersionOrder, D>(entries: &Vec<(V, D)>) -> (r: bool)
    ensures
        r == descending::<V>(version_keys(entries@)),
{
    let ghost keys = version_keys(entries@);
    if entries.len() < 2 {
        return true;
    }
    let mut i: usize = 0;
    while i + 1 < entries.len()
        invariant
            i + 1 <= entries.len(),
            keys == version_keys(entries@),
            forall|a: int, b: int|
                0 <= a && b == a + 1 && b <= i ==> V::order(#[trigger] keys[a], #[trigger] keys[b])
                    == Sign::Greater,
        decreases entries.len() - i,
    {
        assert(keys[i as int] == entries@[i as int].0.text());
        assert(keys[i + 1] == entries@[i + 1].0.text());
        if entries[i].0.compare(&entries[i + 1].0) != Sign::Greater {
            return false;
        }
        i = i + 1;
    }
    true
}

/// The slot of `v` is `k` where every version before `k` is above `v` and
/// the version at `k`, if there is one, is not.
pub proof fn lemma_slot_is<V: VersionOrder>(keys: Seq<Seq<char>>, v: Seq<char>, k: int, i: int)
    requires
        0 <= i <= k <= keys.len(),
        forall|j: int| 0 <= j < k ==> V::order(#[trigger] keys[j], v) == Sign::Greater,
        k < keys.len() ==> V::order(keys[k], v) != Sign::Greater,
    ensures
        i + above_len::<V>(keys, v, i) == k,
    decreases k - i,
{
    if i < k {
        lemma_slot_is::<V>(keys, v, k, i + 1);
    }
}

/// The first entry for `name` is at `p` where `p` holds it and no earlier
/// position does.
pub proof fn lemma_position_is<S>(m: Seq<(Seq<char>, S)>, name: Seq<char>, p: int)
    requires
        0 <= p < m.len(),
        m[p].0 == name,
        forall|j: int| 0 <= j < p ==> (#[trigger] m[j]).0 != name,
    ensures
        position(m, name) == Some(p),
{
    lemma_position_from(m, name, 0);
}

/// Puts `version` with `deps` at its slot in a list of versions, or replaces
/// what is recorded for the version that compares equal to it.
#[verifier::loop_isolation(false)]
pub fn insert_version<V: ConsistentOrder, D: DeepView>(
    entries: &mut Vec<(V, D)>,
    version: V,
    deps: D,
)
    ensures
        entry_models(final(entries)@) == entries_with::<V, D::V>(
            entry_models(old(entries)@),
            version.text(),
            deps.deep_view(),
        ),
        version_keys(final(entries)@) == keys_with::<V>(
            version_keys(old(entries)@),
            version.text(),
        ),
        present::<V>(version_keys(final(entries)@), version.text()),
        final(entries)@[slot::<V>(version_keys(final(entries)@), version.text())].1 == deps,
{
    let ghost keys = version_keys(entries@);
    let ghost models = entry_models(entries@);
    let ghost v = version.text();
    proof {
        lemma_slot::<V>(keys, v, 0);
        assert(keys_of(models) =~= keys);
    }
    let mut i: usize = 0;
    while i < entries.len() && entries[i].0.compare(&version) == Sign::Greater
        invariant
            i <= entries.len(),
            keys == version_keys(entries@),
            slot::<V>(keys, v) == i + above_len::<V>(keys, v, i as int),
        decreases entries.len() - i,
    {
        assert(keys[i as int] == entries@[i as int].0.text());
        i = i + 1;
    }
    if i < entries.len() {
        assert(keys[i as int] == entries@[i as int].0.text());
    }
    assert(slot::<V>(keys, v) == i);
    if i < entries.len() && entries[i].0.compare(&version) == Sign::Equal {
        let old_entry = entries.remove(i);
        entries.insert(i, (old_entry.0, deps));
        assert(version_keys(entries@) =~= keys);
        assert(entry_models(entries@) =~= models.update(
            i as int,
            (models[i as int].0, deps.deep_view()),
        ));
    } else {
        entries.insert(i, (version, deps));
        assert(version_keys(entries@) =~= keys.insert(i as int, v));
        assert(entry_models(entries@) =~= models.insert(i as int, (v, deps.deep_view())));
        proof {
            V::lemma_order_flips(v, v);
            let after = version_keys(entries@);
            assert forall|j: int| 0 <= j < i implies V::order(#[trigger] after[j], v)
                == Sign::Greater by {
                assert(after[j] == keys[j]);
            }
            lemma_slot_is::<V>(after, v, i as int, 0);
        }
    }
}

/// Two tables with the same names in the same places find a name at the same
/// place.
pub proof fn lemma_same_names_same_position<S, T>(
    a: Seq<(Seq<char>, S)>,
    b: Seq<(Seq<char>, T)>,
    name: Seq<char>,
)
    requires
        a.len() == b.len(),
        forall|i: int| 0 <= i < a.len() ==> (#[trigger] a[i]).0 == b[i].0,
    ensures
        position(a, name) == position(b, name),
{
    lemma_position_from(a, name, 0);
    lemma_position_from(b, name, 0);
    match (position(a, name), position(b, name)) {
        (Some(p), Some(q)) => {
            if p < q {
                assert(b[p].0 == a[p].0);
            } else if q < p {
                assert(a[q].0 == b[q].0);
            }
        },
        (Some(p), None) => {
            assert(b[p].0 == a[p].0);
        },
        (None, Some(q)) => {
            assert(a[q].0 == b[q].0);
        },
        (None, None) => {},
    }
}

} // verus!
