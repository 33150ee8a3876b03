//! Dependency constraints as association lists: each package of the list is
//! paired with the set of versions that is allowed for it.

use crate::order::VersionOrder;
use crate::range::{range_contains, Range, SegmentModel};
use vstd::prelude::*;

verus! {

/// Position of the first entry for `key` at or after position `i`.
pub open spec fn position_from<K, S>(m: Seq<(K, S)>, key: K, i: int) -> Option<int>
    decreases m.len() - i,
{
    if i < 0 || i >= m.len() {
        None
    } else if m[i].0 == key {
        Some(i)
    } else {
        position_from(m, key, i + 1)
    }
}

/// Position of the first entry for `key`.
pub open spec fn position<K, S>(m: Seq<(K, S)>, key: K) -> Option<int> {
    position_from(m, key, 0)
}

/// What the list allows for `key`, if it has an entry for it.
pub open spec fn lookup<K, S>(m: Seq<(K, S)>, key: K) -> Option<S> {
    match position(m, key) {
        Some(p) => Some(m[p].1),
        None => None,
    }
}

/// The list with the entry for `key` set to `set`: an entry that is there is
/// replaced, a new one goes to the end.
pub open spec fn put<K, S>(m: Seq<(K, S)>, key: K, set: S) -> Seq<(K, S)> {
    match position(m, key) {
        Some(p) => m.update(p, (key, set)),
        None => m.push((key, set)),
    }
}

/// The list after each entry of `items[i..]` was put into it in turn.
pub open spec fn put_all_from<K, S>(m: Seq<(K, S)>, items: Seq<(K, S)>, i: int) -> Seq<(K, S)>
    decreases items.len() - i,
{
    if i < 0 || i >= items.len() {
        m
    } else {
        put_all_from(put(m, items[i].0, items[i].1), items, i + 1)
    }
}

/// The constraints that a list of pairs gives when they are collected one
/// after the other: a later pair for a package replaces an earlier one.
pub open spec fn collect<K, S>(items: Seq<(K, S)>) -> Seq<(K, S)> {
    put_all_from(Seq::empty(), items, 0)
}

/// No package has two entries.
pub open spec fn distinct_keys<K, S>(m: Seq<(K, S)>) -> bool {
    forall|i: int, j: int| 0 <= i < j < m.len() ==> (#[trigger] m[i]).0 != (#[trigger] m[j]).0
}

/// A position that [`position_from`] reports holds the key, and no entry
/// between the start and it does.
pub proof fn lemma_position_from<K, S>(m: Seq<(K, S)>, key: K, i: int)
    requires
        0 <= i,
    ensures
        match position_from(m, key, i) {
            Some(p) => i <= p < m.len() && m[p].0 == key && forall|j: int|
                i <= j < p ==> (#[trigger] m[j]).0 != key,
            None => forall|j: int| i <= j < m.len() ==> (#[trigger] m[j]).0 != key,
        },
    decreases m.len() - i,
{
    if i < m.len() && m[i].0 != key {
        lemma_position_from(m, key, i + 1);
    }
}

/// Putting an entry into a list without repeated packages leaves it without
/// repeated packages.
pub proof fn law_put_keeps_distinct<K, S>(m: Seq<(K, S)>, key: K, set: S)
    requires
        distinct_keys(m),
    ensures
        distinct_keys(put(m, key, set)),
{
    lemma_position_from(m, key, 0);
    let r = put(m, key, set);
    assert forall|i: int, j: int| 0 <= i < j < r.len() implies (#[trigger] r[i]).0 != (
    #[trigger] r[j]).0 by {
        match position(m, key) {
            Some(p) => {
                assert(r[i].0 == m[i].0);
                assert(r[j].0 == m[j].0);
            },
            None => {
                if j < m.len() {
                    assert(r[i] == m[i]);
                    assert(r[j] == m[j]);
                } else {
                    assert(r[i] == m[i]);
                }
            },
        }
    }
}

/// A value that can be copied, the copy standing for what the value stands
/// for.
pub trait Copied: View + Sized {
    /// A copy of the value.
    fn copied(&self) -> (r: Self)
        ensures
            r@ == self@,
    ;
}

/// A package under which a list of constraints holds an entry: two packages
/// are the same key where they stand for the same.
pub trait Key: Copied {
    /// Whether the two are the same key.
    fn same_key(&self, other: &Self) -> (r: bool)
        ensures
            r == (self@ == other@),
    ;
}

/// What a list of constraints stands for: entry by entry, what the package
/// and the set stand for.
pub open spec fn models<K: View, S: View>(c: Seq<(K, S)>) -> Seq<(K::V, S::V)> {
    c.map_values(|e: (K, S)| (e.0@, e.1@))
}

/// Finds the entry for `key`.
pub fn find_constraint<K: Key, S: View>(map: &Vec<(K, S)>, key: &K) -> (r: Option<usize>)
    ensures
        match r {
            Some(p) => position(models(map@), key@) == Some(p as int) && p < map.len(),
            None => position(models(map@), key@) is None,
        },
{
    let ghost m = models(map@);
    let mut i: usize = 0;
    while i < map.len()
        invariant
            i <= map.len(),
            m == models(map@),
            position(m, key@) == position_from(m, key@, i as int),
        decreases map.len() - i,
    {
        assert(m[i as int].0 == map@[i as int].0@);
        if map[i].0.same_key(key) {
            return Some(i);
        }
        i = i + 1;
    }
    None
}

/// Sets the entry for `key` to `set`.
pub fn put_constraint<K: Key, S: View>(map: &mut Vec<(K, S)>, key: K, set: S)
    ensures
        models(final(map)@) == put(models(old(map)@), key@, set@),
{
    let ghost before = models(map@);
    match find_constraint(map, &key) {
        Some(p) => {
            map.set(p, (key, set));
            assert(models(map@) =~= before.update(p as int, (key@, set@)));
        },
        None => {
            map.push((key, set));
            assert(models(map@) =~= before.push((key@, set@)));
        },
    }
}

/// Collects a list of pairs into constraints.
pub fn collect_constraints<K: Key, S: Copied>(children: &Vec<(K, S)>) -> (r: Vec<(K, S)>)
    ensures
        models(r@) == collect(models(children@)),
{
    let ghost items = models(children@);
    let mut map: Vec<(K, S)> = Vec::new();
    assert(models(map@) =~= Seq::empty());
    let mut i: usize = 0;
    while i < children.len()
        invariant
            i <= children.len(),
            items == models(children@),
            collect(items) == put_all_from(models(map@), items, i as int),
        decreases children.len() - i,
    {
        assert(items[i as int] == (children@[i as int].0@, children@[i as int].1@));
        put_constraint(&mut map, children[i].0.copied(), children[i].1.copied());
        i = i + 1;
    }
    map
}

/// What an index knows of the dependencies of a package at a version.
#[derive(Debug, PartialEq, Eq)]
pub enum Dependencies<P, S> {
    /// Nothing is known, for the reason given.
    Unavailable(String),
    /// The packages that are needed, each with the versions allowed.
    Available(Vec<(P, S)>),
}

/// What an answer about dependencies stands for: nothing is known, for a
/// reason, or the constraints.
pub enum Known<C> {
    Unavailable(Seq<char>),
    Available(C),
}

/// Position of the first version of `keys[i..]` that lies in `range`.
pub open spec fn first_match_from<V: VersionOrder>(
    keys: Seq<Seq<char>>,
    range: Seq<SegmentModel>,
    i: int,
) -> Option<int>
    decreases keys.len() - i,
{
    if i < 0 || i >= keys.len() {
        None
    } else if range_contains::<V>(range, keys[i]) {
        Some(i)
    } else {
        first_match_from::<V>(keys, range, i + 1)
    }
}

/// The first version of the list that lies in `range`.
pub open spec fn first_match<V: VersionOrder>(
    keys: Seq<Seq<char>>,
    range: Seq<SegmentModel>,
) -> Option<Seq<char>> {
    match first_match_from::<V>(keys, range, 0) {
        Some(i) => Some(keys[i]),
        None => None,
    }
}

/// [`first_match_from`] finds a version exactly when one of the listed
/// versions lies in the range, and then it is the first of them.
pub proof fn lemma_first_match<V: VersionOrder>(
    keys: Seq<Seq<char>>,
    range: Seq<SegmentModel>,
    i: int,
)
    requires
        0 <= i,
    ensures
        match first_match_from::<V>(keys, range, i) {
            Some(p) => i <= p < keys.len() && range_contains::<V>(range, keys[p]) && forall|
                j: int,
            | i <= j < p ==> !range_contains::<V>(range, #[trigger] keys[j]),
            None => forall|j: int|
                i <= j < keys.len() ==> !range_contains::<V>(range, #[trigger] keys[j]),
        },
    decreases keys.len() - i,
{
    if i < keys.len() && !range_contains::<V>(range, keys[i]) {
        lemma_first_match::<V>(keys, range, i + 1);
    }
}

/// The first of `versions` that lies in `range`.
pub fn first_in_range<V: VersionOrder>(versions: Vec<V>, range: &Range<V>) -> (r: Option<V>)
    ensures
        match r {
            Some(v) => first_match::<V>(versions@.map_values(|x: V| x.text()), range@) == Some(
                v.text(),
            ),
            None => first_match::<V>(versions@.map_values(|x: V| x.text()), range@) is None,
        },
{
    let ghost keys = versions@.map_values(|x: V| x.text());
    let mut i: usize = 0;
    while i < versions.len()
        invariant
            i <= versions.len(),
            keys == versions@.map_values(|x: V| x.text()),
            first_match_from::<V>(keys, range@, 0) == first_match_from::<V>(
                keys,
                range@,
                i as int,
            ),
        decreases versions.len() - i,
    {
        assert(keys[i as int] == versions@[i as int].text());
        if range.contains(&versions[i]) {
            return Some(versions[i].duplicate());
        }
        i = i + 1;
    }
    None
}

} // verus!
