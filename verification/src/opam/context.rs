//! What a query has learnt so far: the values seen for each variable and the
//! members seen for each conflict class.
//!
//! The context belongs to one query. It only grows while the query runs.

use crate::constraints::{lemma_position_from, position, position_from};
use crate::index::lemma_position_is;
use crate::opam::version::OpamVersion;
use vstd::prelude::*;

verus! {

/// A table from names to the values seen for them, as a model: the names in
/// the order in which they were first seen, each with its values in the
/// order in which they were first seen.
pub type Table = Seq<(Seq<char>, Seq<Seq<char>>)>;

/// The values seen for the variables and the members seen for the conflict
/// classes.
#[derive(Debug, PartialEq, Eq)]
pub struct Context {
    pub variable_values: Vec<(String, Vec<OpamVersion>)>,
    pub conflict_members: Vec<(String, Vec<OpamVersion>)>,
}

impl Clone for Context {
    fn clone(&self) -> (r: Self)
        ensures
            r@ == self@,
    {
        self.duplicate()
    }
}

/// What a [`Context`] stands for.
pub struct ContextModel {
    pub variables: Table,
    pub conflicts: Table,
}

/// The texts of a sequence of versions.
pub open spec fn version_texts(versions: Seq<OpamVersion>) -> Seq<Seq<char>> {
    versions.map_values(|v: OpamVersion| v@)
}

/// The model of a table.
pub open spec fn table_model(table: Seq<(String, Vec<OpamVersion>)>) -> Table {
    table.map_values(|e: (String, Vec<OpamVersion>)| (e.0@, version_texts(e.1@)))
}

impl View for Context {
    type V = ContextModel;

    open spec fn view(&self) -> ContextModel {
        ContextModel {
            variables: table_model(self.variable_values@),
            conflicts: table_model(self.conflict_members@),
        }
    }
}

/// The values seen for `name`, if any were.
pub open spec fn values_of(table: Table, name: Seq<char>) -> Option<Seq<Seq<char>>> {
    match position(table, name) {
        Some(p) => Some(table[p].1),
        None => None,
    }
}

/// `value` was seen for `name`.
pub open spec fn knows(table: Table, name: Seq<char>, value: Seq<char>) -> bool {
    match values_of(table, name) {
        Some(values) => values.contains(value),
        None => false,
    }
}

/// The table after `value` was seen for `name`: a value that is known
/// changes nothing, a new one goes to the end of the values of its name, and
/// a new name goes to the end of the table.
pub open spec fn learn(table: Table, name: Seq<char>, value: Seq<char>) -> Table {
    match position(table, name) {
        Some(p) => if table[p].1.contains(value) {
            table
        } else {
            table.update(p, (name, table[p].1.push(value)))
        },
        None => table.push((name, seq![value])),
    }
}

/// Learning a value makes it known.
pub proof fn law_context_learns(table: Table, name: Seq<char>, value: Seq<char>)
    ensures
        knows(learn(table, name, value), name, value),
{
    lemma_position_from(table, name, 0);
    let after = learn(table, name, value);
    match position(table, name) {
        Some(p) => {
            if !table[p].1.contains(value) {
                lemma_position_is(after, name, p);
                assert(table[p].1.push(value)[table[p].1.len() as int] == value);
            }
        },
        None => {
            lemma_position_is(after, name, table.len() as int);
            assert(seq![value][0] == value);
        },
    }
}

/// Learning a value forgets nothing.
pub proof fn law_context_keeps(
    table: Table,
    name: Seq<char>,
    value: Seq<char>,
    other_name: Seq<char>,
    other_value: Seq<char>,
)
    requires
        knows(table, other_name, other_value),
    ensures
        knows(learn(table, name, value), other_name, other_value),
{
    lemma_position_from(table, name, 0);
    lemma_position_from(table, other_name, 0);
    let after = learn(table, name, value);
    let q = position(table, other_name)->Some_0;
    match position(table, name) {
        Some(p) => {
            if !table[p].1.contains(value) {
                lemma_position_is(after, other_name, q);
                if p == q {
                    let i = choose|i: int| 0 <= i < table[p].1.len() && table[p].1[i] == other_value;
                    assert(table[p].1.push(value)[i] == other_value);
                }
            }
        },
        None => {
            lemma_position_is(after, other_name, q);
        },
    }
}

/// Finds the first entry for `name`.
pub fn find_entry(table: &Vec<(String, Vec<OpamVersion>)>, name: &String) -> (r: Option<usize>)
    ensures
        match r {
            Some(p) => position(table_model(table@), name@) == Some(p as int) && p < table.len(),
            None => position(table_model(table@), name@) is None,
        },
{
    let ghost m = table_model(table@);
    let mut i: usize = 0;
    while i < table.len()
        invariant
            i <= table.len(),
            m == table_model(table@),
            position(m, name@) == position_from(m, name@, i as int),
        decreases table.len() - i,
    {
        assert(m[i as int].0 == table@[i as int].0@);
        if table[i].0 == *name {
            return Some(i);
        }
        i = i + 1;
    }
    None
}

/// Whether `value` is among `values`.
pub fn has_version(values: &Vec<OpamVersion>, value: &OpamVersion) -> (r: bool)
    ensures
        r == version_texts(values@).contains(value@),
{
    let mut i: usize = 0;
    while i < values.len()
        invariant
            i <= values.len(),
            forall|j: int| 0 <= j < i ==> version_texts(values@)[j] != value@,
        decreases values.len() - i,
    {
        assert(version_texts(values@)[i as int] == values@[i as int]@);
        if values[i].0 == value.0 {
            return true;
        }
        i = i + 1;
    }
    false
}

/// Copies a list of versions.
pub fn duplicate_versions(values: &Vec<OpamVersion>) -> (r: Vec<OpamVersion>)
    ensures
        version_texts(r@) == version_texts(values@),
{
    let mut r: Vec<OpamVersion> = Vec::new();
    let mut i: usize = 0;
    while i < values.len()
        invariant
            i <= values.len(),
            r@.len() == i,
            forall|j: int| 0 <= j < i ==> r@[j]@ == values@[j]@,
        decreases values.len() - i,
    {
        r.push(OpamVersion(values[i].0.clone()));
        i = i + 1;
    }
    assert(version_texts(r@) =~= version_texts(values@));
    r
}

/// Records in `table` that `value` was seen for `name`.
pub fn learn_in(table: &mut Vec<(String, Vec<OpamVersion>)>, name: &String, value: &OpamVersion)
    ensures
        table_model(final(table)@) == learn(table_model(old(table)@), name@, value@),
{
    let ghost before = table_model(table@);
    match find_entry(table, name) {
        Some(p) => {
            assert(before[p as int].1 == version_texts(table@[p as int].1@));
            if !has_version(&table[p].1, value) {
                let mut values = duplicate_versions(&table[p].1);
                values.push(OpamVersion(value.0.clone()));
                assert(version_texts(values@) =~= before[p as int].1.push(value@));
                table.set(p, (name.clone(), values));
                assert(table_model(table@) =~= before.update(
                    p as int,
                    (name@, before[p as int].1.push(value@)),
                ));
            }
        },
        None => {
            let mut values: Vec<OpamVersion> = Vec::new();
            values.push(OpamVersion(value.0.clone()));
            assert(version_texts(values@) =~= seq![value@]);
            table.push((name.clone(), values));
            assert(table_model(table@) =~= before.push((name@, seq![value@])));
        },
    }
}

/// Copies a table.
pub fn duplicate_table(table: &Vec<(String, Vec<OpamVersion>)>) -> (r: Vec<
    (String, Vec<OpamVersion>),
>)
    ensures
        table_model(r@) == table_model(table@),
{
    let mut r: Vec<(String, Vec<OpamVersion>)> = Vec::new();
    let mut i: usize = 0;
    while i < table.len()
        invariant
            i <= table.len(),
            r@.len() == i,
            forall|j: int|
                0 <= j < i ==> r@[j].0@ == table@[j].0@ && version_texts(r@[j].1@)
                    == version_texts(table@[j].1@),
        decreases table.len() - i,
    {
        r.push((table[i].0.clone(), duplicate_versions(&table[i].1)));
        i = i + 1;
    }
    assert(table_model(r@) =~= table_model(table@));
    r
}

impl Context {
    /// A copy of the context.
    pub fn duplicate(&self) -> (r: Context)
        ensures
            r@ == self@,
    {
        Context {
            variable_values: duplicate_table(&self.variable_values),
            conflict_members: duplicate_table(&self.conflict_members),
        }
    }

    /// The context of a new query: nothing has been seen.
    pub fn new() -> (r: Context)
        ensures
            r@.variables == Seq::<(Seq<char>, Seq<Seq<char>>)>::empty(),
            r@.conflicts == Seq::<(Seq<char>, Seq<Seq<char>>)>::empty(),
    {
        let r = Context { variable_values: Vec::new(), conflict_members: Vec::new() };
        assert(r@.variables =~= Seq::empty());
        assert(r@.conflicts =~= Seq::empty());
        r
    }

    /// Records that the variable `name` was seen with `value`.
    pub fn learn_variable(&mut self, name: &String, value: &OpamVersion)
        ensures
            final(self)@.variables == learn(old(self)@.variables, name@, value@),
            final(self)@.conflicts == old(self)@.conflicts,
    {
        learn_in(&mut self.variable_values, name, value);
    }

    /// Records that the conflict class `name` has the member `member`.
    pub fn learn_conflict(&mut self, name: &String, member: &OpamVersion)
        ensures
            final(self)@.conflicts == learn(old(self)@.conflicts, name@, member@),
            final(self)@.variables == old(self)@.variables,
    {
        learn_in(&mut self.conflict_members, name, member);
    }

    /// The values seen for the variable `name`.
    pub fn variable_values(&self, name: &String) -> (r: Option<Vec<OpamVersion>>)
        ensures
            match r {
                Some(values) => values_of(self@.variables, name@) == Some(version_texts(values@)),
                None => values_of(self@.variables, name@) is None,
            },
    {
        match find_entry(&self.variable_values, name) {
            Some(p) => {
                assert(self@.variables[p as int].1 == version_texts(
                    self.variable_values@[p as int].1@,
                ));
                Some(duplicate_versions(&self.variable_values[p].1))
            },
            None => None,
        }
    }

    /// The members seen for the conflict class `name`.
    pub fn conflict_members(&self, name: &String) -> (r: Option<Vec<OpamVersion>>)
        ensures
            match r {
                Some(values) => values_of(self@.conflicts, name@) == Some(version_texts(values@)),
                None => values_of(self@.conflicts, name@) is None,
            },
    {
        match find_entry(&self.conflict_members, name) {
            Some(p) => {
                assert(self@.conflicts[p as int].1 == version_texts(
                    self.conflict_members@[p as int].1@,
                ));
                Some(duplicate_versions(&self.conflict_members[p].1))
            },
            None => None,
        }
    }
}

} // verus!
