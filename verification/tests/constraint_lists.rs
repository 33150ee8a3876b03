use babel_solver::alpine::deps::AlpinePackage;
use babel_solver::alpine::version::AlpineVersion;
use babel_solver::constraints::{collect_constraints, find_constraint, put_constraint};
use babel_solver::range::Range;

fn package(name: &str) -> AlpinePackage {
    AlpinePackage::Base(name.to_string())
}

fn at_least(version: &str) -> Range<AlpineVersion> {
    Range::higher_than(AlpineVersion(version.to_string()))
}

#[test]
fn an_entry_is_found_where_it_stands() {
    let list = vec![(package("a"), at_least("1")), (package("b"), at_least("2"))];
    assert_eq!(find_constraint(&list, &package("a")), Some(0));
    assert_eq!(find_constraint(&list, &package("b")), Some(1));
    assert_eq!(find_constraint(&list, &package("c")), None);
    let empty: Vec<(AlpinePackage, Range<AlpineVersion>)> = Vec::new();
    assert_eq!(find_constraint(&empty, &package("a")), None);
}

#[test]
fn putting_replaces_an_entry_or_adds_one_at_the_end() {
    let mut list = vec![(package("a"), at_least("1")), (package("b"), at_least("2"))];
    put_constraint(&mut list, package("a"), at_least("3"));
    assert_eq!(list, vec![(package("a"), at_least("3")), (package("b"), at_least("2"))]);
    put_constraint(&mut list, package("c"), Range::full());
    assert_eq!(
        list,
        vec![
            (package("a"), at_least("3")),
            (package("b"), at_least("2")),
            (package("c"), Range::full()),
        ]
    );
}

#[test]
fn collecting_keeps_the_last_set_of_each_package_at_its_first_place() {
    let pairs = vec![
        (package("a"), at_least("1")),
        (package("b"), at_least("2")),
        (package("a"), at_least("5")),
    ];
    assert_eq!(
        collect_constraints(&pairs),
        vec![(package("a"), at_least("5")), (package("b"), at_least("2"))]
    );
    assert_eq!(pairs.len(), 3);
}
