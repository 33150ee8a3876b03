use babel_solver::alpine::deps::AlpinePackage;
use babel_solver::alpine::index::AlpineIndex;
use babel_solver::alpine::parse::{
    build_index, convert_dependency, convert_dependency_field, create_index,
    parse_alpine_dependency_item, parse_alpine_index, parse_alpine_package,
    version_constraint_to_range, ParseError, VersionRelation,
};
use babel_solver::alpine::version::AlpineVersion;
use babel_solver::constraints::Dependencies;
use babel_solver::range::Range;

#[test]
fn test_parse_alpine_dependency() {
    let dep_str = "libc>=1.2.3";
    let dep = parse_alpine_dependency_item(dep_str).unwrap();
    assert_eq!(dep.package, "libc");
    assert!(dep.version_constraint.is_some());
    let vc = dep.version_constraint.as_ref().unwrap();
    assert_eq!(vc.version, "1.2.3");
    assert_eq!(vc.relation, VersionRelation::GreaterOrEqual);
}

#[test]
fn test_parse_so_dependency() {
    let dep_str = "so:libc.musl-x86_64.so.1";
    let dep = parse_alpine_dependency_item(dep_str).unwrap();
    assert_eq!(dep.package, "so:libc.musl-x86_64.so.1");
    assert!(dep.version_constraint.is_none());
}

const SAMPLE: &str = "C:Q1ssmf0Td4W/0BrJdhzbhot4cQkCs=
P:git-gitk
V:2.26.3-r1
A:x86_64
S:167766
I:843776
T:Gitk interface for git
U:https://www.git-scm.com/
L:GPL-2.0-or-later
o:git
m:Natanael Copa <ncopa@alpinelinux.org>
t:1647343650
c:234c8fe7737f97ec355b069a1f0c8764af8b7e43
D:git=2.26.3-r1 tcl tk
p:cmd:gitk
";

#[test]
fn test_parse_alpine_package() {
    let pkg = parse_alpine_package(SAMPLE).unwrap();
    assert_eq!(pkg.package, "git-gitk");
    assert_eq!(pkg.version, "2.26.3-r1");
    assert_eq!(pkg.arch, Some("x86_64".to_string()));
    assert_eq!(pkg.depends.len(), 3);

    let dep1 = &pkg.depends[0];
    assert_eq!(dep1.package, "git");
    assert!(dep1.version_constraint.is_some());
    let vc = &dep1.version_constraint.as_ref().unwrap();
    assert_eq!(vc.relation, VersionRelation::Equal);
    assert_eq!(vc.version, "2.26.3-r1");

    let dep2 = &pkg.depends[1];
    assert_eq!(dep2.package, "tcl");
    assert!(dep2.version_constraint.is_none());

    let dep3 = &pkg.depends[2];
    assert_eq!(dep3.package, "tk");
    assert!(dep3.version_constraint.is_none());

    assert_eq!(pkg.provides.len(), 1);
    assert_eq!(pkg.provides[0].package, "cmd:gitk");

    println!("{:?}", pkg);
}

#[test]
fn alpine_relations_are_read() {
    assert_eq!(VersionRelation::from_str("<"), Ok(VersionRelation::Less));
    assert_eq!(VersionRelation::from_str(" <= "), Ok(VersionRelation::LessOrEqual));
    assert_eq!(VersionRelation::from_str("="), Ok(VersionRelation::Equal));
    assert_eq!(VersionRelation::from_str(">="), Ok(VersionRelation::GreaterOrEqual));
    assert_eq!(VersionRelation::from_str(">"), Ok(VersionRelation::Greater));
    assert_eq!(
        VersionRelation::from_str("=="),
        Err(ParseError::UnknownRelation("==".to_string()))
    );
}

#[test]
fn alpine_items_with_each_operator() {
    let d = parse_alpine_dependency_item("a>1").unwrap();
    assert_eq!(d.package, "a");
    assert_eq!(d.version_constraint.as_ref().unwrap().relation, VersionRelation::Greater);
    assert_eq!(d.version_constraint.as_ref().unwrap().version, "1");
    let d = parse_alpine_dependency_item("a<1").unwrap();
    assert_eq!(d.package, "a");
    assert_eq!(d.version_constraint.as_ref().unwrap().relation, VersionRelation::Less);
    let d = parse_alpine_dependency_item("a=1").unwrap();
    assert_eq!(d.version_constraint.as_ref().unwrap().relation, VersionRelation::Equal);
    // `<=` and `>=` are taken whole, and the name ends where the operator begins.
    let d = parse_alpine_dependency_item("libc<=1.2.3").unwrap();
    assert_eq!(d.package, "libc");
    assert_eq!(d.version_constraint.as_ref().unwrap().relation, VersionRelation::LessOrEqual);
    assert_eq!(d.version_constraint.as_ref().unwrap().version, "1.2.3");
    assert_eq!(d.arch, None);
    // The first operator parts the item; what follows it is the version.
    let d = parse_alpine_dependency_item("a=b>=c").unwrap();
    assert_eq!(d.package, "a");
    assert_eq!(d.version_constraint.as_ref().unwrap().relation, VersionRelation::Equal);
    assert_eq!(d.version_constraint.as_ref().unwrap().version, "b>=c");
    let d = parse_alpine_dependency_item("a>").unwrap();
    assert_eq!(d.package, "a");
    assert_eq!(d.version_constraint.as_ref().unwrap().relation, VersionRelation::Greater);
    assert_eq!(d.version_constraint.as_ref().unwrap().version, "");
}

#[test]
fn alpine_stanza_errors() {
    assert_eq!(
        parse_alpine_package("P:a\nnonsense\nV:1"),
        Err(ParseError::LineWithoutColon("nonsense".to_string()))
    );
    assert_eq!(parse_alpine_package("V:1\n"), Err(ParseError::MissingPackage));
    assert_eq!(parse_alpine_package("P:a\n"), Err(ParseError::MissingVersion));
    assert_eq!(parse_alpine_package(""), Err(ParseError::MissingPackage));
}

#[test]
fn alpine_stanza_later_field_replaces_earlier() {
    let pkg = parse_alpine_package("P:a\nV:1\n\n  \nV: 2 \nD:\n").unwrap();
    assert_eq!(pkg.package, "a");
    assert_eq!(pkg.version, "2");
    assert_eq!(pkg.arch, None);
    assert!(pkg.depends.is_empty());
    assert!(pkg.provides.is_empty());
}

#[test]
fn alpine_index_is_cut_into_stanzas() {
    let content = "P:a\nV:1\nD:b>=2\n\nP:b\nV:2\np:cmd:b so:libb.so.1\n\n\n";
    let packages = parse_alpine_index(content).unwrap();
    assert_eq!(packages.len(), 2);
    assert_eq!(packages[0].package, "a");
    assert_eq!(packages[1].package, "b");
    assert_eq!(packages[1].provides.len(), 2);
    assert_eq!(
        parse_alpine_index("P:a\nV:1\n\nP:b\n"),
        Err(ParseError::MissingVersion)
    );
    assert_eq!(parse_alpine_index("").unwrap().len(), 0);
}

fn alpine(s: &str) -> AlpineVersion {
    AlpineVersion(s.to_string())
}

#[test]
fn alpine_constraint_ranges() {
    let v = || alpine("1.2");
    let eq = version_constraint_to_range(&VersionRelation::Equal, v());
    assert!(eq.contains(&alpine("1.2")));
    assert!(!eq.contains(&alpine("1.3")));
    let ge = version_constraint_to_range(&VersionRelation::GreaterOrEqual, v());
    assert!(ge.contains(&alpine("1.2")) && ge.contains(&alpine("1.3")) && !ge.contains(&alpine("1.1")));
    let gt = version_constraint_to_range(&VersionRelation::Greater, v());
    assert!(!gt.contains(&alpine("1.2")) && gt.contains(&alpine("1.3")));
    let lt = version_constraint_to_range(&VersionRelation::Less, v());
    assert!(!lt.contains(&alpine("1.2")) && lt.contains(&alpine("1.1")));
    let le = version_constraint_to_range(&VersionRelation::LessOrEqual, v());
    assert!(le.contains(&alpine("1.2")) && le.contains(&alpine("1.1")) && !le.contains(&alpine("1.3")));
}

#[test]
fn alpine_dependency_without_constraint_allows_all() {
    let item = parse_alpine_dependency_item("tcl").unwrap();
    let dep = convert_dependency(&item);
    assert_eq!(dep.name, "tcl");
    assert_eq!(dep.range.0, Range::full());
    let items = vec![
        parse_alpine_dependency_item("git=2.26.3-r1").unwrap(),
        parse_alpine_dependency_item("tk").unwrap(),
    ];
    let deps = convert_dependency_field(&items);
    assert_eq!(deps.len(), 2);
    assert_eq!(deps[0].name, "git");
    assert_eq!(deps[0].range.0, Range::singleton(alpine("2.26.3-r1")));
    assert_eq!(deps[1].range.0, Range::full());
}

#[test]
fn alpine_index_lists_newest_first() {
    let content = "P:a\nV:1.0\n\nP:a\nV:1.2\n\nP:a\nV:1.1_rc1\n\nP:a\nV:1.1\np:cmd:a\n";
    let index: AlpineIndex = create_index(content).unwrap();
    assert_eq!(index.package_count(), 2);
    let versions = index.available_versions(&"a".to_string());
    let texts: Vec<String> = versions.iter().map(|v| v.to_string()).collect();
    assert_eq!(texts, vec!["1.2", "1.1", "1.1_rc1", "1.0"]);
    assert!(index.available_versions(&"missing".to_string()).is_empty());

    // What a package provides is a package whose version is named after the
    // provider and that depends on the provider at its version.
    let provided = index.available_versions(&"cmd:a".to_string());
    assert_eq!(provided, vec![alpine("a")]);
    match index.get_dependencies(&AlpinePackage::Base("cmd:a".to_string()), &alpine("a")) {
        Dependencies::Available(deps) => {
            assert_eq!(deps.len(), 1);
            assert_eq!(deps[0].0, AlpinePackage::Base("a".to_string()));
            assert_eq!(deps[0].1, Range::singleton(alpine("1.1")));
        }
        Dependencies::Unavailable(_) => panic!("the provided name has dependencies"),
    }
}

#[test]
fn alpine_index_answers() {
    let packages = parse_alpine_index("P:a\nV:1\nD:b>=2 c b<3\n\nP:b\nV:2\n").unwrap();
    let index = build_index(&packages);
    let a = AlpinePackage::Base("a".to_string());
    assert_eq!(index.list_versions(&a), vec![alpine("1")]);
    assert_eq!(index.choose_version(&a, &Range::full()), Some(alpine("1")));
    assert_eq!(index.choose_version(&a, &Range::strictly_higher_than(alpine("1"))), None);
    assert_eq!(index.prioritize(&a, &Range::full()), 1);
    match index.get_dependencies(&a, &alpine("1")) {
        Dependencies::Available(deps) => {
            // A later dependency on a package replaces an earlier one.
            assert_eq!(deps.len(), 2);
            assert_eq!(deps[0].0, AlpinePackage::Base("b".to_string()));
            assert_eq!(deps[0].1, Range::strictly_lower_than(alpine("3")));
            assert_eq!(deps[1].0, AlpinePackage::Base("c".to_string()));
            assert_eq!(deps[1].1, Range::full());
        }
        Dependencies::Unavailable(_) => panic!("the version is in the index"),
    }
    assert_eq!(
        index.get_dependencies(&a, &alpine("2")),
        Dependencies::Unavailable(String::new())
    );
    assert_eq!(
        index.get_dependencies(&AlpinePackage::Base("zzz".to_string()), &alpine("1")),
        Dependencies::Unavailable(String::new())
    );
    let root = AlpinePackage::Root(vec![(AlpinePackage::Base("a".to_string()), Range::full())]);
    assert_eq!(index.list_versions(&root), vec![alpine("")]);
    match index.get_dependencies(&root, &alpine("")) {
        Dependencies::Available(deps) => assert_eq!(deps.len(), 1),
        Dependencies::Unavailable(_) => panic!("a root has its children"),
    }
}

#[test]
fn alpine_package_names() {
    assert_eq!(
        AlpinePackage::from_str("openssh-server"),
        Ok(AlpinePackage::Base("openssh-server".to_string()))
    );
    assert_eq!(
        AlpinePackage::from_str("a/b"),
        Err("a/b is not a valid package name".to_string())
    );
    assert_eq!(AlpinePackage::Base("x".to_string()).to_string(), "x");
    assert_eq!(AlpinePackage::Root(vec![]).to_string(), "Root");
}
