use babel_solver::alpine::index::{AlpineIndex, Dependency, HashedRange};
use babel_solver::alpine::version::AlpineVersion;
use babel_solver::debian::deps::DebianPackage;
use babel_solver::debian::index::{DebianIndex, Dependency as DebianDependency, HashedRange as DebianRange};
use babel_solver::debian::version::DebianVersion;
use babel_solver::constraints::Dependencies;
use babel_solver::index::Index;
use babel_solver::range::Range;

fn a(s: &str) -> AlpineVersion {
    AlpineVersion(s.to_string())
}

fn d(s: &str) -> DebianVersion {
    DebianVersion(s.to_string())
}

#[test]
fn index_keeps_versions_newest_first() {
    let mut index: Index<AlpineVersion, Vec<u8>> = Index::new();
    assert_eq!(index.package_count(), 0);
    for version in ["1.0", "1.2", "1.1_rc1", "0.9", "1.1", "1.0_p1"].iter() {
        index.add_deps("p", a(version), vec![]);
    }
    index.add_deps("q", a("3"), vec![1]);
    assert_eq!(index.package_count(), 2);
    assert_eq!(
        index.available_versions(&"p".to_string()),
        vec![a("1.2"), a("1.1"), a("1.1_rc1"), a("1.0_p1"), a("1.0"), a("0.9")]
    );
    assert_eq!(index.available_versions(&"q".to_string()), vec![a("3")]);
    assert!(index.available_versions(&"r".to_string()).is_empty());
    assert_eq!(index.find_package("q"), Some(1));
    assert_eq!(index.find_package("r"), None);
}

#[test]
fn index_replaces_what_is_recorded_for_a_version() {
    let mut index: Index<AlpineVersion, Vec<u8>> = Index::new();
    index.add_deps("p", a("1.0"), vec![1]);
    index.add_deps("p", a("2.0"), vec![2]);
    index.add_deps("p", a("1.0"), vec![3]);
    assert_eq!(index.available_versions(&"p".to_string()), vec![a("2.0"), a("1.0")]);
    assert_eq!(index.get("p", &a("1.0")), Some(&vec![3]));
    assert_eq!(index.get("p", &a("2.0")), Some(&vec![2]));
    assert_eq!(index.get("p", &a("1.5")), None);
    assert_eq!(index.get("q", &a("1.0")), None);
    // A version that compares equal is found under its other spelling.
    assert_eq!(index.get("p", &a("01.0")), Some(&vec![3]));
}

#[test]
fn alpine_index_flags() {
    let mut index = AlpineIndex::new();
    assert!(!index.debug && !index.version_debug);
    index.set_debug(true);
    assert!(index.debug && !index.version_debug);
    index.set_version_debug(true);
    index.set_debug(false);
    assert!(!index.debug && index.version_debug);
    assert_eq!(index.package_count(), 0);
}

#[test]
fn dependencies_are_written() {
    let dep = Dependency { name: "libc".to_string(), range: HashedRange(Range::higher_than(a("1.2.3"))) };
    assert_eq!(dep.to_string(), "libc: >=1.2.3");
    assert_eq!(dep.range.to_string(), ">=1.2.3");
    assert!(dep.same(&dep.clone()));
    let other = Dependency { name: "libc".to_string(), range: HashedRange(Range::full()) };
    assert!(!dep.same(&other));
}

#[test]
fn debian_index_answers() {
    let mut index = DebianIndex::new();
    index.add_deps(
        "openssh-server",
        d("1:7.9p1-10+deb10u2"),
        vec![
            DebianDependency {
                name: "libc6".to_string(),
                range: DebianRange(Range::higher_than(d("2.26"))),
            },
            DebianDependency { name: "adduser".to_string(), range: DebianRange(Range::full()) },
        ],
    );
    index.add_deps("openssh-server", d("1:7.4p1-10"), vec![]);
    index.add_deps("openssh-server", d("8.0"), vec![]);
    let pkg = DebianPackage::from_str("openssh-server").unwrap();
    // The epoch decides before the rest of the version.
    assert_eq!(
        index.list_versions(&pkg),
        vec![d("1:7.9p1-10+deb10u2"), d("1:7.4p1-10"), d("8.0")]
    );
    assert_eq!(
        index.choose_version(&pkg, &Range::strictly_lower_than(d("1:7.9"))),
        Some(d("1:7.4p1-10"))
    );
    assert_eq!(
        index.get_dependencies(&pkg, &d("1:7.9p1-10+deb10u2")),
        Dependencies::Available(vec![
            (DebianPackage::Base("libc6".to_string()), Range::higher_than(d("2.26"))),
            (DebianPackage::Base("adduser".to_string()), Range::full()),
        ])
    );
    assert_eq!(
        index.get_dependencies(&pkg, &d("9")),
        Dependencies::Unavailable(String::new())
    );
    let root = DebianPackage::Root(vec![(DebianPackage::Base("ssh-server".to_string()), Range::full())]);
    assert_eq!(index.list_versions(&root), vec![d("")]);
    assert_eq!(root.to_string(), "Root");
    assert!(DebianPackage::from_str("a/b").is_err());
}
