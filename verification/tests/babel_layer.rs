use babel_solver::alpine::deps::AlpinePackage;
use babel_solver::alpine::index::{AlpineIndex, Dependency, HashedRange};
use babel_solver::alpine::version::AlpineVersion;
use babel_solver::babel::deps::{contains_os_condition, BabelPackage, PlatformPackage};
use babel_solver::babel::index::BabelIndex;
use babel_solver::babel::version::{BabelVersion, BabelVersionSet};
use babel_solver::cargo::index::CargoIndex;
use babel_solver::cargo::names::new_bucket;
use babel_solver::cargo::version::CargoVersion;
use babel_solver::constraints::Dependencies;
use babel_solver::debian::deps::DebianPackage;
use babel_solver::debian::index::DebianIndex;
use babel_solver::debian::version::DebianVersion;
use babel_solver::error::InternalError;
use babel_solver::opam::context::Context;
use babel_solver::opam::deps::OpamPackage;
use babel_solver::opam::index::{Binary, OpamIndex, PackageFormula, VersionFormula};
use babel_solver::opam::parse::RelOp;
use babel_solver::opam::version::OpamVersion;
use babel_solver::platform::PlatformVersion;
use babel_solver::range::Range;
use babel_solver::text::Sign;

fn opam(s: &str) -> BabelVersion {
    BabelVersion::Opam(OpamVersion(s.to_string()))
}

fn debian(s: &str) -> BabelVersion {
    BabelVersion::Debian(DebianVersion(s.to_string()))
}

fn alpine(s: &str) -> BabelVersion {
    BabelVersion::Alpine(AlpineVersion(s.to_string()))
}

fn cargo(s: &str) -> BabelVersion {
    BabelVersion::Cargo(CargoVersion::parse(s).unwrap())
}

fn platform(s: &str) -> BabelVersion {
    BabelVersion::Platform(s.to_string())
}

fn samples() -> Vec<BabelVersion> {
    vec![
        opam("1.0"),
        opam("2.0"),
        debian("1.0"),
        debian("1:0.1"),
        alpine("1.0"),
        alpine("1.0_rc1"),
        cargo("1.0.0"),
        cargo("2.0.0"),
        platform("debian"),
        platform("alpine"),
        BabelVersion::Singular,
    ]
}

fn members(s: &BabelVersionSet) -> Vec<bool> {
    samples().iter().map(|v| s.contains(v)).collect()
}

fn sets() -> Vec<BabelVersionSet> {
    let mut all = vec![BabelVersionSet::empty(), BabelVersionSet::full(), BabelVersionSet::Singular];
    for v in samples() {
        all.push(BabelVersionSet::singleton(v.clone()));
        all.push(BabelVersionSet::singleton(v).complement());
    }
    all.push(BabelVersionSet::Opam(Range::higher_than(OpamVersion("1.5".to_string()))));
    all.push(BabelVersionSet::Debian(Range::empty()));
    all.push(BabelVersionSet::Alpine(Range::full()));
    all
}

#[test]
fn sets_hold_versions_of_their_ecosystem() {
    assert!(members(&BabelVersionSet::empty()).iter().all(|m| !m));
    assert!(members(&BabelVersionSet::full()).iter().all(|m| *m));
    for (i, v) in samples().iter().enumerate() {
        let one = BabelVersionSet::singleton(v.clone());
        // The singleton holds its version and no other of the samples.
        for (j, m) in members(&one).iter().enumerate() {
            assert_eq!(*m, i == j, "{:?} in the singleton of {:?}", samples()[j], v);
        }
    }
    assert_eq!(
        BabelVersionSet::singleton(platform("debian")),
        BabelVersionSet::Platform(Range::singleton(PlatformVersion("debian".to_string())))
    );
    assert_eq!(BabelVersionSet::singleton(BabelVersion::Singular), BabelVersionSet::Singular);
}

#[test]
fn sets_of_different_ecosystems_have_nothing_in_common() {
    let o = BabelVersionSet::singleton(opam("1.0"));
    let d = BabelVersionSet::singleton(debian("1.0"));
    assert_eq!(o.intersection(&d), BabelVersionSet::Empty);
    assert!(o.is_disjoint(&d));
    assert!(!o.same_ecosystem(&d));
    assert!(o.same_ecosystem(&BabelVersionSet::full()));
    assert!(o.same_ecosystem(&o.complement()));
    assert_eq!(o.intersection(&BabelVersionSet::full()), o);
    assert_eq!(BabelVersionSet::full().intersection(&d), d);
    assert_eq!(o.intersection(&BabelVersionSet::empty()), BabelVersionSet::Empty);
}

#[test]
fn empty_and_full_absorb() {
    let o = BabelVersionSet::singleton(opam("1.0"));
    assert_eq!(o.union(&BabelVersionSet::full()), BabelVersionSet::Full);
    assert_eq!(BabelVersionSet::full().union(&o), BabelVersionSet::Full);
    assert_eq!(o.union(&BabelVersionSet::empty()), o);
    assert_eq!(BabelVersionSet::empty().union(&o), o);
    assert_eq!(BabelVersionSet::empty().union(&BabelVersionSet::full()), BabelVersionSet::Full);
    assert_eq!(BabelVersionSet::empty().complement(), BabelVersionSet::Full);
    assert_eq!(BabelVersionSet::full().complement(), BabelVersionSet::Empty);
    assert_eq!(BabelVersionSet::Singular.complement(), BabelVersionSet::Empty);
}

#[test]
fn set_algebra_on_samples() {
    let all = sets();
    let vs = samples();
    for a in all.iter() {
        let ma = members(a);
        assert_eq!(members(&a.intersection(a)), ma);
        assert!(members(&a.intersection(&a.complement())).iter().all(|m| !m));
        assert!(a.is_disjoint(&a.complement()));
        assert!(a.subset_of(a));
        assert!(a.same(&a.duplicate()));
        assert!(a.written_same(&a.duplicate()));
        // Sets stay written in order, and a set and its intersection with
        // itself count as equal.
        assert!(a.is_valid());
        assert!(a.complement().is_valid());
        assert!(a.intersection(a).same(a));
        assert!(a.intersection(a).written_same(a));
        // Within the ecosystem of the set, the set and its complement hold
        // every version.
        let whole = a.union(&a.complement());
        let complement = a.complement();
        for (k, v) in vs.iter().enumerate() {
            let inside = match (a, v) {
                (BabelVersionSet::Empty, _) | (BabelVersionSet::Full, _) => true,
                (BabelVersionSet::Opam(_), BabelVersion::Opam(_)) => true,
                (BabelVersionSet::Debian(_), BabelVersion::Debian(_)) => true,
                (BabelVersionSet::Alpine(_), BabelVersion::Alpine(_)) => true,
                (BabelVersionSet::Cargo(_), BabelVersion::Cargo(_)) => true,
                (BabelVersionSet::Platform(_), BabelVersion::Platform(_)) => true,
                (BabelVersionSet::Singular, BabelVersion::Singular) => true,
                _ => false,
            };
            if inside {
                assert!(whole.contains(v));
                assert_eq!(complement.contains(v), !ma[k]);
            } else {
                assert!(!ma[k]);
            }
        }
        for b in all.iter() {
            let mb = members(b);
            let both: Vec<bool> = ma.iter().zip(mb.iter()).map(|(x, y)| *x && *y).collect();
            assert_eq!(members(&a.intersection(b)), both);
            if a.same_ecosystem(b) {
                let either: Vec<bool> =
                    ma.iter().zip(mb.iter()).map(|(x, y)| *x || *y).collect();
                assert_eq!(members(&a.union(b)), either);
            }
            for c in all.iter() {
                if b.same_ecosystem(c) {
                    let left = a.intersection(b).union(&a.intersection(c));
                    let right = a.intersection(&b.union(c));
                    assert_eq!(members(&left), members(&right));
                }
            }
        }
    }
}

#[test]
fn sets_count_as_equal() {
    let full_opam = BabelVersionSet::Opam(Range::full());
    let empty_opam = BabelVersionSet::Opam(Range::empty());
    assert!(BabelVersionSet::full().same(&full_opam));
    assert!(full_opam.same(&BabelVersionSet::full()));
    assert!(BabelVersionSet::empty().same(&empty_opam));
    assert!(!BabelVersionSet::empty().same(&full_opam));
    assert!(!BabelVersionSet::empty().same(&BabelVersionSet::full()));
    assert!(!full_opam.same(&BabelVersionSet::Debian(Range::full())));
    assert!(!full_opam.written_same(&BabelVersionSet::full()));
    assert!(full_opam.is_full() && !full_opam.is_empty());
    assert!(empty_opam.is_empty() && !empty_opam.is_full());
    assert!(BabelVersionSet::singleton(opam("1")).subset_of(&full_opam));
    assert!(!full_opam.subset_of(&BabelVersionSet::singleton(opam("1"))));
}

#[test]
fn versions_and_sets_are_written() {
    assert_eq!(opam("3.17.2").to_string(), "3.17.2");
    assert_eq!(cargo("1.0.219").to_string(), "1.0.219");
    assert_eq!(platform("debian").to_string(), "debian");
    assert_eq!(BabelVersion::Singular.to_string(), "");
    assert_eq!(BabelVersionSet::empty().to_string(), "Empty");
    assert_eq!(BabelVersionSet::full().to_string(), "Full");
    assert_eq!(BabelVersionSet::Singular.to_string(), "Singular");
    assert_eq!(BabelVersionSet::singleton(debian("1:7.9p1")).to_string(), "1:7.9p1");
    assert_eq!(
        BabelVersionSet::singleton(opam("2")).complement().to_string(),
        "<2 | >2"
    );
    for v in samples() {
        assert_eq!(v.clone(), v);
        assert!(v.same(&v.clone()));
        assert_eq!(v.compare(&v), Sign::Equal);
    }
    assert_eq!(opam("1.0").compare(&opam("2.0")), Sign::Less);
    assert_eq!(opam("9").compare(&debian("1")), Sign::Less);
    assert_eq!(BabelVersion::Singular.compare(&platform("x")), Sign::Less);
    assert_eq!(cargo("1.0.0").compare(&alpine("9")), Sign::Greater);
}

fn var(s: &str) -> VersionFormula {
    VersionFormula::Variable(s.to_string())
}

fn lit(s: &str) -> VersionFormula {
    VersionFormula::Lit(OpamVersion(s.to_string()))
}

fn cmp(relop: RelOp, l: VersionFormula, r: VersionFormula) -> VersionFormula {
    VersionFormula::Comparator { relop, binary: Binary { lhs: Box::new(l), rhs: Box::new(r) } }
}

fn and(l: VersionFormula, r: VersionFormula) -> VersionFormula {
    VersionFormula::And(Binary { lhs: Box::new(l), rhs: Box::new(r) })
}

fn or(l: VersionFormula, r: VersionFormula) -> VersionFormula {
    VersionFormula::Or(Binary { lhs: Box::new(l), rhs: Box::new(r) })
}

#[test]
fn os_conditions_are_found() {
    let family = cmp(RelOp::Eq, var("os-family"), lit("debian"));
    let distribution = cmp(RelOp::Eq, lit("alpine"), var("os-distribution"));
    assert!(contains_os_condition(&family, "debian"));
    assert!(!contains_os_condition(&family, "alpine"));
    assert!(contains_os_condition(&distribution, "alpine"));
    assert!(contains_os_condition(&and(var("x"), family.clone()), "debian"));
    assert!(contains_os_condition(&or(distribution.clone(), family.clone()), "debian"));
    assert!(contains_os_condition(&or(distribution.clone(), family.clone()), "alpine"));
    assert!(!contains_os_condition(&cmp(RelOp::Neq, var("os-family"), lit("debian")), "debian"));
    assert!(!contains_os_condition(&cmp(RelOp::Eq, var("os"), lit("debian")), "debian"));
    assert!(!contains_os_condition(&var("os-family"), "debian"));
    assert!(!contains_os_condition(&cmp(RelOp::Eq, var("os-family"), var("debian")), "debian"));
}

fn index() -> BabelIndex<'static> {
    let mut opam_index = OpamIndex::new();
    let depext = PackageFormula::Depext {
        names: vec!["libgmp-dev".to_string()],
        formula: cmp(RelOp::Eq, var("os-family"), lit("debian")),
    };
    opam_index.add_formulas("conf-gmp", OpamVersion("4".to_string()), vec![depext]);
    opam_index.add_formulas("conf-gmp", OpamVersion("3".to_string()), vec![]);
    let mut debian_index = DebianIndex::new();
    debian_index.add_deps("libgmp-dev", DebianVersion("2:6.1.2".to_string()), vec![]);
    let mut alpine_index = AlpineIndex::new();
    alpine_index.add_deps(
        "gmp-dev",
        AlpineVersion("6.3.0-r1".to_string()),
        vec![Dependency {
            name: "so:libgmp.so.10".to_string(),
            range: HashedRange(Range::full()),
        }],
    );
    let mut cargo_index = CargoIndex::new();
    let serde = new_bucket("serde".to_string(), CargoVersion::parse("1.0.219").unwrap().compatibility(), false);
    cargo_index.add_version(serde, CargoVersion::parse("1.0.219").unwrap(), vec![]);
    BabelIndex::new(opam_index, debian_index, alpine_index, cargo_index)
}

fn conf_gmp() -> BabelPackage<'static> {
    BabelPackage::Opam(OpamPackage::Base("conf-gmp".to_string()))
}

fn depext(formula: VersionFormula) -> BabelPackage<'static> {
    BabelPackage::Opam(OpamPackage::Depext { names: vec!["libgmp-dev".to_string(), "m4".to_string()], formula })
}

#[test]
fn unified_index_lists_versions() {
    let index = index();
    let ctx = Context::new();
    assert_eq!(index.list_versions(&ctx, &BabelPackage::Root(vec![])), vec![BabelVersion::Singular]);
    assert_eq!(
        index.list_versions(&ctx, &BabelPackage::Platform(PlatformPackage::OS)),
        vec![platform("debian"), platform("alpine")]
    );
    assert_eq!(
        index.list_versions(&ctx, &depext(var("x"))),
        vec![opam("alpine"), opam("debian")]
    );
    assert_eq!(index.list_versions(&ctx, &conf_gmp()), vec![opam("4"), opam("3")]);
    assert_eq!(
        index.list_versions(&ctx, &BabelPackage::Debian(DebianPackage::Base("libgmp-dev".to_string()))),
        vec![debian("2:6.1.2")]
    );
    assert_eq!(
        index.list_versions(&ctx, &BabelPackage::Alpine(AlpinePackage::Base("gmp-dev".to_string()))),
        vec![alpine("6.3.0-r1")]
    );
    let serde = new_bucket("serde".to_string(), CargoVersion::parse("1.0.0").unwrap().compatibility(), false);
    assert_eq!(index.list_versions(&ctx, &BabelPackage::Cargo(serde)), vec![cargo("1.0.219")]);
    assert_eq!(
        index.list_versions(&ctx, &BabelPackage::Opam(OpamPackage::Var("with-test".to_string()))),
        vec![opam("true"), opam("false")]
    );
}

#[test]
fn unified_index_chooses_the_first_version_in_the_set() {
    let index = index();
    let ctx = Context::new();
    assert_eq!(index.choose_version(&ctx, &conf_gmp(), &BabelVersionSet::full()), Some(opam("4")));
    assert_eq!(
        index.choose_version(&ctx, &conf_gmp(), &BabelVersionSet::singleton(opam("3"))),
        Some(opam("3"))
    );
    assert_eq!(
        index.choose_version(&ctx, &conf_gmp(), &BabelVersionSet::singleton(opam("5"))),
        None
    );
    assert_eq!(index.choose_version(&ctx, &conf_gmp(), &BabelVersionSet::empty()), None);
    // A set of another ecosystem holds no version of the package.
    assert_eq!(
        index.choose_version(&ctx, &conf_gmp(), &BabelVersionSet::singleton(debian("4"))),
        None
    );
    let os = BabelPackage::Platform(PlatformPackage::OS);
    assert_eq!(index.choose_version(&ctx, &os, &BabelVersionSet::full()), Some(platform("debian")));
    assert_eq!(
        index.choose_version(&ctx, &os, &BabelVersionSet::singleton(platform("alpine"))),
        Some(platform("alpine"))
    );
    assert_eq!(
        index.choose_version(&ctx, &os, &BabelVersionSet::singleton(platform("windows"))),
        None
    );
    let root = BabelPackage::Root(vec![]);
    assert_eq!(
        index.choose_version(&ctx, &root, &BabelVersionSet::Singular),
        Some(BabelVersion::Singular)
    );
    assert_eq!(index.choose_version(&ctx, &root, &BabelVersionSet::empty()), None);
    assert_eq!(index.prioritize(&root, &BabelVersionSet::full()), 1);
}

fn pinned(name: &str, value: &str) -> (BabelPackage<'static>, BabelVersionSet) {
    (
        BabelPackage::Opam(OpamPackage::Var(name.to_string())),
        BabelVersionSet::singleton(opam(value)),
    )
}

#[test]
fn platform_pins_the_variables() {
    let index = index();
    let mut ctx = Context::new();
    let os = BabelPackage::Platform(PlatformPackage::OS);
    assert_eq!(
        index.get_dependencies(&mut ctx, &os, &platform("debian")),
        Ok(Dependencies::Available(vec![
            pinned("os-distribution", "debian"),
            pinned("os-family", "debian"),
            pinned("os", "linux"),
        ]))
    );
    assert_eq!(
        index.get_dependencies(&mut ctx, &os, &platform("alpine")),
        Ok(Dependencies::Available(vec![
            pinned("os-distribution", "alpine"),
            pinned("os-family", "alpine"),
            pinned("os", "linux"),
        ]))
    );
    assert_eq!(
        index.get_dependencies(&mut ctx, &os, &platform("windows")),
        Err(InternalError::UnknownPlatform)
    );
    assert_eq!(
        index.get_dependencies(&mut ctx, &os, &opam("debian")),
        Err(InternalError::ForeignVersion)
    );
    assert_eq!(ctx, Context::new());
}

#[test]
fn external_dependencies_follow_the_system() {
    let index = index();
    let mut ctx = Context::new();
    let for_debian = depext(cmp(RelOp::Eq, var("os-family"), lit("debian")));
    assert_eq!(
        index.get_dependencies(&mut ctx, &for_debian, &opam("debian")),
        Ok(Dependencies::Available(vec![
            (
                BabelPackage::Debian(DebianPackage::Base("libgmp-dev".to_string())),
                BabelVersionSet::Debian(Range::full())
            ),
            (
                BabelPackage::Debian(DebianPackage::Base("m4".to_string())),
                BabelVersionSet::Debian(Range::full())
            ),
        ]))
    );
    assert_eq!(
        index.get_dependencies(&mut ctx, &for_debian, &opam("alpine")),
        Ok(Dependencies::Available(vec![]))
    );
    let for_alpine = depext(cmp(RelOp::Eq, var("os-distribution"), lit("alpine")));
    assert_eq!(
        index.get_dependencies(&mut ctx, &for_alpine, &opam("alpine")),
        Ok(Dependencies::Available(vec![
            (
                BabelPackage::Alpine(AlpinePackage::Base("libgmp-dev".to_string())),
                BabelVersionSet::Alpine(Range::full())
            ),
            (
                BabelPackage::Alpine(AlpinePackage::Base("m4".to_string())),
                BabelVersionSet::Alpine(Range::full())
            ),
        ]))
    );
    // A system that is neither of the two has no packages here.
    let for_other = depext(cmp(RelOp::Eq, var("os-family"), lit("bsd")));
    assert_eq!(
        index.get_dependencies(&mut ctx, &for_other, &opam("bsd")),
        Ok(Dependencies::Available(vec![]))
    );
    assert_eq!(
        index.get_dependencies(&mut ctx, &for_debian, &debian("1")),
        Err(InternalError::ForeignVersion)
    );
}

#[test]
fn unified_index_lifts_the_answers_of_the_ecosystems() {
    let index = index();
    let mut ctx = Context::new();
    let filter = cmp(RelOp::Eq, var("os-family"), lit("debian"));
    let inner = OpamPackage::Depext { names: vec!["libgmp-dev".to_string()], formula: filter.clone() };
    assert_eq!(
        index.get_dependencies(&mut ctx, &conf_gmp(), &opam("4")),
        Ok(Dependencies::Available(vec![(
            BabelPackage::Opam(OpamPackage::Formula {
                base: Box::new(inner),
                formula: Box::new(filter)
            }),
            BabelVersionSet::Opam(Range::full())
        )]))
    );
    assert_eq!(
        index.get_dependencies(&mut ctx, &conf_gmp(), &opam("5")),
        Ok(Dependencies::Unavailable(String::new()))
    );
    assert_eq!(
        index.get_dependencies(
            &mut ctx,
            &BabelPackage::Alpine(AlpinePackage::Base("gmp-dev".to_string())),
            &alpine("6.3.0-r1")
        ),
        Ok(Dependencies::Available(vec![(
            BabelPackage::Alpine(AlpinePackage::Base("so:libgmp.so.10".to_string())),
            BabelVersionSet::Alpine(Range::full())
        )]))
    );
    assert_eq!(
        index.get_dependencies(
            &mut ctx,
            &BabelPackage::Debian(DebianPackage::Base("libgmp-dev".to_string())),
            &debian("2:6.1.2")
        ),
        Ok(Dependencies::Available(vec![]))
    );
    assert_eq!(
        index.get_dependencies(&mut ctx, &conf_gmp(), &debian("4")),
        Err(InternalError::ForeignVersion)
    );
}

#[test]
fn unified_root_depends_on_its_children_and_pins_variables() {
    let index = index();
    let mut ctx = Context::new();
    let children = vec![
        (conf_gmp(), BabelVersionSet::singleton(opam("4"))),
        pinned("os-family", "debian"),
        (
            BabelPackage::Opam(OpamPackage::Var("os".to_string())),
            BabelVersionSet::full(),
        ),
    ];
    let root = BabelPackage::Root(children.clone());
    assert_eq!(
        index.get_dependencies(&mut ctx, &root, &BabelVersion::Singular),
        Ok(Dependencies::Available(children))
    );
    assert_eq!(
        ctx.variable_values(&"os-family".to_string()),
        Some(vec![OpamVersion("debian".to_string())])
    );
    assert_eq!(ctx.variable_values(&"os".to_string()), None);
    assert_eq!(
        index.list_versions(&ctx, &BabelPackage::Opam(OpamPackage::Var("os-family".to_string()))),
        vec![opam("debian")]
    );
}

#[test]
fn packages_are_written_with_their_ecosystem() {
    assert_eq!(BabelPackage::Root(vec![]).to_string(), "Root");
    assert_eq!(BabelPackage::Platform(PlatformPackage::OS).to_string(), "Platform OS");
    assert_eq!(conf_gmp().to_string(), "Opam conf-gmp");
    assert_eq!(
        BabelPackage::Opam(OpamPackage::Var("os".to_string())).to_string(),
        "Opam `os`"
    );
    assert_eq!(
        BabelPackage::Debian(DebianPackage::Base("libc6".to_string())).to_string(),
        "Debian libc6"
    );
    assert_eq!(
        BabelPackage::Alpine(AlpinePackage::Base("musl".to_string())).to_string(),
        "Alpine musl"
    );
    let serde = new_bucket("serde".to_string(), CargoVersion::parse("1.0.0").unwrap().compatibility(), false);
    assert_eq!(BabelPackage::Cargo(serde).to_string(), "Cargo Bucket:serde@1.x.y");
    let p = BabelPackage::Root(vec![(conf_gmp(), BabelVersionSet::full())]);
    assert!(p.same(&p.clone()));
    assert!(!p.same(&BabelPackage::Root(vec![])));
    assert!(!conf_gmp().same(&BabelPackage::Debian(DebianPackage::Base("conf-gmp".to_string()))));
}
