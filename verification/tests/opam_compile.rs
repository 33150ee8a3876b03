use babel_solver::constraints::Dependencies;
use babel_solver::error::InternalError;
use babel_solver::opam::context::Context;
use babel_solver::opam::deps::{
    false_version, from_formula, from_formulas, from_proxy_formula, from_version_formula,
    lhs_version, merge_constraints, negate_formula, rhs_version, true_version, OpamPackage,
};
use babel_solver::opam::index::{
    Binary, HashedRange, OpamIndex, PackageFormula, VersionFormula,
};
use babel_solver::opam::parse::RelOp;
use babel_solver::opam::version::OpamVersion;
use babel_solver::range::Range;

fn v(s: &str) -> OpamVersion {
    OpamVersion(s.to_string())
}

fn var(s: &str) -> VersionFormula {
    VersionFormula::Variable(s.to_string())
}

fn not(s: &str) -> VersionFormula {
    VersionFormula::Not(s.to_string())
}

fn lit(s: &str) -> VersionFormula {
    VersionFormula::Lit(v(s))
}

fn version(r: Range<OpamVersion>) -> VersionFormula {
    VersionFormula::Version(HashedRange(r))
}

fn and(l: VersionFormula, r: VersionFormula) -> VersionFormula {
    VersionFormula::And(Binary { lhs: Box::new(l), rhs: Box::new(r) })
}

fn or(l: VersionFormula, r: VersionFormula) -> VersionFormula {
    VersionFormula::Or(Binary { lhs: Box::new(l), rhs: Box::new(r) })
}

fn cmp(relop: RelOp, l: VersionFormula, r: VersionFormula) -> VersionFormula {
    VersionFormula::Comparator { relop, binary: Binary { lhs: Box::new(l), rhs: Box::new(r) } }
}

fn base(name: &str) -> OpamPackage {
    OpamPackage::Base(name.to_string())
}

fn pvar(name: &str) -> OpamPackage {
    OpamPackage::Var(name.to_string())
}

fn range_1_2() -> Range<OpamVersion> {
    Range::higher_than(v("1.0")).intersection(&Range::strictly_lower_than(v("2.0")))
}

#[test]
fn negation_follows_de_morgan() {
    assert_eq!(negate_formula(var("x")), Ok(not("x")));
    assert_eq!(negate_formula(not("x")), Ok(var("x")));
    assert_eq!(negate_formula(lit("linux")), Ok(lit("linux")));
    assert_eq!(
        negate_formula(and(var("a"), not("b"))),
        Ok(or(not("a"), var("b")))
    );
    assert_eq!(
        negate_formula(or(var("a"), var("b"))),
        Ok(and(not("a"), not("b")))
    );
    for (op, negated) in [
        (RelOp::Eq, RelOp::Neq),
        (RelOp::Neq, RelOp::Eq),
        (RelOp::Lt, RelOp::Geq),
        (RelOp::Geq, RelOp::Lt),
        (RelOp::Leq, RelOp::Gt),
        (RelOp::Gt, RelOp::Leq),
    ]
    .iter()
    {
        assert_eq!(
            negate_formula(cmp(*op, var("os"), lit("linux"))),
            Ok(cmp(*negated, var("os"), lit("linux")))
        );
    }
}

#[test]
fn negation_drops_version_constraints() {
    let range = version(range_1_2());
    assert_eq!(negate_formula(and(range.clone(), var("x"))), Ok(not("x")));
    assert_eq!(negate_formula(and(var("x"), range.clone())), Ok(not("x")));
    assert_eq!(negate_formula(or(range.clone(), var("x"))), Ok(not("x")));
    assert_eq!(
        negate_formula(and(and(range.clone(), var("a")), var("b"))),
        Ok(or(not("a"), not("b")))
    );
    // A formula that holds nothing but version constraints has no negation.
    assert_eq!(negate_formula(range.clone()), Err(InternalError::NegatedVersion));
    assert_eq!(
        negate_formula(and(range.clone(), range.clone())),
        Err(InternalError::NegatedVersion)
    );
    // An operand made of version constraints alone is dropped as a whole.
    assert_eq!(
        negate_formula(or(var("x"), and(range.clone(), range.clone()))),
        Ok(not("x"))
    );
    assert_eq!(
        negate_formula(and(and(range.clone(), or(range.clone(), range.clone())), var("x"))),
        Ok(not("x"))
    );
    assert_eq!(
        negate_formula(or(range.clone(), and(range.clone(), range.clone()))),
        Err(InternalError::NegatedVersion)
    );
}

#[test]
fn negation_twice_gives_the_formula_without_versions() {
    let range = version(range_1_2());
    let cases = vec![
        (var("x"), var("x")),
        (not("x"), not("x")),
        (and(var("a"), or(not("b"), var("c"))), and(var("a"), or(not("b"), var("c")))),
        (and(range.clone(), var("x")), var("x")),
        (or(and(var("a"), range.clone()), var("b")), or(var("a"), var("b"))),
        (and(and(range.clone(), range.clone()), var("x")), var("x")),
        (
            or(and(var("a"), or(range.clone(), range.clone())), not("b")),
            or(var("a"), not("b")),
        ),
        (
            cmp(RelOp::Lt, var("os-version"), lit("11")),
            cmp(RelOp::Lt, var("os-version"), lit("11")),
        ),
    ];
    for (formula, stripped) in cases {
        let once = negate_formula(formula).unwrap();
        assert_eq!(negate_formula(once), Ok(stripped));
    }
}

#[test]
fn filter_version_range_only() {
    let mut ctx = Context::new();
    let b = base("dune");
    let c = from_version_formula(Some(&b), &version(range_1_2()), &mut ctx).unwrap();
    assert_eq!(c, vec![(base("dune"), range_1_2())]);
    let c = from_version_formula(None, &version(range_1_2()), &mut ctx).unwrap();
    assert_eq!(c, vec![]);
    assert_eq!(ctx, Context::new());
}

#[test]
fn filter_variables() {
    let mut ctx = Context::new();
    let b = base("odoc");
    let c = from_version_formula(Some(&b), &var("with-doc"), &mut ctx).unwrap();
    assert_eq!(
        c,
        vec![
            (base("odoc"), Range::full()),
            (pvar("with-doc"), Range::singleton(true_version())),
        ]
    );
    let c = from_version_formula(Some(&b), &not("with-test"), &mut ctx).unwrap();
    assert_eq!(
        c,
        vec![
            (base("odoc"), Range::full()),
            (pvar("with-test"), Range::singleton(false_version())),
        ]
    );
    let c = from_version_formula(None, &var("build"), &mut ctx).unwrap();
    assert_eq!(c, vec![(pvar("build"), Range::singleton(v("true")))]);
    // Plain variables teach the context nothing.
    assert_eq!(ctx, Context::new());
}

#[test]
fn filter_conjunction_merges() {
    let mut ctx = Context::new();
    let b = base("p");
    let low = version(Range::higher_than(v("1.0")));
    let high = version(Range::strictly_lower_than(v("2.0")));
    let c =
        from_version_formula(Some(&b), &and(and(low, var("build")), high), &mut ctx).unwrap();
    assert_eq!(
        c,
        vec![
            (base("p"), range_1_2()),
            (pvar("build"), Range::singleton(v("true"))),
        ]
    );
    // A variable that has to be true and false is allowed nothing.
    let c = from_version_formula(None, &and(var("x"), not("x")), &mut ctx).unwrap();
    assert_eq!(c, vec![(pvar("x"), Range::empty())]);
}

#[test]
fn filter_comparison_with_literal_teaches_the_value() {
    let mut ctx = Context::new();
    let b = base("conf-gmp");
    let f = cmp(RelOp::Eq, var("os-family"), lit("debian"));
    let c = from_version_formula(Some(&b), &f, &mut ctx).unwrap();
    assert_eq!(
        c,
        vec![
            (base("conf-gmp"), Range::full()),
            (pvar("os-family"), Range::singleton(v("debian"))),
        ]
    );
    assert_eq!(ctx.variable_values(&"os-family".to_string()), Some(vec![v("debian")]));

    // The literal may stand on either side; a value is learnt once.
    let f = cmp(RelOp::Neq, lit("alpine"), var("os-family"));
    let c = from_version_formula(None, &f, &mut ctx).unwrap();
    assert_eq!(
        c,
        vec![(pvar("os-family"), Range::singleton(v("alpine")).complement())]
    );
    let f = cmp(RelOp::Geq, var("os-family"), lit("debian"));
    let c = from_version_formula(None, &f, &mut ctx).unwrap();
    assert_eq!(c, vec![(pvar("os-family"), Range::higher_than(v("debian")))]);
    assert_eq!(
        ctx.variable_values(&"os-family".to_string()),
        Some(vec![v("debian"), v("alpine")])
    );
    assert_eq!(ctx.variable_values(&"os".to_string()), None);
    assert!(ctx.conflict_members.is_empty());
}

#[test]
fn filter_disjunction_and_symbolic_comparison_go_to_a_proxy() {
    let mut ctx = Context::new();
    let b = base("p");
    let f = or(var("a"), var("b"));
    let c = from_version_formula(Some(&b), &f, &mut ctx).unwrap();
    assert_eq!(
        c,
        vec![(
            OpamPackage::Proxy { base: Box::new(Some(base("p"))), formula: Box::new(f.clone()) },
            Range::full()
        )]
    );
    let g = cmp(RelOp::Eq, var("a"), var("b"));
    let c = from_version_formula(Some(&b), &g, &mut ctx).unwrap();
    assert_eq!(
        c,
        vec![
            (base("p"), Range::full()),
            (
                OpamPackage::Proxy {
                    base: Box::new(Some(base("p"))),
                    formula: Box::new(g.clone())
                },
                Range::full()
            ),
        ]
    );
    let c = from_version_formula(None, &g, &mut ctx).unwrap();
    assert_eq!(
        c,
        vec![(OpamPackage::Proxy { base: Box::new(None), formula: Box::new(g) }, Range::full())]
    );
}

#[test]
fn filter_errors() {
    let mut ctx = Context::new();
    assert_eq!(
        from_version_formula(None, &lit("linux"), &mut ctx),
        Err(InternalError::StrayLiteral)
    );
    assert_eq!(
        from_version_formula(None, &cmp(RelOp::Lt, var("a"), var("b")), &mut ctx),
        Err(InternalError::InvalidOperator)
    );
    assert_eq!(
        from_version_formula(None, &and(var("a"), lit("x")), &mut ctx),
        Err(InternalError::StrayLiteral)
    );
    // What was learnt before the error stays known.
    let f = and(cmp(RelOp::Eq, var("os"), lit("linux")), lit("x"));
    assert_eq!(from_version_formula(None, &f, &mut ctx), Err(InternalError::StrayLiteral));
    assert_eq!(ctx.variable_values(&"os".to_string()), Some(vec![v("linux")]));
}

#[test]
fn proxy_over_disjunction() {
    let mut ctx = Context::new();
    let f = or(var("a"), not("b"));
    let c = from_proxy_formula(None, &lhs_version(), &f, &mut ctx).unwrap();
    assert_eq!(c, vec![(pvar("a"), Range::singleton(v("true")))]);
    let c = from_proxy_formula(None, &rhs_version(), &f, &mut ctx).unwrap();
    assert_eq!(c, vec![(pvar("b"), Range::singleton(v("false")))]);
    assert_eq!(
        from_proxy_formula(None, &v("true"), &f, &mut ctx),
        Err(InternalError::UnknownChoice)
    );
}

#[test]
fn proxy_over_comparison() {
    let mut ctx = Context::new();
    let eq = cmp(RelOp::Eq, var("a"), var("b"));
    let yes = |name: &str| (pvar(name), Range::singleton(v("true")));
    let no = |name: &str| (pvar(name), Range::singleton(v("false")));
    assert_eq!(
        from_proxy_formula(None, &lhs_version(), &eq, &mut ctx),
        Ok(vec![yes("a"), yes("b")])
    );
    assert_eq!(
        from_proxy_formula(None, &rhs_version(), &eq, &mut ctx),
        Ok(vec![no("a"), no("b")])
    );
    let neq = cmp(RelOp::Neq, var("a"), var("b"));
    assert_eq!(
        from_proxy_formula(None, &lhs_version(), &neq, &mut ctx),
        Ok(vec![yes("a"), no("b")])
    );
    assert_eq!(
        from_proxy_formula(None, &rhs_version(), &neq, &mut ctx),
        Ok(vec![no("a"), yes("b")])
    );
    assert_eq!(
        from_proxy_formula(None, &v("other"), &eq, &mut ctx),
        Err(InternalError::UnknownChoice)
    );
    assert_eq!(
        from_proxy_formula(None, &lhs_version(), &cmp(RelOp::Lt, var("a"), var("b")), &mut ctx),
        Err(InternalError::InvalidOperator)
    );
    assert_eq!(
        from_proxy_formula(None, &lhs_version(), &var("a"), &mut ctx),
        Err(InternalError::MisplacedProxy)
    );
    // A side that holds nothing but a version constraint cannot be negated.
    let odd = cmp(RelOp::Eq, version(range_1_2()), var("b"));
    assert_eq!(
        from_proxy_formula(None, &rhs_version(), &odd, &mut ctx),
        Err(InternalError::NegatedVersion)
    );
}

fn pbase(name: &str, formula: VersionFormula) -> PackageFormula {
    PackageFormula::Base { name: name.to_string(), formula }
}

fn pand(l: PackageFormula, r: PackageFormula) -> PackageFormula {
    PackageFormula::And(Binary { lhs: Box::new(l), rhs: Box::new(r) })
}

fn por(l: PackageFormula, r: PackageFormula) -> PackageFormula {
    PackageFormula::Or(Binary { lhs: Box::new(l), rhs: Box::new(r) })
}

#[test]
fn package_formulas() {
    let mut ctx = Context::new();
    let any = || version(Range::full());
    // A version range needs no auxiliary package.
    assert_eq!(
        from_formula(&pbase("dune", version(range_1_2())), &mut ctx),
        vec![(base("dune"), range_1_2())]
    );
    // A filter goes to a Formula package.
    assert_eq!(
        from_formula(&pbase("odoc", var("with-doc")), &mut ctx),
        vec![(
            OpamPackage::Formula {
                base: Box::new(base("odoc")),
                formula: Box::new(var("with-doc"))
            },
            Range::full()
        )]
    );
    // A disjunction goes to a Lor package.
    let l = pbase("a", any());
    let r = pbase("b", any());
    assert_eq!(
        from_formula(&por(l.clone(), r.clone()), &mut ctx),
        vec![(OpamPackage::Lor { lhs: Box::new(l.clone()), rhs: Box::new(r.clone()) }, Range::full())]
    );
    // A conjunction asks for both sides, and narrows what both constrain.
    let f = pand(
        pand(pbase("a", version(Range::higher_than(v("1.0")))), r.clone()),
        pbase("a", version(Range::strictly_lower_than(v("2.0")))),
    );
    assert_eq!(
        from_formula(&f, &mut ctx),
        vec![(base("a"), range_1_2()), (base("b"), Range::full())]
    );
    assert_eq!(ctx, Context::new());
}

#[test]
fn conflict_classes_and_external_dependencies() {
    let mut ctx = Context::new();
    let f = PackageFormula::ConflictClass {
        name: "ocaml-core-compiler".to_string(),
        package: "ocaml-base-compiler".to_string(),
    };
    assert_eq!(
        from_formula(&f, &mut ctx),
        vec![(
            OpamPackage::ConflictClass("ocaml-core-compiler".to_string()),
            Range::singleton(v("ocaml-base-compiler"))
        )]
    );
    let g = PackageFormula::ConflictClass {
        name: "ocaml-core-compiler".to_string(),
        package: "ocaml-variants".to_string(),
    };
    from_formula(&g, &mut ctx);
    from_formula(&f, &mut ctx);
    assert_eq!(
        ctx.conflict_members(&"ocaml-core-compiler".to_string()),
        Some(vec![v("ocaml-base-compiler"), v("ocaml-variants")])
    );
    assert!(ctx.variable_values.is_empty());

    let filter = cmp(RelOp::Eq, var("os-family"), lit("debian"));
    let depext = PackageFormula::Depext {
        names: vec!["libgmp-dev".to_string()],
        formula: filter.clone(),
    };
    let package =
        OpamPackage::Depext { names: vec!["libgmp-dev".to_string()], formula: filter.clone() };
    assert_eq!(
        from_formula(&depext, &mut ctx),
        vec![(
            OpamPackage::Formula { base: Box::new(package), formula: Box::new(filter) },
            Range::full()
        )]
    );
}

#[test]
fn lists_of_formulas_are_merged() {
    let mut ctx = Context::new();
    let formulas = vec![
        pbase("a", version(Range::higher_than(v("1.0")))),
        pbase("b", version(Range::full())),
        pbase("a", version(Range::strictly_lower_than(v("2.0")))),
    ];
    assert_eq!(
        from_formulas(&formulas, &mut ctx),
        vec![(base("a"), range_1_2()), (base("b"), Range::full())]
    );
    assert_eq!(from_formulas(&vec![], &mut ctx), vec![]);
    assert_eq!(
        merge_constraints(
            vec![(base("a"), Range::higher_than(v("1.0")))],
            vec![(base("b"), Range::full()), (base("a"), Range::strictly_lower_than(v("2.0")))]
        ),
        vec![(base("a"), range_1_2()), (base("b"), Range::full())]
    );
}

fn sample_index() -> OpamIndex {
    let mut index = OpamIndex::new();
    index.add_formulas(
        "a",
        v("1.0.0"),
        vec![pbase("b", version(Range::full())), pbase("c", var("with-test"))],
    );
    index.add_formulas("a", v("2.0.0"), vec![]);
    index.add_formulas("a", v("1.5.0"), vec![]);
    index.add_formulas("b", v("1.0.0"), vec![]);
    index
}

#[test]
fn opam_index_lists_versions() {
    let index = sample_index();
    let mut ctx = Context::new();
    assert_eq!(
        index.list_versions(&ctx, &base("a")),
        vec![v("2.0.0"), v("1.5.0"), v("1.0.0")]
    );
    assert_eq!(index.list_versions(&ctx, &base("zzz")), vec![]);
    assert_eq!(index.list_versions(&ctx, &OpamPackage::Root(vec![])), vec![v("")]);
    let f = pbase("a", version(Range::full()));
    let lor = OpamPackage::Lor { lhs: Box::new(f.clone()), rhs: Box::new(f.clone()) };
    assert_eq!(index.list_versions(&ctx, &lor), vec![v("lhs"), v("rhs")]);
    let formula =
        OpamPackage::Formula { base: Box::new(base("a")), formula: Box::new(var("x")) };
    assert_eq!(index.list_versions(&ctx, &formula), vec![v("true"), v("false")]);
    let proxy = OpamPackage::Proxy { base: Box::new(None), formula: Box::new(var("x")) };
    assert_eq!(index.list_versions(&ctx, &proxy), vec![v("lhs"), v("rhs")]);
    assert_eq!(
        index.list_versions(&ctx, &pvar("os")),
        vec![
            v("linux"),
            v("macos"),
            v("win32"),
            v("cygwin"),
            v("freebsd"),
            v("openbsd"),
            v("netbsd"),
            v("dragonfly")
        ]
    );
    assert_eq!(
        index.list_versions(&ctx, &pvar("arch")),
        vec![v("arm64"), v("x86_32"), v("x86_64"), v("ppc32"), v("ppc64"), v("arm32")]
    );
    assert_eq!(index.list_versions(&ctx, &pvar("with-test")), vec![v("true"), v("false")]);
    ctx.learn_variable(&"os-family".to_string(), &v("debian"));
    assert_eq!(index.list_versions(&ctx, &pvar("os-family")), vec![v("debian")]);
    let class = OpamPackage::ConflictClass("c".to_string());
    assert_eq!(index.list_versions(&ctx, &class), vec![]);
    ctx.learn_conflict(&"c".to_string(), &v("m1"));
    ctx.learn_conflict(&"c".to_string(), &v("m2"));
    assert_eq!(index.list_versions(&ctx, &class), vec![v("m1"), v("m2")]);
}

#[test]
fn opam_index_chooses_the_first_version_in_the_range() {
    let index = sample_index();
    let ctx = Context::new();
    assert_eq!(index.choose_version(&ctx, &base("a"), &Range::full()), Some(v("2.0.0")));
    assert_eq!(
        index.choose_version(&ctx, &base("a"), &Range::strictly_lower_than(v("2.0.0"))),
        Some(v("1.5.0"))
    );
    assert_eq!(
        index.choose_version(&ctx, &base("a"), &Range::strictly_higher_than(v("2.0.0"))),
        None
    );
    assert_eq!(index.choose_version(&ctx, &base("zzz"), &Range::full()), None);
    assert_eq!(
        index.choose_version(&ctx, &pvar("with-test"), &Range::singleton(v("true"))),
        Some(v("true"))
    );
    assert_eq!(index.prioritize(&base("a"), &Range::full()), 1);
}

#[test]
fn opam_index_answers_dependencies() {
    let index = sample_index();
    let mut ctx = Context::new();
    assert_eq!(
        index.get_dependencies(&mut ctx, &base("a"), &v("1.0.0")),
        Ok(Dependencies::Available(vec![
            (base("b"), Range::full()),
            (
                OpamPackage::Formula {
                    base: Box::new(base("c")),
                    formula: Box::new(var("with-test"))
                },
                Range::full()
            ),
        ]))
    );
    assert_eq!(
        index.get_dependencies(&mut ctx, &base("a"), &v("3.0.0")),
        Ok(Dependencies::Unavailable(String::new()))
    );
    assert_eq!(
        index.get_dependencies(&mut ctx, &base("zzz"), &v("1")),
        Ok(Dependencies::Unavailable(String::new()))
    );
    assert_eq!(
        index.get_dependencies(&mut ctx, &pvar("os"), &v("linux")),
        Ok(Dependencies::Available(vec![]))
    );

    let formula =
        OpamPackage::Formula { base: Box::new(base("c")), formula: Box::new(var("with-test")) };
    assert_eq!(
        index.get_dependencies(&mut ctx, &formula, &v("true")),
        Ok(Dependencies::Available(vec![
            (base("c"), Range::full()),
            (pvar("with-test"), Range::singleton(v("true"))),
        ]))
    );
    // At `false` the filter is negated and the base is not asked for.
    assert_eq!(
        index.get_dependencies(&mut ctx, &formula, &v("false")),
        Ok(Dependencies::Available(vec![(pvar("with-test"), Range::singleton(v("false")))]))
    );
    assert_eq!(
        index.get_dependencies(&mut ctx, &formula, &v("maybe")),
        Err(InternalError::UnknownTruthValue)
    );

    let l = pbase("b", version(Range::full()));
    let r = pbase("c", version(range_1_2()));
    let lor = OpamPackage::Lor { lhs: Box::new(l), rhs: Box::new(r) };
    assert_eq!(
        index.get_dependencies(&mut ctx, &lor, &v("lhs")),
        Ok(Dependencies::Available(vec![(base("b"), Range::full())]))
    );
    assert_eq!(
        index.get_dependencies(&mut ctx, &lor, &v("rhs")),
        Ok(Dependencies::Available(vec![(base("c"), range_1_2())]))
    );
    assert_eq!(
        index.get_dependencies(&mut ctx, &lor, &v("true")),
        Err(InternalError::UnknownChoice)
    );
    assert_eq!(ctx, Context::new());
}

#[test]
fn opam_root_pins_variables() {
    let index = sample_index();
    let mut ctx = Context::new();
    let root = OpamPackage::Root(vec![
        (base("a"), Range::singleton(v("1.0.0"))),
        (pvar("os-family"), Range::singleton(v("debian"))),
        // A range that is no single version pins nothing.
        (pvar("os"), Range::higher_than(v("linux"))),
        (base("a"), Range::full()),
    ]);
    assert_eq!(
        index.get_dependencies(&mut ctx, &root, &v("")),
        Ok(Dependencies::Available(vec![
            (base("a"), Range::full()),
            (pvar("os-family"), Range::singleton(v("debian"))),
            (pvar("os"), Range::higher_than(v("linux"))),
        ]))
    );
    assert_eq!(ctx.variable_values(&"os-family".to_string()), Some(vec![v("debian")]));
    assert_eq!(ctx.variable_values(&"os".to_string()), None);
}

#[test]
fn opam_packages_are_written() {
    assert_eq!(OpamPackage::from_str("dune"), Ok(base("dune")));
    assert_eq!(
        OpamPackage::from_str("a/b"),
        Err("a/b is not a valid package name".to_string())
    );
    assert_eq!(OpamPackage::Root(vec![]).to_string(), "Root");
    assert_eq!(base("dune").to_string(), "dune");
    assert_eq!(pvar("os").to_string(), "`os`");
    assert_eq!(
        OpamPackage::ConflictClass("c".to_string()).to_string(),
        "Conflict class c"
    );
    let filter = and(cmp(RelOp::Eq, var("os"), lit("linux")), not("with-test"));
    assert_eq!(filter.to_string(), "os = \"linux\" & !with-test");
    assert_eq!(
        OpamPackage::Formula { base: Box::new(base("p")), formula: Box::new(filter.clone()) }
            .to_string(),
        "p {os = \"linux\" & !with-test}"
    );
    assert_eq!(
        OpamPackage::Proxy { base: Box::new(None), formula: Box::new(or(var("a"), var("b"))) }
            .to_string(),
        "{a | b}"
    );
    assert_eq!(
        OpamPackage::Proxy {
            base: Box::new(Some(base("p"))),
            formula: Box::new(version(range_1_2()))
        }
        .to_string(),
        "p {>=1.0, <2.0}"
    );
    assert_eq!(
        OpamPackage::Depext { names: vec!["a".to_string(), "b".to_string()], formula: var("x") }
            .to_string(),
        "[\"a\", \"b\"]"
    );
    let l = pbase("a", version(Range::full()));
    let r = PackageFormula::Depext { names: vec!["x".to_string()], formula: var("v") };
    assert_eq!(
        OpamPackage::Lor { lhs: Box::new(l), rhs: Box::new(r) }.to_string(),
        "a {*} | [\"x\"] {v}"
    );
}

#[test]
fn opam_packages_are_the_same_by_structure() {
    let f = || and(var("a"), cmp(RelOp::Eq, var("os"), lit("linux")));
    let p = OpamPackage::Formula { base: Box::new(base("p")), formula: Box::new(f()) };
    let q = OpamPackage::Formula { base: Box::new(base("p")), formula: Box::new(f()) };
    assert!(p.same(&q));
    assert!(p.same(&p.clone()));
    assert_eq!(p.clone(), p);
    let other = OpamPackage::Formula { base: Box::new(base("q")), formula: Box::new(f()) };
    assert!(!p.same(&other));
    assert!(!base("a").same(&pvar("a")));
    let root = OpamPackage::Root(vec![(p.clone(), range_1_2())]);
    assert!(root.same(&root.clone()));
    assert!(!root.same(&OpamPackage::Root(vec![(p, Range::full())])));
}

#[test]
fn context_only_grows() {
    let mut ctx = Context::new();
    let name = "os-family".to_string();
    ctx.learn_variable(&name, &v("debian"));
    ctx.learn_variable(&"arch".to_string(), &v("x86_64"));
    ctx.learn_variable(&name, &v("alpine"));
    ctx.learn_variable(&name, &v("debian"));
    assert_eq!(ctx.variable_values(&name), Some(vec![v("debian"), v("alpine")]));
    assert_eq!(ctx.variable_values(&"arch".to_string()), Some(vec![v("x86_64")]));
    assert_eq!(ctx.conflict_members(&name), None);
    let copy = ctx.duplicate();
    assert_eq!(copy, ctx);
    assert_eq!(copy.clone(), ctx);
}
