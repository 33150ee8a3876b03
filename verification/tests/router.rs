use babel_solver::alpine::deps::AlpinePackage;
use babel_solver::alpine::index::{AlpineIndex, Dependency, HashedRange};
use babel_solver::alpine::version::AlpineVersion;
use babel_solver::babel::deps::{BabelPackage, PlatformPackage};
use babel_solver::babel::index::BabelIndex;
use babel_solver::babel::version::{BabelVersion, BabelVersionSet};
use babel_solver::cargo::index::CargoIndex;
use babel_solver::cargo::names::Names;
use babel_solver::cargo::version::{CargoVersion, SemverCompatibility};
use babel_solver::debian::deps::DebianPackage;
use babel_solver::debian::index::DebianIndex;
use babel_solver::debian::version::DebianVersion;
use babel_solver::error::SolverError;
use babel_solver::opam::context::Context;
use babel_solver::opam::deps::OpamPackage;
use babel_solver::opam::index::{HashedRange as OpamRange, OpamIndex, PackageFormula, VersionFormula};
use babel_solver::opam::version::OpamVersion;
use babel_solver::range::Range;
use babel_solver::constraints::Dependencies;
use babel_solver::router::{
    check_solution, get_resolved_deps, get_resolved_deps_within, parse_version, present_solution,
    resolve_package_dependencies, shared_object, Arguments, BabelRouter, PromptError,
    ResolvedDependency, ResourceError, Tool, ToolCall, ToolError,
};

fn none() -> Arguments<'static> {
    Arguments { query: None, ecosystem: None, package: None, version: None, platform: None }
}

#[test]
fn router_describes_itself() {
    let router = BabelRouter::new();
    assert_eq!(router.name(), "babel");
    assert_eq!(
        router.instructions(),
        "This server provides tools to search for packages and resolve dependencies in the Babel package manager."
    );
    assert_eq!(router.list_tools(), vec![Tool::SearchPackage, Tool::ResolveDependencies]);
    assert_eq!(Tool::SearchPackage.name(), "search_package");
    assert_eq!(Tool::ResolveDependencies.name(), "resolve_dependencies");
    assert_eq!(Tool::SearchPackage.description(), "Search for a package by name");
    assert_eq!(Tool::ResolveDependencies.description(), "Resolve dependencies for a package");
    for tool in router.list_tools() {
        assert_eq!(router.find_tool(&tool.name()), Some(tool));
    }
    assert_eq!(router.find_tool("install"), None);
}

#[test]
fn router_plans_calls() {
    let router = BabelRouter::new();
    assert_eq!(
        router.call_tool("install", &none()),
        Err(ToolError::NotFound("install".to_string()))
    );
    assert_eq!(
        router.call_tool("search_package", &none()),
        Err(ToolError::InvalidParameters("query".to_string()))
    );
    assert_eq!(
        router.call_tool("search_package", &Arguments { query: Some("dune"), ..none() }),
        Ok(ToolCall::Search { query: "dune".to_string() })
    );
    assert_eq!(
        router.call_tool("resolve_dependencies", &none()),
        Err(ToolError::InvalidParameters("ecosystem".to_string()))
    );
    assert_eq!(
        router.call_tool(
            "resolve_dependencies",
            &Arguments { ecosystem: Some("opam"), version: Some("1"), ..none() }
        ),
        Err(ToolError::InvalidParameters("package".to_string()))
    );
    assert_eq!(
        router.call_tool(
            "resolve_dependencies",
            &Arguments { ecosystem: Some("opam"), package: Some("dune"), ..none() }
        ),
        Err(ToolError::InvalidParameters("version".to_string()))
    );
    assert_eq!(
        router.call_tool(
            "resolve_dependencies",
            &Arguments {
                ecosystem: Some("opam"),
                package: Some("dune"),
                version: Some("3.17.2"),
                ..none()
            }
        ),
        Ok(ToolCall::Resolve {
            ecosystem: "opam".to_string(),
            package: "dune".to_string(),
            version: "3.17.2".to_string(),
            platform: None
        })
    );
    assert_eq!(
        router.call_tool(
            "resolve_dependencies",
            &Arguments {
                ecosystem: Some("opam"),
                package: Some("conf-gmp"),
                version: Some("4"),
                platform: Some("debian"),
                query: Some("ignored"),
            }
        ),
        Ok(ToolCall::Resolve {
            ecosystem: "opam".to_string(),
            package: "conf-gmp".to_string(),
            version: "4".to_string(),
            platform: Some("debian".to_string())
        })
    );
}

fn opam(s: &str) -> BabelVersion {
    BabelVersion::Opam(OpamVersion(s.to_string()))
}

#[test]
fn queries_without_platform_start_from_the_package() {
    assert_eq!(
        resolve_package_dependencies("opam", "dune", "3.17.2", None),
        Ok((BabelPackage::Opam(OpamPackage::Base("dune".to_string())), opam("3.17.2")))
    );
    assert_eq!(
        resolve_package_dependencies("debian", "openssh-server", "1:7.9p1-10+deb10u2", None),
        Ok((
            BabelPackage::Debian(DebianPackage::Base("openssh-server".to_string())),
            BabelVersion::Debian(DebianVersion("1:7.9p1-10+deb10u2".to_string()))
        ))
    );
    assert_eq!(
        resolve_package_dependencies("alpine", "openssh-server", "9.7_p1-r5", None),
        Ok((
            BabelPackage::Alpine(AlpinePackage::Base("openssh-server".to_string())),
            BabelVersion::Alpine(AlpineVersion("9.7_p1-r5".to_string()))
        ))
    );
    assert_eq!(
        resolve_package_dependencies("cargo", "serde", "1.0.219", None),
        Ok((
            BabelPackage::Cargo(Names::Bucket(
                "serde".to_string(),
                SemverCompatibility::Major(1),
                false
            )),
            BabelVersion::Cargo(CargoVersion::parse("1.0.219").unwrap())
        ))
    );
    assert_eq!(
        resolve_package_dependencies("cargo", "rand", "0.8.5", None).unwrap().0,
        BabelPackage::Cargo(Names::Bucket(
            "rand".to_string(),
            SemverCompatibility::Minor(8),
            false
        ))
    );
}

#[test]
fn queries_with_platform_start_from_a_root() {
    let (package, version) =
        resolve_package_dependencies("opam", "conf-gmp", "4", Some("debian")).unwrap();
    assert_eq!(version, BabelVersion::Singular);
    assert_eq!(
        package,
        BabelPackage::Root(vec![
            (
                BabelPackage::Opam(OpamPackage::Base("conf-gmp".to_string())),
                BabelVersionSet::singleton(opam("4"))
            ),
            (
                BabelPackage::Platform(PlatformPackage::OS),
                BabelVersionSet::singleton(BabelVersion::Platform("debian".to_string()))
            ),
        ])
    );
    let (package, _) =
        resolve_package_dependencies("cargo", "serde", "1.0.219", Some("alpine")).unwrap();
    match package {
        BabelPackage::Root(children) => {
            assert_eq!(children.len(), 2);
            assert_eq!(
                children[0].1,
                BabelVersionSet::Cargo(Range::singleton(CargoVersion::parse("1.0.219").unwrap()))
            );
        }
        _ => panic!("a query with a platform starts from a root"),
    }
}

#[test]
fn queries_are_validated() {
    assert_eq!(
        resolve_package_dependencies("npm", "left-pad", "1.0.0", None),
        Err(SolverError::UnsupportedEcosystem)
    );
    assert_eq!(
        resolve_package_dependencies("Opam", "dune", "1", None),
        Err(SolverError::UnsupportedEcosystem)
    );
    assert_eq!(
        resolve_package_dependencies("cargo", "serde", "1.0", None),
        Err(SolverError::InvalidVersion)
    );
    assert_eq!(
        resolve_package_dependencies("opam", "dune", "3.17.2", Some("windows")),
        Err(SolverError::UnsupportedPlatform)
    );
    // The platform is looked at first.
    assert_eq!(
        resolve_package_dependencies("npm", "left-pad", "1.0.0", Some("windows")),
        Err(SolverError::UnsupportedPlatform)
    );
    assert_eq!(
        resolve_package_dependencies("npm", "left-pad", "1.0.0", Some("debian")),
        Err(SolverError::UnsupportedEcosystem)
    );
    assert_eq!(
        resolve_package_dependencies("cargo", "serde", "one", Some("debian")),
        Err(SolverError::InvalidVersion)
    );
}

fn line(ecosystem: &str, name: &str, version: &str) -> ResolvedDependency {
    ResolvedDependency {
        ecosystem: ecosystem.to_string(),
        name: name.to_string(),
        version: version.to_string(),
    }
}

fn alpine(name: &str) -> BabelPackage<'static> {
    BabelPackage::Alpine(AlpinePackage::Base(name.to_string()))
}

fn av(s: &str) -> BabelVersion {
    BabelVersion::Alpine(AlpineVersion(s.to_string()))
}

#[test]
fn only_packages_of_repositories_are_shown() {
    let filter = VersionFormula::Variable("with-test".to_string());
    let base = PackageFormula::Base {
        name: "a".to_string(),
        formula: VersionFormula::Version(OpamRange(Range::full())),
    };
    let solution = vec![
        (BabelPackage::Root(vec![]), BabelVersion::Singular),
        (BabelPackage::Opam(OpamPackage::Base("conf-gmp".to_string())), opam("4")),
        (BabelPackage::Platform(PlatformPackage::OS), BabelVersion::Platform("alpine".to_string())),
        (BabelPackage::Opam(OpamPackage::Var("os".to_string())), opam("linux")),
        (
            BabelPackage::Opam(OpamPackage::Formula {
                base: Box::new(OpamPackage::Base("x".to_string())),
                formula: Box::new(filter.clone()),
            }),
            opam("false"),
        ),
        (
            BabelPackage::Opam(OpamPackage::Proxy { base: Box::new(None), formula: Box::new(filter.clone()) }),
            opam("lhs"),
        ),
        (
            BabelPackage::Opam(OpamPackage::Lor { lhs: Box::new(base.clone()), rhs: Box::new(base) }),
            opam("rhs"),
        ),
        (
            BabelPackage::Opam(OpamPackage::Depext { names: vec!["gmp-dev".to_string()], formula: filter }),
            opam("alpine"),
        ),
        (BabelPackage::Opam(OpamPackage::ConflictClass("c".to_string())), opam("m")),
        (alpine("gmp-dev"), av("6.3.0-r1")),
        (alpine("so:libgmp.so.10"), av("gmp")),
        (
            BabelPackage::Debian(DebianPackage::Base("libgmp-dev".to_string())),
            BabelVersion::Debian(DebianVersion("2:6.1.2".to_string())),
        ),
        (
            BabelPackage::Cargo(Names::Bucket("serde".to_string(), SemverCompatibility::Major(1), false)),
            BabelVersion::Cargo(CargoVersion::parse("1.0.219").unwrap()),
        ),
        (
            BabelPackage::Cargo(Names::BucketDefaultFeatures("serde".to_string(), SemverCompatibility::Major(1))),
            BabelVersion::Cargo(CargoVersion::parse("1.0.219").unwrap()),
        ),
        (BabelPackage::Cargo(Names::Links("z".to_string())), BabelVersion::Cargo(CargoVersion::parse("1.0.0").unwrap())),
    ];
    assert_eq!(
        present_solution(&solution),
        vec![
            line("opam", "conf-gmp", "4"),
            line("alpine", "gmp-dev", "6.3.0-r1"),
            line("debian", "libgmp-dev", "2:6.1.2"),
            line("cargo", "serde", "1.0.219"),
        ]
    );
    assert_eq!(present_solution(&vec![]), vec![]);
    assert!(shared_object("so:libc.musl-x86_64.so.1"));
    assert!(!shared_object("so"));
    assert!(!shared_object("libso:"));
}

fn world() -> BabelIndex<'static> {
    let mut opam_index = OpamIndex::new();
    opam_index.add_formulas(
        "app",
        OpamVersion("1".to_string()),
        vec![
            PackageFormula::Base {
                name: "lib".to_string(),
                formula: VersionFormula::Version(OpamRange(Range::higher_than(OpamVersion("2".to_string())))),
            },
            PackageFormula::Base {
                name: "doc".to_string(),
                formula: VersionFormula::Variable("with-doc".to_string()),
            },
        ],
    );
    opam_index.add_formulas("lib", OpamVersion("2".to_string()), vec![]);
    opam_index.add_formulas("doc", OpamVersion("1".to_string()), vec![]);
    let mut alpine_index = AlpineIndex::new();
    alpine_index.add_deps(
        "gmp-dev",
        AlpineVersion("6".to_string()),
        vec![Dependency { name: "so:libgmp.so.10".to_string(), range: HashedRange(Range::full()) }],
    );
    alpine_index.add_deps(
        "so:libgmp.so.10",
        AlpineVersion("gmp".to_string()),
        vec![Dependency {
            name: "gmp".to_string(),
            range: HashedRange(Range::singleton(AlpineVersion("6".to_string()))),
        }],
    );
    alpine_index.add_deps("gmp", AlpineVersion("6".to_string()), vec![]);
    BabelIndex::new(opam_index, DebianIndex::new(), alpine_index, CargoIndex::new())
}

fn doc_formula() -> BabelPackage<'static> {
    BabelPackage::Opam(OpamPackage::Formula {
        base: Box::new(OpamPackage::Base("doc".to_string())),
        formula: Box::new(VersionFormula::Variable("with-doc".to_string())),
    })
}

fn solution() -> Vec<(BabelPackage<'static>, BabelVersion)> {
    vec![
        (BabelPackage::Opam(OpamPackage::Base("app".to_string())), opam("1")),
        (BabelPackage::Opam(OpamPackage::Base("lib".to_string())), opam("2")),
        (doc_formula(), opam("true")),
        (BabelPackage::Opam(OpamPackage::Base("doc".to_string())), opam("1")),
        (BabelPackage::Opam(OpamPackage::Var("with-doc".to_string())), opam("true")),
        (alpine("gmp-dev"), av("6")),
        (alpine("so:libgmp.so.10"), av("gmp")),
        (alpine("gmp"), av("6")),
    ]
}

#[test]
fn the_graph_of_a_solution_passes_through_auxiliary_packages() {
    let index = world();
    let ctx = Context::new();
    let sol = solution();
    let app = BabelPackage::Opam(OpamPackage::Base("app".to_string()));
    assert_eq!(
        get_resolved_deps(&index, &ctx, &sol, &app, &opam("1")),
        vec![
            ("Opam lib".to_string(), opam("2")),
            ("Opam doc".to_string(), opam("1")),
            ("Opam `with-doc`".to_string(), opam("true")),
        ]
    );
    // Without steps to spare, what stands behind an auxiliary package is not reached.
    assert_eq!(
        get_resolved_deps_within(&index, &ctx, &sol, &app, &opam("1"), 0),
        vec![("Opam lib".to_string(), opam("2"))]
    );
    // A shared object that one package provides is passed over for its provider.
    assert_eq!(
        get_resolved_deps(&index, &ctx, &sol, &alpine("gmp-dev"), &av("6")),
        vec![("Alpine gmp".to_string(), av("6"))]
    );
    assert_eq!(
        get_resolved_deps_within(&index, &ctx, &sol, &alpine("gmp"), &av("6"), 8),
        vec![]
    );
    // A version that the index does not hold has no dependencies.
    assert_eq!(get_resolved_deps(&index, &ctx, &sol, &app, &opam("9")), vec![]);
    assert_eq!(ctx, Context::new());
}

#[test]
fn solutions_are_checked() {
    let index = world();
    let ctx = Context::new();
    assert!(check_solution(&index, &ctx, &solution()));
    assert!(check_solution(&index, &ctx, &vec![]));

    // A dependency that is not selected.
    let mut missing = solution();
    missing.remove(1);
    assert!(!check_solution(&index, &ctx, &missing));

    // A dependency selected at a version that is not allowed.
    let mut wrong = solution();
    wrong[1] = (BabelPackage::Opam(OpamPackage::Base("lib".to_string())), opam("1"));
    assert!(!check_solution(&index, &ctx, &wrong));

    // A package selected at a version that the index does not hold.
    let mut unknown = solution();
    unknown[7] = (alpine("gmp"), av("7"));
    assert!(!check_solution(&index, &ctx, &unknown));

    // The other choice for the filter asks for less.
    let other = vec![
        (BabelPackage::Opam(OpamPackage::Base("app".to_string())), opam("1")),
        (BabelPackage::Opam(OpamPackage::Base("lib".to_string())), opam("2")),
        (doc_formula(), opam("false")),
        (BabelPackage::Opam(OpamPackage::Var("with-doc".to_string())), opam("false")),
    ];
    assert!(check_solution(&index, &ctx, &other));
}

#[test]
fn router_offers_tools_only() {
    let router = BabelRouter::new();
    let capabilities = router.capabilities();
    assert!(capabilities.tools);
    assert!(!capabilities.resources);
    assert!(!capabilities.prompts);
    assert!(router.list_resources().is_empty());
    assert!(router.list_prompts().is_empty());
    assert_eq!(
        router.read_resource("file:///x"),
        Err(ResourceError::NotFound(
            "Resource file:///x not found".to_string()
        ))
    );
    assert_eq!(
        router.get_prompt("hello"),
        Err(PromptError::NotFound("Prompt hello not found".to_string()))
    );
}

#[test]
fn versions_are_read_in_their_ecosystem() {
    assert_eq!(parse_version("opam", "3.17.2"), Ok(opam("3.17.2")));
    assert_eq!(
        parse_version("debian", "1:7.9p1-10+deb10u2"),
        Ok(BabelVersion::Debian(DebianVersion("1:7.9p1-10+deb10u2".to_string())))
    );
    assert_eq!(parse_version("alpine", "9.7_p1-r5"), Ok(av("9.7_p1-r5")));
    assert_eq!(
        parse_version("cargo", "1.0.219"),
        Ok(BabelVersion::Cargo(CargoVersion::parse("1.0.219").unwrap()))
    );
    assert_eq!(parse_version("cargo", "1.0"), Err(SolverError::InvalidVersion));
    assert_eq!(parse_version("npm", "1.0.0"), Err(SolverError::UnsupportedEcosystem));
    // Writing a version and reading the text again gives the version back.
    for (ecosystem, text) in
        [("opam", "3.17.2"), ("debian", "1:7.9p1-10"), ("alpine", "1.0_rc1"), ("cargo", "0.8.5")]
            .iter()
    {
        let v = parse_version(ecosystem, text).unwrap();
        assert_eq!(v.to_string(), *text);
        assert_eq!(parse_version(ecosystem, &v.to_string()), Ok(v));
    }
}

#[test]
fn a_cancelled_query_learns_nothing_more() {
    let index = world();
    let mut ctx = Context::new();
    let root = BabelPackage::Root(vec![(
        BabelPackage::Opam(OpamPackage::Var("os".to_string())),
        BabelVersionSet::singleton(opam("linux")),
    )]);
    assert_eq!(
        index.get_dependencies_unless_cancelled(&mut ctx, &root, &BabelVersion::Singular, true),
        Ok(Dependencies::Unavailable("cancelled".to_string()))
    );
    assert_eq!(ctx, Context::new());
    match index.get_dependencies_unless_cancelled(&mut ctx, &root, &BabelVersion::Singular, false)
    {
        Ok(Dependencies::Available(children)) => assert_eq!(children.len(), 1),
        other => panic!("a root has its children: {:?}", other),
    }
    assert_eq!(
        ctx.variable_values(&"os".to_string()),
        Some(vec![OpamVersion("linux".to_string())])
    );
}

#[test]
fn handler_answers() {
    let handler = babel_solver::router::BabelHandler::new();
    let info = handler.get_info();
    assert!(info.capabilities.tools && !info.capabilities.resources && !info.capabilities.prompts);
    assert_eq!(info.instructions, BabelRouter::new().instructions());
    let answer = handler.search_package("dune");
    assert_eq!(answer.status, "not_implemented");
    assert_eq!(answer.message, "Package search not yet implemented");
    assert_eq!(answer.query, "dune");
    assert_eq!(
        handler.resolve_dependencies("opam", "dune", "3.17.2", None),
        resolve_package_dependencies("opam", "dune", "3.17.2", None)
    );
    assert_eq!(
        handler.resolve_dependencies("opam", "dune", "3.17.2", Some("windows")),
        Err(SolverError::UnsupportedPlatform)
    );
}
