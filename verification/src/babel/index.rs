//! The index that answers for all ecosystems.
//!
//! Each question about a package goes to the index of its ecosystem; what
//! comes back is lifted into the packages and version sets of the unified
//! layer. The packages that a query adds, and the external dependencies of
//! OPAM packages, are answered here.

use crate::alpine::deps::{
    alpine_dependencies, alpine_versions, AlpinePackage, ConstraintsModel as AlpineConstraints,
    PackageModel as AlpineModel,
};
use crate::alpine::index::AlpineIndex;
use crate::alpine::version::AlpineVersion;
use crate::babel::deps::{
    constraint_models, contains_os_condition, has_os_condition,
    lemma_root_model, BabelPackage, ConstraintsModel, PackageModel, PlatformPackage,
};
use crate::babel::version::{set_contains, BabelVersion, BabelVersionSet, SetModel, VersionModel};
use crate::cargo::index::{CargoIndex, ConstraintsModel as CargoConstraints};
use crate::cargo::names::Names;
use crate::cargo::version::CargoVersion;
use crate::constraints::{
    collect, collect_constraints, put, put_all_from, put_constraint, Dependencies, Known,
};
use crate::debian::deps::{
    debian_dependencies, debian_versions, ConstraintsModel as DebianConstraints, DebianPackage,
    PackageModel as DebianModel,
};
use crate::debian::index::DebianIndex;
use crate::debian::version::DebianVersion;
use crate::error::InternalError;
use crate::opam::context::{learn, Context, ContextModel, Table};
use crate::opam::deps::{
    opam_dependencies, opam_versions, ConstraintsModel as OpamConstraints, OpamPackage,
    PackageModel as OpamModel,
};
use crate::opam::index::OpamIndex;
use crate::opam::version::OpamVersion;
use crate::range::{full_range, singleton_of, singleton_range, Range};
use crate::text::{same_text, texts};
use vstd::prelude::*;

verus! {

/// The indices of all ecosystems.
#[derive(Debug)]
pub struct BabelIndex<'a> {
    pub opam: OpamIndex,
    pub debian: DebianIndex,
    pub alpine: AlpineIndex,
    pub cargo: CargoIndex<'a>,
    pub debug: bool,
    pub version_debug: bool,
}

/// The versions of a package, in the order in which they are tried.
///
/// - A root has its one version.
/// - The operating system has the versions `debian` and `alpine`.
/// - The external dependencies of an OPAM package have the versions `alpine`
///   and `debian`: the system they are taken from.
/// - Every other package has the versions that the index of its ecosystem
///   lists, newest first.
pub open spec fn babel_versions(
    index: &BabelIndex,
    ctx: ContextModel,
    package: PackageModel,
) -> Seq<VersionModel> {
    match package {
        PackageModel::Root(_) => seq![VersionModel::Singular],
        PackageModel::Platform(_) => seq![
            VersionModel::Platform("debian"@),
            VersionModel::Platform("alpine"@),
        ],
        PackageModel::Opam(OpamModel::Depext { .. }) => seq![
            VersionModel::Opam("alpine"@),
            VersionModel::Opam("debian"@),
        ],
        PackageModel::Opam(p) => opam_versions(&index.opam, ctx, p).map_values(
            |t: Seq<char>| VersionModel::Opam(t),
        ),
        PackageModel::Debian(p) => debian_versions(&index.debian, p).map_values(
            |t: Seq<char>| VersionModel::Debian(t),
        ),
        PackageModel::Alpine(p) => alpine_versions(&index.alpine, p).map_values(
            |t: Seq<char>| VersionModel::Alpine(t),
        ),
        PackageModel::Cargo(p) => index.cargo.versions_of(p).map_values(
            |t: Seq<char>| VersionModel::Cargo(t),
        ),
    }
}

/// Position of the first version of `versions[i..]` that lies in `set`.
pub open spec fn first_member_from(versions: Seq<VersionModel>, set: SetModel, i: int) -> Option<
    int,
>
    decreases versions.len() - i,
{
    if i < 0 || i >= versions.len() {
        None
    } else if set_contains(set, versions[i]) {
        Some(i)
    } else {
        first_member_from(versions, set, i + 1)
    }
}

/// The first version of the list that lies in `set`.
pub open spec fn first_member(versions: Seq<VersionModel>, set: SetModel) -> Option<VersionModel> {
    match first_member_from(versions, set, 0) {
        Some(i) => Some(versions[i]),
        None => None,
    }
}

/// A version is chosen exactly when one of the listed versions lies in the
/// set, and the chosen version is the first of the list that does.
pub proof fn law_version_selection(versions: Seq<VersionModel>, set: SetModel)
    ensures
        first_member(versions, set) is Some <==> exists|i: int|
            0 <= i < versions.len() && set_contains(set, #[trigger] versions[i]),
        first_member(versions, set) matches Some(v) ==> exists|i: int|
            0 <= i < versions.len() && versions[i] == v && set_contains(set, v) && forall|j: int|
                0 <= j < i ==> !set_contains(set, #[trigger] versions[j]),
{
    lemma_first_member(versions, set, 0);
}

/// [`first_member_from`] finds a version exactly when one of the versions
/// from `i` on lies in the set, and then it is the first of them.
pub proof fn lemma_first_member(versions: Seq<VersionModel>, set: SetModel, i: int)
    requires
        0 <= i,
    ensures
        match first_member_from(versions, set, i) {
            Some(p) => i <= p < versions.len() && set_contains(set, versions[p]) && forall|
                j: int,
            | i <= j < p ==> !set_contains(set, #[trigger] versions[j]),
            None => forall|j: int|
                i <= j < versions.len() ==> !set_contains(set, #[trigger] versions[j]),
        },
    decreases versions.len() - i,
{
    if i < versions.len() && !set_contains(set, versions[i]) {
        lemma_first_member(versions, set, i + 1);
    }
}

/// The models of a list of versions.
pub open spec fn version_models(versions: Seq<BabelVersion>) -> Seq<VersionModel> {
    versions.map_values(|v: BabelVersion| v@)
}

/// The constraints of an OPAM package as constraints of the unified layer.
pub open spec fn lifted_opam(c: OpamConstraints) -> ConstraintsModel {
    c.map_values(|e: (OpamModel, Seq<crate::range::SegmentModel>)| (
        PackageModel::Opam(e.0),
        SetModel::Opam(e.1),
    ))
}

/// The constraints of a Debian package as constraints of the unified layer.
pub open spec fn lifted_debian(c: DebianConstraints) -> ConstraintsModel {
    c.map_values(|e: (DebianModel, Seq<crate::range::SegmentModel>)| (
        PackageModel::Debian(e.0),
        SetModel::Debian(e.1),
    ))
}

/// The constraints of an Alpine package as constraints of the unified
/// layer.
pub open spec fn lifted_alpine(c: AlpineConstraints) -> ConstraintsModel {
    c.map_values(|e: (AlpineModel, Seq<crate::range::SegmentModel>)| (
        PackageModel::Alpine(e.0),
        SetModel::Alpine(e.1),
    ))
}

/// The constraints of a Cargo package as constraints of the unified layer.
pub open spec fn lifted_cargo(c: CargoConstraints) -> ConstraintsModel {
    c.map_values(|e: (crate::cargo::names::NamesModel, Seq<crate::range::SegmentModel>)| (
        PackageModel::Cargo(e.0),
        SetModel::Cargo(e.1),
    ))
}

/// The OPAM variable `name` pinned to `value`.
pub open spec fn pinned(name: Seq<char>, value: Seq<char>) -> (PackageModel, SetModel) {
    (PackageModel::Opam(OpamModel::Var(name)), SetModel::Opam(singleton_range(value)))
}

/// What a platform says of the OPAM variables: its distribution, its family
/// and the system.
pub open spec fn platform_facts(platform: Seq<char>) -> ConstraintsModel {
    put(
        put(
            seq![pinned("os-distribution"@, platform)],
            PackageModel::Opam(OpamModel::Var("os-family"@)),
            SetModel::Opam(singleton_range(platform)),
        ),
        PackageModel::Opam(OpamModel::Var("os"@)),
        SetModel::Opam(singleton_range("linux"@)),
    )
}

/// The packages of the system `os` that external dependencies name, each at
/// any version.
pub open spec fn system_packages(names: Seq<Seq<char>>, os: Seq<char>) -> ConstraintsModel {
    if os == "debian"@ {
        collect(
            names.map_values(
                |n: Seq<char>| (
                    PackageModel::Debian(DebianModel::Base(n)),
                    SetModel::Debian(full_range()),
                ),
            ),
        )
    } else if os == "alpine"@ {
        collect(
            names.map_values(
                |n: Seq<char>| (
                    PackageModel::Alpine(AlpineModel::Base(n)),
                    SetModel::Alpine(full_range()),
                ),
            ),
        )
    } else {
        Seq::empty()
    }
}

/// The values of variables known after the children `children[i..]` of a
/// root were looked at: a child that pins an OPAM variable to one value
/// makes that value known.
pub open spec fn root_variables(children: ConstraintsModel, i: int, variables: Table) -> Table
    decreases children.len() - i,
{
    if i < 0 || i >= children.len() {
        variables
    } else {
        let next = match children[i] {
            (PackageModel::Opam(OpamModel::Var(x)), SetModel::Opam(range)) => match singleton_of::<
                OpamVersion,
            >(range) {
                Some(v) => learn(variables, x, v),
                None => variables,
            },
            _ => variables,
        };
        root_variables(children, i + 1, next)
    }
}

/// What asking for the dependencies of a package at a version gives.
pub struct Answer {
    /// The constraints, or that nothing is known of the package at the
    /// version and why, or the error.
    pub result: Result<Known<ConstraintsModel>, InternalError>,
    /// What is known of variables and conflict classes afterwards.
    pub context: ContextModel,
}

/// The answer of the unified layer that the answer of the OPAM index gives.
pub open spec fn lifted_answer(a: crate::opam::deps::Answer) -> Answer {
    Answer {
        result: match a.result {
            Ok(Known::Available(c)) => Ok(Known::Available(lifted_opam(c))),
            Ok(Known::Unavailable(reason)) => Ok(Known::Unavailable(reason)),
            Err(e) => Err(e),
        },
        context: a.context,
    }
}

/// The dependencies of `package` at `version`.
///
/// - A root depends on its children.
/// - The operating system at `debian` or `alpine` pins the OPAM variables
///   `os-distribution`, `os-family` and `os`.
/// - The external dependencies of an OPAM package, at the version that names
///   a system, depend on their packages of that system where their filter
///   holds the condition for that system, and on nothing else.
/// - Every other package depends on what the index of its ecosystem says;
///   where that index knows nothing, its reason is handed on.
/// - A version of another ecosystem than the package's is an error.
pub open spec fn babel_dependencies(
    index: &BabelIndex,
    ctx: ContextModel,
    package: PackageModel,
    version: VersionModel,
) -> Answer {
    match (package, version) {
        (PackageModel::Root(children), _) => Answer {
            result: Ok(Known::Available(collect(children))),
            context: ContextModel {
                variables: root_variables(children, 0, ctx.variables),
                conflicts: ctx.conflicts,
            },
        },
        (PackageModel::Platform(_), VersionModel::Platform(t)) => if t == "debian"@ || t
            == "alpine"@ {
            Answer { result: Ok(Known::Available(platform_facts(t))), context: ctx }
        } else {
            Answer { result: Err(InternalError::UnknownPlatform), context: ctx }
        },
        (PackageModel::Opam(OpamModel::Depext { names, formula }), VersionModel::Opam(t)) => {
            Answer {
                result: Ok(
                    Known::Available(
                        if has_os_condition(formula, t) {
                            system_packages(names, t)
                        } else {
                            Seq::empty()
                        },
                    ),
                ),
                context: ctx,
            }
        },
        (PackageModel::Opam(p), VersionModel::Opam(t)) => lifted_answer(
            opam_dependencies(&index.opam, ctx, p, t, index.opam.formulas_of(p, t)),
        ),
        (PackageModel::Debian(p), VersionModel::Debian(t)) => Answer {
            result: Ok(
                match debian_dependencies(p, index.debian.recorded(p, t)) {
                    Known::Available(c) => Known::Available(lifted_debian(c)),
                    Known::Unavailable(reason) => Known::Unavailable(reason),
                },
            ),
            context: ctx,
        },
        (PackageModel::Alpine(p), VersionModel::Alpine(t)) => Answer {
            result: Ok(
                match alpine_dependencies(p, index.alpine.recorded(p, t)) {
                    Known::Available(c) => Known::Available(lifted_alpine(c)),
                    Known::Unavailable(reason) => Known::Unavailable(reason),
                },
            ),
            context: ctx,
        },
        (PackageModel::Cargo(p), VersionModel::Cargo(t)) => Answer {
            result: Ok(
                match index.cargo.dependencies_of(p, t) {
                    Some(c) => Known::Available(lifted_cargo(c)),
                    None => Known::Unavailable(Seq::empty()),
                },
            ),
            context: ctx,
        },
        _ => Answer { result: Err(InternalError::ForeignVersion), context: ctx },
    }
}

/// What the index answers while a query runs that may be cancelled: once
/// the query is cancelled, nothing is known of any package any more, for the
/// reason `cancelled`, and nothing is learnt.
pub open spec fn cancellable_dependencies(
    index: &BabelIndex,
    ctx: ContextModel,
    package: PackageModel,
    version: VersionModel,
    cancelled: bool,
) -> Answer {
    if cancelled {
        Answer { result: Ok(Known::Unavailable("cancelled"@)), context: ctx }
    } else {
        babel_dependencies(index, ctx, package, version)
    }
}

/// The model of what the index answers.
pub open spec fn dependencies_model(
    d: Result<Dependencies<BabelPackage, BabelVersionSet>, InternalError>,
) -> Result<Known<ConstraintsModel>, InternalError> {
    match d {
        Ok(Dependencies::Available(c)) => Ok(Known::Available(constraint_models(c@))),
        Ok(Dependencies::Unavailable(reason)) => Ok(Known::Unavailable(reason@)),
        Err(e) => Err(e),
    }
}

/// The OPAM variable `name` pinned to `value`.
fn pin<'a>(name: &str, value: &str) -> (r: (BabelPackage<'a>, BabelVersionSet))
    ensures
        (r.0@, r.1@) == pinned(name@, value@),
{
    (
        BabelPackage::Opam(OpamPackage::Var(name.to_string())),
        BabelVersionSet::Opam(Range::singleton(OpamVersion(value.to_string()))),
    )
}

/// What the platform `platform` says of the OPAM variables.
fn facts_of_platform<'a>(platform: &str) -> (r: Vec<(BabelPackage<'a>, BabelVersionSet)>)
    ensures
        constraint_models(r@) == platform_facts(platform@),
{
    let mut map: Vec<(BabelPackage<'a>, BabelVersionSet)> = Vec::new();
    let first = pin("os-distribution", platform);
    map.push(first);
    assert(constraint_models(map@) =~= seq![pinned("os-distribution"@, platform@)]);
    let second = pin("os-family", platform);
    put_constraint(&mut map, second.0, second.1);
    let third = pin("os", "linux");
    put_constraint(&mut map, third.0, third.1);
    map
}

/// The packages of the system `os` that external dependencies name.
fn packages_of_system<'a>(names: &Vec<String>, os: &str) -> (r: Vec<
    (BabelPackage<'a>, BabelVersionSet),
>)
    ensures
        constraint_models(r@) == system_packages(texts(names@), os@),
{
    let mut map: Vec<(BabelPackage<'a>, BabelVersionSet)> = Vec::new();
    assert(constraint_models(map@) =~= Seq::empty());
    if same_text(os, "debian") {
        let ghost items = texts(names@).map_values(
            |n: Seq<char>| (
                PackageModel::Debian(DebianModel::Base(n)),
                SetModel::Debian(full_range()),
            ),
        );
        let mut i: usize = 0;
        while i < names.len()
            invariant
                i <= names.len(),
                items == texts(names@).map_values(
                    |n: Seq<char>| (
                        PackageModel::Debian(DebianModel::Base(n)),
                        SetModel::Debian(full_range()),
                    ),
                ),
                collect(items) == put_all_from(constraint_models(map@), items, i as int),
            decreases names.len() - i,
        {
            assert(texts(names@)[i as int] == names@[i as int]@);
            put_constraint(
                &mut map,
                BabelPackage::Debian(DebianPackage::Base(names[i].clone())),
                BabelVersionSet::Debian(Range::full()),
            );
            i = i + 1;
        }
    } else if same_text(os, "alpine") {
        let ghost items = texts(names@).map_values(
            |n: Seq<char>| (
                PackageModel::Alpine(AlpineModel::Base(n)),
                SetModel::Alpine(full_range()),
            ),
        );
        let mut i: usize = 0;
        while i < names.len()
            invariant
                i <= names.len(),
                items == texts(names@).map_values(
                    |n: Seq<char>| (
                        PackageModel::Alpine(AlpineModel::Base(n)),
                        SetModel::Alpine(full_range()),
                    ),
                ),
                collect(items) == put_all_from(constraint_models(map@), items, i as int),
            decreases names.len() - i,
        {
            assert(texts(names@)[i as int] == names@[i as int]@);
            put_constraint(
                &mut map,
                BabelPackage::Alpine(AlpinePackage::Base(names[i].clone())),
                BabelVersionSet::Alpine(Range::full()),
            );
            i = i + 1;
        }
    }
    map
}

/// Lifts constraints on OPAM packages into the unified layer.
fn lift_opam<'a>(c: &Vec<(OpamPackage, Range<OpamVersion>)>) -> (r: Vec<
    (BabelPackage<'a>, BabelVersionSet),
>)
    ensures
        constraint_models(r@) == lifted_opam(crate::opam::deps::constraint_models(c@)),
{
    let mut out: Vec<(BabelPackage<'a>, BabelVersionSet)> = Vec::new();
    let mut i: usize = 0;
    while i < c.len()
        invariant
            i <= c.len(),
            out@.len() == i,
            forall|j: int|
                0 <= j < i ==> out@[j].0@ == PackageModel::Opam(c@[j].0@) && out@[j].1@
                    == SetModel::Opam(c@[j].1@),
        decreases c.len() - i,
    {
        out.push((BabelPackage::Opam(c[i].0.clone()), BabelVersionSet::Opam(c[i].1.duplicate())));
        i = i + 1;
    }
    assert(constraint_models(out@) =~= lifted_opam(crate::opam::deps::constraint_models(c@)));
    out
}

/// Lifts constraints on Debian packages into the unified layer.
fn lift_debian<'a>(c: &Vec<(DebianPackage, Range<DebianVersion>)>) -> (r: Vec<
    (BabelPackage<'a>, BabelVersionSet),
>)
    ensures
        constraint_models(r@) == lifted_debian(crate::debian::deps::constraint_models(c@)),
{
    let mut out: Vec<(BabelPackage<'a>, BabelVersionSet)> = Vec::new();
    let mut i: usize = 0;
    while i < c.len()
        invariant
            i <= c.len(),
            out@.len() == i,
            forall|j: int|
                0 <= j < i ==> out@[j].0@ == PackageModel::Debian(c@[j].0@) && out@[j].1@
                    == SetModel::Debian(c@[j].1@),
        decreases c.len() - i,
    {
        out.push(
            (BabelPackage::Debian(c[i].0.clone()), BabelVersionSet::Debian(c[i].1.duplicate())),
        );
        i = i + 1;
    }
    assert(constraint_models(out@) =~= lifted_debian(crate::debian::deps::constraint_models(c@)));
    out
}

/// Lifts constraints on Alpine packages into the unified layer.
fn lift_alpine<'a>(c: &Vec<(AlpinePackage, Range<AlpineVersion>)>) -> (r: Vec<
    (BabelPackage<'a>, BabelVersionSet),
>)
    ensures
        constraint_models(r@) == lifted_alpine(crate::alpine::deps::constraint_models(c@)),
{
    let mut out: Vec<(BabelPackage<'a>, BabelVersionSet)> = Vec::new();
    let mut i: usize = 0;
    while i < c.len()
        invariant
            i <= c.len(),
            out@.len() == i,
            forall|j: int|
                0 <= j < i ==> out@[j].0@ == PackageModel::Alpine(c@[j].0@) && out@[j].1@
                    == SetModel::Alpine(c@[j].1@),
        decreases c.len() - i,
    {
        out.push(
            (BabelPackage::Alpine(c[i].0.clone()), BabelVersionSet::Alpine(c[i].1.duplicate())),
        );
        i = i + 1;
    }
    assert(constraint_models(out@) =~= lifted_alpine(crate::alpine::deps::constraint_models(c@)));
    out
}

/// Lifts constraints on Cargo packages into the unified layer.
fn lift_cargo<'a>(c: &Vec<(Names<'a>, Range<CargoVersion>)>) -> (r: Vec<
    (BabelPackage<'a>, BabelVersionSet),
>)
    ensures
        constraint_models(r@) == lifted_cargo(crate::cargo::index::constraint_models(c@)),
{
    let mut out: Vec<(BabelPackage<'a>, BabelVersionSet)> = Vec::new();
    let mut i: usize = 0;
    while i < c.len()
        invariant
            i <= c.len(),
            out@.len() == i,
            forall|j: int|
                0 <= j < i ==> out@[j].0@ == PackageModel::Cargo(c@[j].0@) && out@[j].1@
                    == SetModel::Cargo(c@[j].1@),
        decreases c.len() - i,
    {
        out.push(
            (BabelPackage::Cargo(c[i].0.duplicate()), BabelVersionSet::Cargo(c[i].1.duplicate())),
        );
        i = i + 1;
    }
    assert(constraint_models(out@) =~= lifted_cargo(crate::cargo::index::constraint_models(c@)));
    out
}

impl<'a> BabelIndex<'a> {
    /// The versions of every package of every index go from the newest to
    /// the oldest.
    pub open spec fn wf(&self) -> bool {
        self.opam.wf() && self.debian.wf() && self.alpine.wf() && self.cargo.wf()
    }

    /// Whether the versions of every package of every index go from the
    /// newest to the oldest.
    pub fn is_well_formed(&self) -> (r: bool)
        ensures
            r == self.wf(),
    {
        self.opam.is_well_formed() && self.debian.is_well_formed()
            && self.alpine.is_well_formed() && self.cargo.is_well_formed()
    }

    /// The index over the indices of the ecosystems.
    pub fn new(opam: OpamIndex, debian: DebianIndex, alpine: AlpineIndex, cargo: CargoIndex<'a>) -> (r:
        Self)
        ensures
            r.opam == opam,
            r.debian == debian,
            r.alpine == alpine,
            r.cargo == cargo,
            !r.debug,
            !r.version_debug,
    {
        BabelIndex { opam, debian, alpine, cargo, debug: false, version_debug: false }
    }

    /// Turns the tracing of dependencies on or off.
    pub fn set_debug(&mut self, flag: bool)
        ensures
            final(self).debug == flag,
            final(self).version_debug == old(self).version_debug,
            final(self).opam == old(self).opam,
            final(self).debian == old(self).debian,
            final(self).alpine == old(self).alpine,
            final(self).cargo == old(self).cargo,
    {
        self.debug = flag;
    }

    /// Turns the tracing of version lists on or off.
    pub fn set_version_debug(&mut self, flag: bool)
        ensures
            final(self).version_debug == flag,
            final(self).debug == old(self).debug,
            final(self).opam == old(self).opam,
            final(self).debian == old(self).debian,
            final(self).alpine == old(self).alpine,
            final(self).cargo == old(self).cargo,
    {
        self.version_debug = flag;
    }

    /// The priority of a package in the search: all packages count alike.
    pub fn prioritize(&self, _package: &BabelPackage<'a>, _range: &BabelVersionSet) -> (r: u8)
        ensures
            r == 1,
    {
        1
    }

    /// The versions of `package`, in the order in which they are to be
    /// tried.
    pub fn list_versions(&self, ctx: &Context, package: &BabelPackage<'a>) -> (r: Vec<
        BabelVersion,
    >)
        ensures
            version_models(r@) == babel_versions(self, ctx@, package@),
    {
        let mut out: Vec<BabelVersion> = Vec::new();
        match package {
            BabelPackage::Root(children) => {
                proof {
                    lemma_root_model(*children);
                }
                out.push(BabelVersion::Singular);
                assert(version_models(out@) =~= seq![VersionModel::Singular]);
            },
            BabelPackage::Platform(PlatformPackage::OS) => {
                out.push(BabelVersion::Platform("debian".to_string()));
                out.push(BabelVersion::Platform("alpine".to_string()));
                assert(version_models(out@) =~= seq![
                    VersionModel::Platform("debian"@),
                    VersionModel::Platform("alpine"@),
                ]);
            },
            BabelPackage::Opam(OpamPackage::Depext { .. }) => {
                out.push(BabelVersion::Opam(OpamVersion("alpine".to_string())));
                out.push(BabelVersion::Opam(OpamVersion("debian".to_string())));
                assert(version_models(out@) =~= seq![
                    VersionModel::Opam("alpine"@),
                    VersionModel::Opam("debian"@),
                ]);
            },
            BabelPackage::Opam(pkg) => {
                let versions = self.opam.list_versions(ctx, pkg);
                let mut i: usize = 0;
                while i < versions.len()
                    invariant
                        i <= versions.len(),
                        out@.len() == i,
                        forall|j: int| 0 <= j < i ==> out@[j]@ == VersionModel::Opam(versions@[j]@),
                    decreases versions.len() - i,
                {
                    out.push(BabelVersion::Opam(OpamVersion(versions[i].0.clone())));
                    i = i + 1;
                }
                assert(version_models(out@) =~= crate::opam::context::version_texts(
                    versions@,
                ).map_values(|t: Seq<char>| VersionModel::Opam(t)));
            },
            BabelPackage::Debian(pkg) => {
                let versions = self.debian.list_versions(pkg);
                let mut i: usize = 0;
                while i < versions.len()
                    invariant
                        i <= versions.len(),
                        out@.len() == i,
                        forall|j: int|
                            0 <= j < i ==> out@[j]@ == VersionModel::Debian(versions@[j]@),
                    decreases versions.len() - i,
                {
                    out.push(BabelVersion::Debian(DebianVersion(versions[i].0.clone())));
                    i = i + 1;
                }
                assert(version_models(out@) =~= versions@.map_values(
                    |v: DebianVersion| v@,
                ).map_values(|t: Seq<char>| VersionModel::Debian(t)));
            },
            BabelPackage::Alpine(pkg) => {
                let versions = self.alpine.list_versions(pkg);
                let mut i: usize = 0;
                while i < versions.len()
                    invariant
                        i <= versions.len(),
                        out@.len() == i,
                        forall|j: int|
                            0 <= j < i ==> out@[j]@ == VersionModel::Alpine(versions@[j]@),
                    decreases versions.len() - i,
                {
                    out.push(BabelVersion::Alpine(AlpineVersion(versions[i].0.clone())));
                    i = i + 1;
                }
                assert(version_models(out@) =~= versions@.map_values(
                    |v: AlpineVersion| v@,
                ).map_values(|t: Seq<char>| VersionModel::Alpine(t)));
            },
            BabelPackage::Cargo(pkg) => {
                let versions = self.cargo.list_versions(pkg);
                let mut i: usize = 0;
                while i < versions.len()
                    invariant
                        i <= versions.len(),
                        out@.len() == i,
                        forall|j: int|
                            0 <= j < i ==> out@[j]@ == VersionModel::Cargo(versions@[j]@),
                    decreases versions.len() - i,
                {
                    out.push(BabelVersion::Cargo(crate::order::VersionOrder::duplicate(&versions[i])));
                    i = i + 1;
                }
                assert(version_models(out@) =~= versions@.map_values(
                    |v: CargoVersion| v@,
                ).map_values(|t: Seq<char>| VersionModel::Cargo(t)));
            },
        }
        out
    }

    /// The first listed version of `package` that lies in `set`.
    #[verifier::loop_isolation(false)]
    pub fn choose_version(
        &self,
        ctx: &Context,
        package: &BabelPackage<'a>,
        set: &BabelVersionSet,
    ) -> (r: Option<BabelVersion>)
        ensures
            match r {
                Some(v) => first_member(babel_versions(self, ctx@, package@), set@) == Some(v@),
                None => first_member(babel_versions(self, ctx@, package@), set@) is None,
            },
            r is Some <==> exists|i: int|
                0 <= i < babel_versions(self, ctx@, package@).len() && set_contains(
                    set@,
                    #[trigger] babel_versions(self, ctx@, package@)[i],
                ),
    {
        let versions = self.list_versions(ctx, package);
        let ghost models = version_models(versions@);
        proof {
            law_version_selection(models, set@);
        }
        let mut i: usize = 0;
        while i < versions.len()
            invariant
                i <= versions.len(),
                models == version_models(versions@),
                first_member_from(models, set@, 0) == first_member_from(models, set@, i as int),
            decreases versions.len() - i,
        {
            assert(models[i as int] == versions@[i as int]@);
            if set.contains(&versions[i]) {
                return Some(versions[i].clone());
            }
            i = i + 1;
        }
        None
    }

    /// The dependencies of `package` at `version`, unless the query was
    /// cancelled: then nothing is known, for the reason `cancelled`.
    pub fn get_dependencies_unless_cancelled(
        &self,
        ctx: &mut Context,
        package: &BabelPackage<'a>,
        version: &BabelVersion,
        cancelled: bool,
    ) -> (r: Result<Dependencies<BabelPackage<'a>, BabelVersionSet>, InternalError>)
        ensures
            dependencies_model(r) == cancellable_dependencies(
                self,
                old(ctx)@,
                package@,
                version@,
                cancelled,
            ).result,
            final(ctx)@ == cancellable_dependencies(
                self,
                old(ctx)@,
                package@,
                version@,
                cancelled,
            ).context,
    {
        if cancelled {
            Ok(Dependencies::Unavailable("cancelled".to_string()))
        } else {
            self.get_dependencies(ctx, package, version)
        }
    }

    /// The dependencies of `package` at `version`. What is learnt of OPAM
    /// variables and conflict classes on the way becomes known to `ctx`.
    pub fn get_dependencies(
        &self,
        ctx: &mut Context,
        package: &BabelPackage<'a>,
        version: &BabelVersion,
    ) -> (r: Result<Dependencies<BabelPackage<'a>, BabelVersionSet>, InternalError>)
        ensures
            dependencies_model(r) == babel_dependencies(self, old(ctx)@, package@, version@).result,
            final(ctx)@ == babel_dependencies(self, old(ctx)@, package@, version@).context,
    {
        match (package, version) {
            (BabelPackage::Root(children), _) => {
                proof {
                    lemma_root_model(*children);
                }
                let ghost items = constraint_models(children@);
                let ghost start = ctx@.variables;
                let mut i: usize = 0;
                while i < children.len()
                    invariant
                        i <= children.len(),
                        items == constraint_models(children@),
                        ctx@.conflicts == old(ctx)@.conflicts,
                        root_variables(items, 0, start) == root_variables(
                            items,
                            i as int,
                            ctx@.variables,
                        ),
                    decreases children.len() - i,
                {
                    assert(items[i as int] == (children@[i as int].0@, children@[i as int].1@));
                    match (&children[i].0, &children[i].1) {
                        (
                            BabelPackage::Opam(OpamPackage::Var(variable)),
                            BabelVersionSet::Opam(range),
                        ) => {
                            match range.as_singleton() {
                                Some(value) => {
                                    ctx.learn_variable(variable, value);
                                },
                                None => {},
                            }
                        },
                        _ => {},
                    }
                    i = i + 1;
                }
                Ok(Dependencies::Available(collect_constraints(children)))
            },
            (BabelPackage::Platform(PlatformPackage::OS), BabelVersion::Platform(ver)) => {
                if same_text(ver.as_str(), "debian") || same_text(ver.as_str(), "alpine") {
                    Ok(Dependencies::Available(facts_of_platform(ver.as_str())))
                } else {
                    Err(InternalError::UnknownPlatform)
                }
            },
            (BabelPackage::Opam(OpamPackage::Depext { names, formula }), BabelVersion::Opam(ver)) => {
                if contains_os_condition(formula, ver.0.as_str()) {
                    Ok(Dependencies::Available(packages_of_system(names, ver.0.as_str())))
                } else {
                    let none: Vec<(BabelPackage<'a>, BabelVersionSet)> = Vec::new();
                    assert(constraint_models(none@) =~= Seq::empty());
                    Ok(Dependencies::Available(none))
                }
            },
            (BabelPackage::Opam(pkg), BabelVersion::Opam(ver)) => {
                match self.opam.get_dependencies(ctx, pkg, ver) {
                    Ok(Dependencies::Unavailable(m)) => Ok(Dependencies::Unavailable(m)),
                    Ok(Dependencies::Available(dc)) => Ok(Dependencies::Available(lift_opam(&dc))),
                    Err(e) => Err(e),
                }
            },
            (BabelPackage::Debian(pkg), BabelVersion::Debian(ver)) => {
                match self.debian.get_dependencies(pkg, ver) {
                    Dependencies::Unavailable(m) => Ok(Dependencies::Unavailable(m)),
                    Dependencies::Available(dc) => Ok(Dependencies::Available(lift_debian(&dc))),
                }
            },
            (BabelPackage::Alpine(pkg), BabelVersion::Alpine(ver)) => {
                match self.alpine.get_dependencies(pkg, ver) {
                    Dependencies::Unavailable(m) => Ok(Dependencies::Unavailable(m)),
                    Dependencies::Available(dc) => Ok(Dependencies::Available(lift_alpine(&dc))),
                }
            },
            (BabelPackage::Cargo(pkg), BabelVersion::Cargo(ver)) => {
                match self.cargo.get_dependencies(pkg, ver) {
                    Dependencies::Unavailable(m) => Ok(Dependencies::Unavailable(m)),
                    Dependencies::Available(dc) => Ok(Dependencies::Available(lift_cargo(&dc))),
                }
            },
            _ => Err(InternalError::ForeignVersion),
        }
    }
}

} // verus!
