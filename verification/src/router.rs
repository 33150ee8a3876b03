//! The surface of the resolver: what a request asks for, what is handed to
//! the solver for it, and what of a solution is shown.

use crate::alpine::deps::{AlpinePackage, PackageModel as AlpineModel};
use crate::alpine::version::AlpineVersion;
use crate::babel::deps::{
    constraint_models, BabelPackage, ConstraintsModel, PackageModel, PlatformPackage,
};
use crate::babel::index::{babel_dependencies, babel_versions, dependencies_model, BabelIndex};
use crate::constraints::{position, position_from, Dependencies, Known};
use crate::opam::context::{Context, ContextModel};
use crate::babel::version::{
    set_contains, set_singleton, version_text, BabelVersion, BabelVersionSet, SetModel,
    VersionModel,
};
use crate::cargo::names::{Names, NamesModel};
use crate::cargo::version::{bucket_of, semver_numbers, CargoVersion};
use crate::debian::deps::{DebianPackage, PackageModel as DebianModel};
use crate::debian::version::DebianVersion;
use crate::error::SolverError;
use crate::opam::deps::{OpamPackage, PackageModel as OpamModel};
use crate::opam::version::OpamVersion;
use crate::range::singleton_range;
use crate::text::{chars_of, same_text};
use vstd::prelude::*;
use vstd::string::StringExecFns;

verus! {

/// The resolver as a server of tools.
#[derive(Clone, Copy, Debug, PartialEq, Eq)]
pub struct BabelRouter;

/// A tool of the server.
#[derive(Clone, Copy, Debug, PartialEq, Eq, Structural)]
pub enum Tool {
    SearchPackage,
    ResolveDependencies,
}

/// A call of a tool with the parameters it needs.
#[derive(Debug, PartialEq, Eq)]
pub enum ToolCall {
    Search { query: String },
    Resolve { ecosystem: String, package: String, version: String, platform: Option<String> },
}

/// What a [`ToolCall`] stands for.
pub enum ToolCallModel {
    Search { query: Seq<char> },
    Resolve {
        ecosystem: Seq<char>,
        package: Seq<char>,
        version: Seq<char>,
        platform: Option<Seq<char>>,
    },
}

/// Why a call of a tool is refused.
#[derive(Debug, PartialEq, Eq)]
pub enum ToolError {
    /// A parameter that the tool needs is missing; the name of the
    /// parameter is attached.
    InvalidParameters(String),
    /// No tool has the name that is attached.
    NotFound(String),
}

/// What a [`ToolError`] stands for.
pub enum ToolErrorModel {
    InvalidParameters(Seq<char>),
    NotFound(Seq<char>),
}

/// What the server offers.
#[derive(Clone, Copy, Debug, PartialEq, Eq, Structural)]
pub struct ServerCapabilities {
    pub tools: bool,
    pub resources: bool,
    pub prompts: bool,
}

/// A resource that was asked for is not there; what is said of it is
/// attached.
#[derive(Debug, PartialEq, Eq)]
pub enum ResourceError {
    NotFound(String),
}

/// A prompt that was asked for is not there; what is said of it is attached.
#[derive(Debug, PartialEq, Eq)]
pub enum PromptError {
    NotFound(String),
}

/// The parameters of a call, each present or not.
pub struct Arguments<'a> {
    pub query: Option<&'a str>,
    pub ecosystem: Option<&'a str>,
    pub package: Option<&'a str>,
    pub version: Option<&'a str>,
    pub platform: Option<&'a str>,
}

/// The text of a parameter that may be absent.
pub open spec fn text_of(s: Option<&str>) -> Option<Seq<char>> {
    match s {
        Some(t) => Some(t@),
        None => None,
    }
}

/// The tool that a name names.
pub open spec fn tool_of(name: Seq<char>) -> Option<Tool> {
    if name == "search_package"@ {
        Some(Tool::SearchPackage)
    } else if name == "resolve_dependencies"@ {
        Some(Tool::ResolveDependencies)
    } else {
        None
    }
}

/// The call that a tool name and its parameters make, or why there is none:
/// the name has to be that of a tool, and the tool's parameters have to be
/// there; the first parameter that is missing is reported.
pub open spec fn call_of(
    name: Seq<char>,
    query: Option<Seq<char>>,
    ecosystem: Option<Seq<char>>,
    package: Option<Seq<char>>,
    version: Option<Seq<char>>,
    platform: Option<Seq<char>>,
) -> Result<ToolCallModel, ToolErrorModel> {
    match tool_of(name) {
        None => Err(ToolErrorModel::NotFound(name)),
        Some(Tool::SearchPackage) => match query {
            Some(q) => Ok(ToolCallModel::Search { query: q }),
            None => Err(ToolErrorModel::InvalidParameters("query"@)),
        },
        Some(Tool::ResolveDependencies) => match (ecosystem, package, version) {
            (None, _, _) => Err(ToolErrorModel::InvalidParameters("ecosystem"@)),
            (Some(_), None, _) => Err(ToolErrorModel::InvalidParameters("package"@)),
            (Some(_), Some(_), None) => Err(ToolErrorModel::InvalidParameters("version"@)),
            (Some(e), Some(p), Some(v)) => Ok(
                ToolCallModel::Resolve { ecosystem: e, package: p, version: v, platform },
            ),
        },
    }
}

/// The model of a planned call.
pub open spec fn call_model(r: Result<ToolCall, ToolError>) -> Result<
    ToolCallModel,
    ToolErrorModel,
> {
    match r {
        Ok(ToolCall::Search { query }) => Ok(ToolCallModel::Search { query: query@ }),
        Ok(ToolCall::Resolve { ecosystem, package, version, platform }) => Ok(
            ToolCallModel::Resolve {
                ecosystem: ecosystem@,
                package: package@,
                version: version@,
                platform: match platform {
                    Some(p) => Some(p@),
                    None => None,
                },
            },
        ),
        Err(ToolError::InvalidParameters(p)) => Err(ToolErrorModel::InvalidParameters(p@)),
        Err(ToolError::NotFound(n)) => Err(ToolErrorModel::NotFound(n@)),
    }
}

impl BabelRouter {
    /// The server.
    pub fn new() -> (r: Self) {
        BabelRouter
    }

    /// The name of the server.
    pub fn name(&self) -> (r: String)
        ensures
            r@ == "babel"@,
    {
        "babel".to_string()
    }

    /// What the server tells its clients about itself.
    pub fn instructions(&self) -> (r: String)
        ensures
            r@
                == "This server provides tools to search for packages and resolve dependencies in the Babel package manager."@,
    {
        "This server provides tools to search for packages and resolve dependencies in the Babel package manager.".to_string()
    }

    /// What the server offers: tools, and neither resources nor prompts.
    pub fn capabilities(&self) -> (r: ServerCapabilities)
        ensures
            r == (ServerCapabilities { tools: true, resources: false, prompts: false }),
    {
        ServerCapabilities { tools: true, resources: false, prompts: false }
    }

    /// The resources of the server: none.
    pub fn list_resources(&self) -> (r: Vec<String>)
        ensures
            r@.len() == 0,
    {
        Vec::new()
    }

    /// The prompts of the server: none.
    pub fn list_prompts(&self) -> (r: Vec<String>)
        ensures
            r@.len() == 0,
    {
        Vec::new()
    }

    /// Reads a resource. The server has none.
    pub fn read_resource(&self, uri: &str) -> (r: Result<String, ResourceError>)
        ensures
            r matches Err(ResourceError::NotFound(m)) && m@ == "Resource "@ + uri@
                + " not found"@,
    {
        let mut message = "Resource ".to_string();
        message.append(uri);
        message.append(" not found");
        Err(ResourceError::NotFound(message))
    }

    /// Gets a prompt. The server has none.
    pub fn get_prompt(&self, prompt_name: &str) -> (r: Result<String, PromptError>)
        ensures
            r matches Err(PromptError::NotFound(m)) && m@ == "Prompt "@ + prompt_name@
                + " not found"@,
    {
        let mut message = "Prompt ".to_string();
        message.append(prompt_name);
        message.append(" not found");
        Err(PromptError::NotFound(message))
    }

    /// The tools of the server, in the order in which they are listed.
    pub fn list_tools(&self) -> (r: Vec<Tool>)
        ensures
            r@ == seq![Tool::SearchPackage, Tool::ResolveDependencies],
    {
        let mut tools: Vec<Tool> = Vec::new();
        tools.push(Tool::SearchPackage);
        tools.push(Tool::ResolveDependencies);
        assert(tools@ =~= seq![Tool::SearchPackage, Tool::ResolveDependencies]);
        tools
    }

    /// The tool that a name names.
    pub fn find_tool(&self, tool_name: &str) -> (r: Option<Tool>)
        ensures
            r == tool_of(tool_name@),
    {
        if same_text(tool_name, "search_package") {
            Some(Tool::SearchPackage)
        } else if same_text(tool_name, "resolve_dependencies") {
            Some(Tool::ResolveDependencies)
        } else {
            None
        }
    }

    /// Decides what a call of the tool `tool_name` with `arguments` is to
    /// do, or why it is refused.
    pub fn call_tool(&self, tool_name: &str, arguments: &Arguments) -> (r: Result<
        ToolCall,
        ToolError,
    >)
        ensures
            call_model(r) == call_of(
                tool_name@,
                text_of(arguments.query),
                text_of(arguments.ecosystem),
                text_of(arguments.package),
                text_of(arguments.version),
                text_of(arguments.platform),
            ),
    {
        match self.find_tool(tool_name) {
            None => Err(ToolError::NotFound(tool_name.to_string())),
            Some(Tool::SearchPackage) => match arguments.query {
                Some(q) => Ok(ToolCall::Search { query: q.to_string() }),
                None => Err(ToolError::InvalidParameters("query".to_string())),
            },
            Some(Tool::ResolveDependencies) => {
                let ecosystem = match arguments.ecosystem {
                    Some(e) => e.to_string(),
                    None => {
                        return Err(ToolError::InvalidParameters("ecosystem".to_string()));
                    },
                };
                let package = match arguments.package {
                    Some(p) => p.to_string(),
                    None => {
                        return Err(ToolError::InvalidParameters("package".to_string()));
                    },
                };
                let version = match arguments.version {
                    Some(v) => v.to_string(),
                    None => {
                        return Err(ToolError::InvalidParameters("version".to_string()));
                    },
                };
                let platform = match arguments.platform {
                    Some(p) => Some(p.to_string()),
                    None => None,
                };
                Ok(ToolCall::Resolve { ecosystem, package, version, platform })
            },
        }
    }
}

impl Tool {
    /// The name of the tool.
    pub fn name(&self) -> (r: String)
        ensures
            r@ == match self {
                Tool::SearchPackage => "search_package"@,
                Tool::ResolveDependencies => "resolve_dependencies"@,
            },
    {
        match self {
            Tool::SearchPackage => "search_package".to_string(),
            Tool::ResolveDependencies => "resolve_dependencies".to_string(),
        }
    }

    /// What the tool does, in a sentence.
    pub fn description(&self) -> (r: String)
        ensures
            r@ == match self {
                Tool::SearchPackage => "Search for a package by name"@,
                Tool::ResolveDependencies => "Resolve dependencies for a package"@,
            },
    {
        match self {
            Tool::SearchPackage => "Search for a package by name".to_string(),
            Tool::ResolveDependencies => "Resolve dependencies for a package".to_string(),
        }
    }
}

/// What the search for a package answers: the search is not there yet.
#[derive(Clone, Debug, PartialEq, Eq)]
pub struct SearchAnswer {
    pub status: String,
    pub message: String,
    pub query: String,
}

/// What the server says of itself to a client.
#[derive(Clone, Debug, PartialEq, Eq)]
pub struct ServerInfo {
    pub capabilities: ServerCapabilities,
    pub instructions: String,
}

/// The resolver as a handler of requests.
#[derive(Clone, Copy, Debug, PartialEq, Eq)]
pub struct BabelHandler;

impl BabelHandler {
    /// The handler.
    pub fn new() -> (r: Self) {
        BabelHandler
    }

    /// What the handler says of itself: it offers tools, and it describes
    /// itself as the router does.
    pub fn get_info(&self) -> (r: ServerInfo)
        ensures
            r.capabilities == (ServerCapabilities {
                tools: true,
                resources: false,
                prompts: false,
            }),
            r.instructions@
                == "This server provides tools to search for packages and resolve dependencies in the Babel package manager."@,
    {
        let router = BabelRouter::new();
        ServerInfo { capabilities: router.capabilities(), instructions: router.instructions() }
    }

    /// Searches for a package by name. The search is not there yet, and the
    /// answer says so.
    pub fn search_package(&self, query: &str) -> (r: SearchAnswer)
        ensures
            r.status@ == "not_implemented"@,
            r.message@ == "Package search not yet implemented"@,
            r.query@ == query@,
    {
        SearchAnswer {
            status: "not_implemented".to_string(),
            message: "Package search not yet implemented".to_string(),
            query: query.to_string(),
        }
    }

    /// What is handed to the solver for a request.
    pub fn resolve_dependencies<'a>(
        &self,
        ecosystem: &str,
        package: &str,
        version: &str,
        platform: Option<&str>,
    ) -> (r: Result<(BabelPackage<'a>, BabelVersion), SolverError>)
        ensures
            query_model(r) == query_of(ecosystem@, package@, version@, text_of(platform)),
    {
        resolve_package_dependencies(ecosystem, package, version, platform)
    }
}

/// The platform is one that queries can be resolved for.
pub open spec fn is_platform(name: Seq<char>) -> bool {
    name == "alpine"@ || name == "debian"@
}

/// The version that a text spells in an ecosystem. Every text is a version
/// of OPAM, Debian and Alpine; a Cargo version has to be one that the SemVer
/// grammar accepts.
pub open spec fn version_of(ecosystem: Seq<char>, text: Seq<char>) -> Result<
    VersionModel,
    SolverError,
> {
    if ecosystem == "opam"@ {
        Ok(VersionModel::Opam(text))
    } else if ecosystem == "debian"@ {
        Ok(VersionModel::Debian(text))
    } else if ecosystem == "alpine"@ {
        Ok(VersionModel::Alpine(text))
    } else if ecosystem == "cargo"@ {
        if semver_numbers(text) is Some {
            Ok(VersionModel::Cargo(text))
        } else {
            Err(SolverError::InvalidVersion)
        }
    } else {
        Err(SolverError::UnsupportedEcosystem)
    }
}

/// The name of the ecosystem of a version of a repository.
pub open spec fn ecosystem_name(v: VersionModel) -> Seq<char> {
    match v {
        VersionModel::Opam(_) => "opam"@,
        VersionModel::Debian(_) => "debian"@,
        VersionModel::Alpine(_) => "alpine"@,
        VersionModel::Cargo(_) => "cargo"@,
        VersionModel::Platform(_) => "platform"@,
        VersionModel::Singular => "root"@,
    }
}

/// A version of a repository is one that a text spells in its ecosystem.
pub open spec fn is_repository_version(v: VersionModel) -> bool {
    match v {
        VersionModel::Opam(_) | VersionModel::Debian(_) | VersionModel::Alpine(_) => true,
        VersionModel::Cargo(t) => semver_numbers(t) is Some,
        _ => false,
    }
}

/// Writing a version of a repository and reading the text again in its
/// ecosystem gives the version back.
pub proof fn law_version_round_trip(v: VersionModel)
    requires
        is_repository_version(v),
    ensures
        version_of(ecosystem_name(v), version_text(v)) == Ok::<VersionModel, SolverError>(v),
{
    reveal_strlit("opam");
    reveal_strlit("debian");
    reveal_strlit("alpine");
    reveal_strlit("cargo");
    assert("opam"@.len() == 4 && "debian"@.len() == 6 && "cargo"@.len() == 5);
    assert("debian"@[0] == 'd' && "alpine"@[0] == 'a');
}

/// Reading a text as a version and writing the version gives the text back.
pub proof fn law_text_round_trip(ecosystem: Seq<char>, text: Seq<char>)
    requires
        version_of(ecosystem, text) is Ok,
    ensures
        version_text(version_of(ecosystem, text)->Ok_0) == text,
        is_repository_version(version_of(ecosystem, text)->Ok_0),
{
}

/// Reads a version in an ecosystem.
pub fn parse_version(ecosystem: &str, text: &str) -> (r: Result<BabelVersion, SolverError>)
    ensures
        match r {
            Ok(v) => version_of(ecosystem@, text@) == Ok::<VersionModel, SolverError>(v@),
            Err(e) => version_of(ecosystem@, text@) == Err::<VersionModel, SolverError>(e),
        },
{
    if same_text(ecosystem, "opam") {
        Ok(BabelVersion::Opam(OpamVersion(text.to_string())))
    } else if same_text(ecosystem, "debian") {
        Ok(BabelVersion::Debian(DebianVersion(text.to_string())))
    } else if same_text(ecosystem, "alpine") {
        Ok(BabelVersion::Alpine(AlpineVersion(text.to_string())))
    } else if same_text(ecosystem, "cargo") {
        match CargoVersion::parse(text) {
            Ok(ver) => Ok(BabelVersion::Cargo(ver)),
            Err(_) => Err(SolverError::InvalidVersion),
        }
    } else {
        Err(SolverError::UnsupportedEcosystem)
    }
}

/// The package and the set of versions that a request names in its
/// ecosystem: the package of that name at exactly that version. A Cargo
/// package is the crate in the compatibility class of the version.
pub open spec fn requested(ecosystem: Seq<char>, package: Seq<char>, version: Seq<char>) -> Result<
    (PackageModel, VersionModel),
    SolverError,
> {
    if ecosystem == "opam"@ {
        Ok((PackageModel::Opam(OpamModel::Base(package)), VersionModel::Opam(version)))
    } else if ecosystem == "debian"@ {
        Ok((PackageModel::Debian(DebianModel::Base(package)), VersionModel::Debian(version)))
    } else if ecosystem == "alpine"@ {
        Ok((PackageModel::Alpine(AlpineModel::Base(package)), VersionModel::Alpine(version)))
    } else if ecosystem == "cargo"@ {
        match semver_numbers(version) {
            Some(n) => Ok(
                (
                    PackageModel::Cargo(NamesModel::Bucket(package, bucket_of(n.0, n.1, n.2), false)),
                    VersionModel::Cargo(version),
                ),
            ),
            None => Err(SolverError::InvalidVersion),
        }
    } else {
        Err(SolverError::UnsupportedEcosystem)
    }
}

/// What is handed to the solver for a request: the package and the version
/// to start from.
///
/// - A platform has to be `alpine` or `debian`; an ecosystem one of `opam`,
///   `debian`, `alpine` and `cargo`; a Cargo version one that the SemVer
///   grammar accepts. The platform is looked at first.
/// - Without platform, the solver starts from the requested package at the
///   requested version.
/// - With a platform, it starts from a root that depends on the requested
///   package at exactly that version and on the operating system at exactly
///   that platform.
pub open spec fn query_of(
    ecosystem: Seq<char>,
    package: Seq<char>,
    version: Seq<char>,
    platform: Option<Seq<char>>,
) -> Result<(PackageModel, VersionModel), SolverError> {
    match platform {
        Some(p) => if !is_platform(p) {
            Err(SolverError::UnsupportedPlatform)
        } else {
            match requested(ecosystem, package, version) {
                Ok((pkg, ver)) => Ok(
                    (
                        PackageModel::Root(
                            seq![
                                (pkg, set_singleton(ver)),
                                (
                                    PackageModel::Platform(PlatformPackage::OS),
                                    SetModel::Platform(singleton_range(p)),
                                ),
                            ],
                        ),
                        VersionModel::Singular,
                    ),
                ),
                Err(e) => Err(e),
            }
        },
        None => requested(ecosystem, package, version),
    }
}

/// The model of a query.
pub open spec fn query_model(r: Result<(BabelPackage, BabelVersion), SolverError>) -> Result<
    (PackageModel, VersionModel),
    SolverError,
> {
    match r {
        Ok((p, v)) => Ok((p@, v@)),
        Err(e) => Err(e),
    }
}

/// The package and the version that a request names in its ecosystem.
pub fn requested_package<'a>(ecosystem: &str, package: &str, version: &str) -> (r: Result<
    (BabelPackage<'a>, BabelVersion),
    SolverError,
>)
    ensures
        query_model(r) == requested(ecosystem@, package@, version@),
{
    if same_text(ecosystem, "opam") {
        Ok(
            (
                BabelPackage::Opam(OpamPackage::Base(package.to_string())),
                BabelVersion::Opam(OpamVersion(version.to_string())),
            ),
        )
    } else if same_text(ecosystem, "debian") {
        Ok(
            (
                BabelPackage::Debian(DebianPackage::Base(package.to_string())),
                BabelVersion::Debian(DebianVersion(version.to_string())),
            ),
        )
    } else if same_text(ecosystem, "alpine") {
        Ok(
            (
                BabelPackage::Alpine(AlpinePackage::Base(package.to_string())),
                BabelVersion::Alpine(AlpineVersion(version.to_string())),
            ),
        )
    } else if same_text(ecosystem, "cargo") {
        match CargoVersion::parse(version) {
            Ok(ver) => {
                let compat = ver.compatibility();
                Ok(
                    (
                        BabelPackage::Cargo(Names::Bucket(package.to_string(), compat, false)),
                        BabelVersion::Cargo(ver),
                    ),
                )
            },
            Err(_) => Err(SolverError::InvalidVersion),
        }
    } else {
        Err(SolverError::UnsupportedEcosystem)
    }
}

/// What is handed to the solver for a request.
pub fn resolve_package_dependencies<'a>(
    ecosystem: &str,
    package: &str,
    version: &str,
    platform: Option<&str>,
) -> (r: Result<(BabelPackage<'a>, BabelVersion), SolverError>)
    ensures
        query_model(r) == query_of(ecosystem@, package@, version@, text_of(platform)),
{
    match platform {
        Some(platform_name) => {
            if !same_text(platform_name, "alpine") && !same_text(platform_name, "debian") {
                return Err(SolverError::UnsupportedPlatform);
            }
            match requested_package(ecosystem, package, version) {
                Ok((dep_package, dep_version)) => {
                    let mut children: Vec<(BabelPackage<'a>, BabelVersionSet)> = Vec::new();
                    let set = BabelVersionSet::singleton(dep_version);
                    let os = BabelVersionSet::singleton(
                        BabelVersion::Platform(platform_name.to_string()),
                    );
                    children.push((dep_package, set));
                    children.push((BabelPackage::Platform(PlatformPackage::OS), os));
                    proof {
                        crate::babel::deps::lemma_root_model(children);
                        assert(constraint_models(children@) =~= seq![
                            (dep_package@, set@),
                            (PackageModel::Platform(PlatformPackage::OS), os@),
                        ]);
                    }
                    Ok((BabelPackage::Root(children), BabelVersion::Singular))
                },
                Err(e) => Err(e),
            }
        },
        None => requested_package(ecosystem, package, version),
    }
}

/// One line of the answer to a request: a package of a repository with the
/// version that was selected for it.
#[derive(Clone, Debug, PartialEq, Eq)]
pub struct ResolvedDependency {
    pub ecosystem: String,
    pub name: String,
    pub version: String,
}

/// What a [`ResolvedDependency`] stands for.
pub struct ResolvedModel {
    pub ecosystem: Seq<char>,
    pub name: Seq<char>,
    pub version: Seq<char>,
}

impl View for ResolvedDependency {
    type V = ResolvedModel;

    open spec fn view(&self) -> ResolvedModel {
        ResolvedModel { ecosystem: self.ecosystem@, name: self.name@, version: self.version@ }
    }
}

/// The text starts with `so:`, the mark of a shared object.
pub open spec fn is_shared_object(name: Seq<char>) -> bool {
    name.len() >= 3 && name[0] == 's' && name[1] == 'o' && name[2] == ':'
}

/// The ecosystem and the name under which a selected package is shown, if
/// it is shown. Shown are the packages of the repositories: OPAM, Debian and
/// Alpine packages and the crates of Cargo. Shared objects of Alpine and all
/// packages that only the resolution needs are left out.
pub open spec fn shown_as(p: PackageModel) -> Option<(Seq<char>, Seq<char>)> {
    match p {
        PackageModel::Opam(OpamModel::Base(name)) => Some(("opam"@, name)),
        PackageModel::Debian(DebianModel::Base(name)) => Some(("debian"@, name)),
        PackageModel::Alpine(AlpineModel::Base(name)) => if is_shared_object(name) {
            None
        } else {
            Some(("alpine"@, name))
        },
        PackageModel::Cargo(NamesModel::Bucket(name, _, _)) => Some(("cargo"@, name)),
        _ => None,
    }
}

/// The lines that the entries `solution[i..]` of a solution give, in their
/// order.
pub open spec fn shown_from(solution: Seq<(PackageModel, VersionModel)>, i: int) -> Seq<
    ResolvedModel,
>
    decreases solution.len() - i,
{
    if i < 0 || i >= solution.len() {
        Seq::empty()
    } else {
        match shown_as(solution[i].0) {
            Some((ecosystem, name)) => seq![
                ResolvedModel { ecosystem, name, version: version_text(solution[i].1) },
            ] + shown_from(solution, i + 1),
            None => shown_from(solution, i + 1),
        }
    }
}

/// The models of a solution.
pub open spec fn solution_models(solution: Seq<(BabelPackage, BabelVersion)>) -> Seq<
    (PackageModel, VersionModel),
> {
    solution.map_values(|e: (BabelPackage, BabelVersion)| (e.0@, e.1@))
}

/// The models of a list of lines.
pub open spec fn resolved_models(lines: Seq<ResolvedDependency>) -> Seq<ResolvedModel> {
    lines.map_values(|l: ResolvedDependency| l@)
}

/// Whether a name is that of a shared object.
pub fn shared_object(name: &str) -> (r: bool)
    ensures
        r == is_shared_object(name@),
{
    let c = chars_of(name);
    c.len() >= 3 && c[0] == 's' && c[1] == 'o' && c[2] == ':'
}

/// The line for one selected package, if it is shown.
fn show<'a>(package: &BabelPackage<'a>, version: &BabelVersion) -> (r: Option<ResolvedDependency>)
    ensures
        match r {
            Some(line) => shown_as(package@) == Some((line@.ecosystem, line@.name))
                && line@.version == version_text(version@),
            None => shown_as(package@) is None,
        },
{
    match package {
        BabelPackage::Opam(OpamPackage::Base(name)) => Some(
            ResolvedDependency {
                ecosystem: "opam".to_string(),
                name: name.clone(),
                version: version.to_string(),
            },
        ),
        BabelPackage::Debian(DebianPackage::Base(name)) => Some(
            ResolvedDependency {
                ecosystem: "debian".to_string(),
                name: name.clone(),
                version: version.to_string(),
            },
        ),
        BabelPackage::Alpine(AlpinePackage::Base(name)) => {
            if shared_object(name.as_str()) {
                None
            } else {
                Some(
                    ResolvedDependency {
                        ecosystem: "alpine".to_string(),
                        name: name.clone(),
                        version: version.to_string(),
                    },
                )
            }
        },
        BabelPackage::Cargo(Names::Bucket(name, _, _)) => Some(
            ResolvedDependency {
                ecosystem: "cargo".to_string(),
                name: name.clone(),
                version: version.to_string(),
            },
        ),
        BabelPackage::Root(children) => {
            proof {
                crate::babel::deps::lemma_root_model(*children);
            }
            None
        },
        _ => None,
    }
}

/// The lines of the answer for a solution: one for each selected package of
/// a repository, in the order of the solution.
pub fn present_solution<'a>(solution: &Vec<(BabelPackage<'a>, BabelVersion)>) -> (r: Vec<
    ResolvedDependency,
>)
    ensures
        resolved_models(r@) == shown_from(solution_models(solution@), 0),
{
    let ghost models = solution_models(solution@);
    let mut out: Vec<ResolvedDependency> = Vec::new();
    let mut i: usize = 0;
    assert(resolved_models(out@) + shown_from(models, 0) =~= shown_from(models, 0));
    while i < solution.len()
        invariant
            i <= solution.len(),
            models == solution_models(solution@),
            resolved_models(out@) + shown_from(models, i as int) == shown_from(models, 0),
        decreases solution.len() - i,
    {
        let ghost before = resolved_models(out@);
        let ghost rest = shown_from(models, i as int);
        assert(models[i as int] == (solution@[i as int].0@, solution@[i as int].1@));
        match show(&solution[i].0, &solution[i].1) {
            Some(line) => {
                out.push(line);
                assert(resolved_models(out@) =~= before.push(line@));
                assert(resolved_models(out@) + shown_from(models, i + 1) =~= before + rest);
            },
            None => {},
        }
        i = i + 1;
    }
    assert(shown_from(models, i as int) =~= Seq::empty());
    assert(resolved_models(out@) + shown_from(models, i as int) =~= resolved_models(out@));
    out
}

/// No line is shown for a package that only the resolution needs, nor for a
/// shared object.
pub proof fn law_synthetic_never_shown(p: PackageModel)
    ensures
        shown_as(p) is Some ==> match p {
            PackageModel::Opam(q) => q is Base,
            PackageModel::Debian(q) => q is Base,
            PackageModel::Alpine(q) => q matches AlpineModel::Base(name) && !is_shared_object(name),
            PackageModel::Cargo(q) => q is Bucket,
            _ => false,
        },
{
}

/// The version that a solution selects for a package, if it selects one.
pub open spec fn selected(solution: Seq<(PackageModel, VersionModel)>, p: PackageModel) -> Option<
    VersionModel,
> {
    match position(solution, p) {
        Some(i) => Some(solution[i].1),
        None => None,
    }
}

/// A shared object of Alpine that one package provides: it is passed over in
/// favour of what it stands for.
pub open spec fn is_passed_over(index: &BabelIndex, ctx: ContextModel, p: PackageModel) -> bool {
    p matches PackageModel::Alpine(AlpineModel::Base(name)) && is_shared_object(name)
        && babel_versions(index, ctx, p).len() == 1
}

/// The name under which a package stands in the graph of a solution, if it
/// stands there: packages of the repositories with their ecosystem in
/// front, and the variables of OPAM.
pub open spec fn node_label(index: &BabelIndex, ctx: ContextModel, p: PackageModel) -> Option<
    Seq<char>,
> {
    match p {
        PackageModel::Opam(OpamModel::Base(name)) => Some("Opam "@ + name),
        PackageModel::Opam(OpamModel::Var(name)) => Some("Opam `"@ + name + "`"@),
        PackageModel::Debian(DebianModel::Base(name)) => Some("Debian "@ + name),
        PackageModel::Alpine(AlpineModel::Base(name)) => if is_passed_over(index, ctx, p) {
            None
        } else {
            Some("Alpine "@ + name)
        },
        PackageModel::Cargo(NamesModel::Bucket(name, _, _)) => Some("Cargo "@ + name),
        _ => None,
    }
}

/// A node of the graph of a solution: the label of a package and the version
/// selected for it.
pub type Node = (Seq<char>, VersionModel);

/// The list with `node` at its end, unless it holds the node already.
pub open spec fn with_node(nodes: Seq<Node>, node: Node) -> Seq<Node> {
    if nodes.contains(node) {
        nodes
    } else {
        nodes.push(node)
    }
}

/// The list with each of `more[i..]` added in turn.
pub open spec fn with_nodes(nodes: Seq<Node>, more: Seq<Node>, i: int) -> Seq<Node>
    decreases more.len() - i,
{
    if i < 0 || i >= more.len() {
        nodes
    } else {
        with_nodes(with_node(nodes, more[i]), more, i + 1)
    }
}

/// The nodes that `package` at `version` depends on in the graph of a
/// solution: the packages of its dependencies that stand in the graph, and,
/// through those that do not, the nodes that they depend on in turn, down to
/// `depth` steps. Dependencies that the solution does not select are passed
/// over.
pub open spec fn resolved_nodes(
    index: &BabelIndex,
    ctx: ContextModel,
    solution: Seq<(PackageModel, VersionModel)>,
    package: PackageModel,
    version: VersionModel,
    depth: nat,
) -> Seq<Node>
    decreases depth, 2nat, 0nat,
{
    match babel_dependencies(index, ctx, package, version).result {
        Ok(Known::Available(constraints)) => resolved_from(
            index,
            ctx,
            solution,
            constraints,
            0,
            depth,
            Seq::empty(),
        ),
        _ => Seq::empty(),
    }
}

/// The nodes of the dependencies `constraints[i..]`, added to `nodes`.
pub open spec fn resolved_from(
    index: &BabelIndex,
    ctx: ContextModel,
    solution: Seq<(PackageModel, VersionModel)>,
    constraints: ConstraintsModel,
    i: int,
    depth: nat,
    nodes: Seq<Node>,
) -> Seq<Node>
    decreases depth, 1nat, constraints.len() - i,
{
    if i < 0 || i >= constraints.len() {
        nodes
    } else {
        let dep = constraints[i].0;
        let next = match selected(solution, dep) {
            None => nodes,
            Some(v) => match node_label(index, ctx, dep) {
                Some(label) => with_node(nodes, (label, v)),
                None => if depth > 0 {
                    with_nodes(
                        nodes,
                        resolved_nodes(index, ctx, solution, dep, v, (depth - 1) as nat),
                        0,
                    )
                } else {
                    nodes
                },
            },
        };
        resolved_from(index, ctx, solution, constraints, i + 1, depth, next)
    }
}

/// The models of a list of nodes.
pub open spec fn node_models(nodes: Seq<(String, BabelVersion)>) -> Seq<Node> {
    nodes.map_values(|n: (String, BabelVersion)| (n.0@, n.1@))
}

/// Finds the entry of a solution for `package`.
pub fn find_selected<'a>(
    solution: &Vec<(BabelPackage<'a>, BabelVersion)>,
    package: &BabelPackage<'a>,
) -> (r: Option<usize>)
    ensures
        match r {
            Some(i) => position(solution_models(solution@), package@) == Some(i as int) && i
                < solution.len(),
            None => position(solution_models(solution@), package@) is None,
        },
{
    let ghost m = solution_models(solution@);
    let mut i: usize = 0;
    while i < solution.len()
        invariant
            i <= solution.len(),
            m == solution_models(solution@),
            position(m, package@) == position_from(m, package@, i as int),
        decreases solution.len() - i,
    {
        assert(m[i as int].0 == solution@[i as int].0@);
        if solution[i].0.same(package) {
            return Some(i);
        }
        i = i + 1;
    }
    None
}

/// The label of a package in the graph of a solution.
pub fn label_of<'a>(index: &BabelIndex<'a>, ctx: &Context, package: &BabelPackage<'a>) -> (r:
    Option<String>)
    ensures
        match r {
            Some(label) => node_label(index, ctx@, package@) == Some(label@),
            None => node_label(index, ctx@, package@) is None,
        },
{
    match package {
        BabelPackage::Opam(OpamPackage::Base(name)) => {
            let mut s = "Opam ".to_string();
            s.append(name.as_str());
            Some(s)
        },
        BabelPackage::Opam(OpamPackage::Var(name)) => {
            let mut s = "Opam `".to_string();
            s.append(name.as_str());
            s.append("`");
            Some(s)
        },
        BabelPackage::Debian(DebianPackage::Base(name)) => {
            let mut s = "Debian ".to_string();
            s.append(name.as_str());
            Some(s)
        },
        BabelPackage::Alpine(AlpinePackage::Base(name)) => {
            let versions = index.list_versions(ctx, package);
            assert(crate::babel::index::version_models(versions@).len() == versions@.len());
            if shared_object(name.as_str()) && versions.len() == 1 {
                None
            } else {
                let mut s = "Alpine ".to_string();
                s.append(name.as_str());
                Some(s)
            }
        },
        BabelPackage::Cargo(Names::Bucket(name, _, _)) => {
            let mut s = "Cargo ".to_string();
            s.append(name.as_str());
            Some(s)
        },
        BabelPackage::Root(children) => {
            proof {
                crate::babel::deps::lemma_root_model(*children);
            }
            None
        },
        _ => None,
    }
}

/// Adds a node to a list, unless the list holds it.
fn add_node(nodes: &mut Vec<(String, BabelVersion)>, label: String, version: BabelVersion)
    ensures
        node_models(final(nodes)@) == with_node(node_models(old(nodes)@), (label@, version@)),
{
    let ghost before = node_models(nodes@);
    let mut i: usize = 0;
    while i < nodes.len()
        invariant
            i <= nodes.len(),
            before == node_models(nodes@),
            forall|j: int| 0 <= j < i ==> before[j] != (label@, version@),
        decreases nodes.len() - i,
    {
        assert(before[i as int] == (nodes@[i as int].0@, nodes@[i as int].1@));
        if nodes[i].0 == label && nodes[i].1.same(&version) {
            return ;
        }
        i = i + 1;
    }
    nodes.push((label, version));
    assert(node_models(nodes@) =~= before.push((label@, version@)));
}

/// Adds a list of nodes to a list.
fn add_nodes(nodes: &mut Vec<(String, BabelVersion)>, more: &Vec<(String, BabelVersion)>)
    ensures
        node_models(final(nodes)@) == with_nodes(node_models(old(nodes)@), node_models(more@), 0),
{
    let ghost start = node_models(nodes@);
    let ghost list = node_models(more@);
    let mut i: usize = 0;
    while i < more.len()
        invariant
            i <= more.len(),
            list == node_models(more@),
            with_nodes(start, list, 0) == with_nodes(node_models(nodes@), list, i as int),
        decreases more.len() - i,
    {
        assert(list[i as int] == (more@[i as int].0@, more@[i as int].1@));
        add_node(nodes, more[i].0.clone(), more[i].1.clone());
        i = i + 1;
    }
}

/// The nodes that `package` at `version` depends on in the graph of a
/// solution. Packages that do not stand in the graph themselves are followed
/// to the nodes behind them, through as many of them in a row as the solution
/// selects packages: a longer chain would pass through one of them twice.
/// The context is read and left as it is.
pub fn get_resolved_deps<'a>(
    index: &BabelIndex<'a>,
    ctx: &Context,
    solution: &Vec<(BabelPackage<'a>, BabelVersion)>,
    package: &BabelPackage<'a>,
    version: &BabelVersion,
) -> (r: Vec<(String, BabelVersion)>)
    ensures
        node_models(r@) == resolved_nodes(
            index,
            ctx@,
            solution_models(solution@),
            package@,
            version@,
            solution@.len(),
        ),
{
    get_resolved_deps_within(index, ctx, solution, package, version, solution.len())
}

/// The nodes that `package` at `version` depends on in the graph of a
/// solution, through at most `depth` packages in a row that do not stand in
/// the graph themselves. The context is read and left as it is.
pub fn get_resolved_deps_within<'a>(
    index: &BabelIndex<'a>,
    ctx: &Context,
    solution: &Vec<(BabelPackage<'a>, BabelVersion)>,
    package: &BabelPackage<'a>,
    version: &BabelVersion,
    depth: usize,
) -> (r: Vec<(String, BabelVersion)>)
    ensures
        node_models(r@) == resolved_nodes(
            index,
            ctx@,
            solution_models(solution@),
            package@,
            version@,
            depth as nat,
        ),
    decreases depth,
{
    let mut nodes: Vec<(String, BabelVersion)> = Vec::new();
    assert(node_models(nodes@) =~= Seq::empty());
    let mut scratch = ctx.duplicate();
    let constraints = match index.get_dependencies(&mut scratch, package, version) {
        Ok(Dependencies::Available(c)) => c,
        _ => {
            return nodes;
        },
    };
    let ghost sol = solution_models(solution@);
    let ghost deps = constraint_models(constraints@);
    let mut i: usize = 0;
    while i < constraints.len()
        invariant
            i <= constraints.len(),
            sol == solution_models(solution@),
            deps == constraint_models(constraints@),
            resolved_from(index, ctx@, sol, deps, 0, depth as nat, Seq::empty()) == resolved_from(
                index,
                ctx@,
                sol,
                deps,
                i as int,
                depth as nat,
                node_models(nodes@),
            ),
        decreases constraints.len() - i,
    {
        let dep = &constraints[i].0;
        assert(deps[i as int].0 == dep@);
        match find_selected(solution, dep) {
            None => {},
            Some(k) => {
                assert(sol[k as int].1 == solution@[k as int].1@);
                let selected_version = &solution[k].1;
                match label_of(index, ctx, dep) {
                    Some(label) => {
                        add_node(&mut nodes, label, selected_version.clone());
                    },
                    None => {
                        if depth > 0 {
                            let more = get_resolved_deps_within(
                                index,
                                ctx,
                                solution,
                                dep,
                                selected_version,
                                depth - 1,
                            );
                            add_nodes(&mut nodes, &more);
                        }
                    },
                }
            },
        }
        i = i + 1;
    }
    nodes
}

/// The solution meets the constraint: it selects a version for the package,
/// and the version lies in the set.
pub open spec fn meets(
    solution: Seq<(PackageModel, VersionModel)>,
    constraint: (PackageModel, SetModel),
) -> bool {
    selected(solution, constraint.0) matches Some(v) && set_contains(constraint.1, v)
}

/// The solution meets the dependencies of `package` at `version`: they are
/// known, and the solution meets each of them.
pub open spec fn meets_dependencies(
    index: &BabelIndex,
    ctx: ContextModel,
    solution: Seq<(PackageModel, VersionModel)>,
    package: PackageModel,
    version: VersionModel,
) -> bool {
    match babel_dependencies(index, ctx, package, version).result {
        Ok(Known::Available(constraints)) => meets_each(solution, constraints),
        _ => false,
    }
}

/// The solution meets each of the constraints.
pub open spec fn meets_each(
    solution: Seq<(PackageModel, VersionModel)>,
    constraints: ConstraintsModel,
) -> bool {
    forall|k: int| 0 <= k < constraints.len() ==> meets(solution, #[trigger] constraints[k])
}

/// The solution is sound: it meets the dependencies of every package that
/// it selects, at the version that it selects for it.
pub open spec fn is_sound(
    index: &BabelIndex,
    ctx: ContextModel,
    solution: Seq<(PackageModel, VersionModel)>,
) -> bool {
    forall|i: int|
        0 <= i < solution.len() ==> meets_dependencies(
            index,
            ctx,
            solution,
            (#[trigger] solution[i]).0,
            solution[i].1,
        )
}

/// Whether the solution meets a list of constraints.
fn meets_all<'a>(
    solution: &Vec<(BabelPackage<'a>, BabelVersion)>,
    constraints: &Vec<(BabelPackage<'a>, BabelVersionSet)>,
) -> (r: bool)
    ensures
        r == meets_each(solution_models(solution@), constraint_models(constraints@)),
{
    let ghost sol = solution_models(solution@);
    let ghost deps = constraint_models(constraints@);
    let mut k: usize = 0;
    while k < constraints.len()
        invariant
            k <= constraints.len(),
            sol == solution_models(solution@),
            deps == constraint_models(constraints@),
            forall|j: int| 0 <= j < k ==> meets(sol, #[trigger] deps[j]),
        decreases constraints.len() - k,
    {
        assert(deps[k as int] == (constraints@[k as int].0@, constraints@[k as int].1@));
        match find_selected(solution, &constraints[k].0) {
            None => {
                assert(!meets(sol, deps[k as int]));
                return false;
            },
            Some(i) => {
                assert(sol[i as int].1 == solution@[i as int].1@);
                if !constraints[k].1.contains(&solution[i].1) {
                    assert(!meets(sol, deps[k as int]));
                    return false;
                }
            },
        }
        k = k + 1;
    }
    true
}

/// Whether the solution meets the dependencies of `package` at `version`.
fn meets_dependencies_of<'a>(
    index: &BabelIndex<'a>,
    ctx: &Context,
    solution: &Vec<(BabelPackage<'a>, BabelVersion)>,
    package: &BabelPackage<'a>,
    version: &BabelVersion,
) -> (r: bool)
    ensures
        r == meets_dependencies(index, ctx@, solution_models(solution@), package@, version@),
{
    let mut scratch = ctx.duplicate();
    let answer = index.get_dependencies(&mut scratch, package, version);
    let ghost result = babel_dependencies(index, ctx@, package@, version@).result;
    assert(dependencies_model(answer) == result);
    match answer {
        Ok(Dependencies::Available(constraints)) => {
            assert(result == Ok::<Known<ConstraintsModel>, crate::error::InternalError>(
                Known::Available(constraint_models(constraints@)),
            ));
            meets_all(solution, &constraints)
        },
        _ => false,
    }
}

/// Checks that a solution is sound: that for every package it selects, each
/// dependency of the package at the selected version is selected too, at a
/// version that the dependency allows. The context is read and left as it
/// is.
pub fn check_solution<'a>(
    index: &BabelIndex<'a>,
    ctx: &Context,
    solution: &Vec<(BabelPackage<'a>, BabelVersion)>,
) -> (r: bool)
    ensures
        r == is_sound(index, ctx@, solution_models(solution@)),
{
    let ghost sol = solution_models(solution@);
    let mut i: usize = 0;
    while i < solution.len()
        invariant
            i <= solution.len(),
            sol == solution_models(solution@),
            forall|j: int|
                0 <= j < i ==> meets_dependencies(index, ctx@, sol, (#[trigger] sol[j]).0, sol[j].1),
        decreases solution.len() - i,
    {
        assert(sol[i as int] == (solution@[i as int].0@, solution@[i as int].1@));
        if !meets_dependencies_of(index, ctx, solution, &solution[i].0, &solution[i].1) {
            return false;
        }
        i = i + 1;
    }
    true
}

} // verus!
