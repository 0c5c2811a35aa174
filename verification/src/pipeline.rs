//! The resolution pipeline: how one immutable settings value is scoped into
//! a registry client, a build context and a resolver call, and when the
//! satisfaction checker lets a run skip all of that.
//!
//! There are two call shapes: against a bare interpreter, resolution assumes
//! an empty target (no preferences, reinstall and upgrade forced inert), and
//! against an existing environment it passes the installed distributions as
//! preferences and honors the caller's reinstall and upgrade policy.
use vstd::prelude::*;
use crate::environment::{Interpreter, PythonEnvironment};
use crate::name::PackageName;
use crate::requirement::{reqs_view, Requirement};
use crate::site::{closure_covers, SatisfiesResult};
use crate::sync::{LinkMode, Reinstall};
use crate::version::Version;

verus! {

/// How the resolver picks among candidate versions.
#[derive(Clone, Copy, PartialEq, Eq, Structural)]
pub enum ResolutionMode {
    Highest,
    Lowest,
    LowestDirect,
}

/// How the resolver treats pre-release versions.
#[derive(Clone, Copy, PartialEq, Eq, Structural)]
pub enum PrereleaseMode {
    Disallow,
    Allow,
    IfNecessary,
    Explicit,
    IfNecessaryOrExplicit,
}

/// How multiple package indexes are consulted.
#[derive(Clone, Copy, PartialEq, Eq, Structural)]
pub enum IndexStrategy {
    FirstIndex,
    UnsafeFirstMatch,
    UnsafeBestMatch,
}

/// Where index credentials come from.
#[derive(Clone, Copy, PartialEq, Eq, Structural)]
pub enum KeyringProvider {
    Disabled,
    Subprocess,
}

/// Whether the network may be touched at all.
#[derive(Clone, Copy, PartialEq, Eq, Structural)]
pub enum Connectivity {
    Online,
    Offline,
}

/// How source distributions get their build backend invoked.
#[derive(Clone, Copy, PartialEq, Eq, Structural)]
pub enum SetupPyStrategy {
    Pep517,
    Setuptools,
}

/// Whether a source build sees only its declared build dependencies.
#[derive(Clone, Copy, PartialEq, Eq, Structural)]
pub enum BuildIsolationPolicy {
    Isolated,
    Shared,
}

/// The caller-supplied bounds on parallel sub-work.
#[derive(Clone, Copy, PartialEq, Eq, Structural)]
pub struct Concurrency {
    pub downloads: u64,
    pub builds: u64,
    pub installs: u64,
}

/// Which distribution forms may be used.
#[derive(Clone, Copy, PartialEq, Eq, Structural)]
pub struct BuildOptions {
    pub no_build: bool,
    pub no_binary: bool,
}

/// Which installed packages the resolver may move to newer versions.
pub enum Upgrade {
    /// Keep every installed version.
    Keep,
    /// Allow upgrading everything.
    All,
    /// Allow upgrading the named packages.
    Packages(Vec<PackageName>),
}

/// One immutable resolver-and-installer configuration, passed by reference
/// to every pipeline stage.
pub struct ResolverInstallerSettings {
    pub index_urls: Vec<String>,
    pub flat_index_urls: Vec<String>,
    pub index_strategy: IndexStrategy,
    pub keyring_provider: KeyringProvider,
    pub resolution: ResolutionMode,
    pub prerelease: PrereleaseMode,
    pub config_settings: Vec<(String, String)>,
    pub exclude_newer: Option<u64>,
    pub link_mode: LinkMode,
    pub compile_bytecode: bool,
    pub upgrade: Upgrade,
    pub reinstall: Reinstall,
    pub build_options: BuildOptions,
}

/// Unresolved requirement inputs: the declared requirements with their
/// constraint and override lists, and any local source trees.
pub struct RequirementsSpec {
    pub requirements: Vec<Requirement>,
    pub constraints: Vec<Requirement>,
    pub overrides: Vec<Requirement>,
    pub source_trees: Vec<String>,
}

/// A registry client scoped to index URLs, index strategy, keyring policy
/// and the target interpreter's markers and platform tags.
pub struct RegistryClientConfig {
    pub index_urls: Vec<String>,
    pub index_strategy: IndexStrategy,
    pub keyring_provider: KeyringProvider,
    pub markers: String,
    pub platform_tags: Vec<String>,
    pub native_tls: bool,
    pub connectivity: Connectivity,
}

/// A build-execution context: isolation policy, setup strategy, link mode,
/// flat indexes and concurrency bounds.
pub struct BuildContextConfig {
    pub index_strategy: IndexStrategy,
    pub setup_py: SetupPyStrategy,
    pub config_settings: Vec<(String, String)>,
    pub build_isolation: BuildIsolationPolicy,
    pub link_mode: LinkMode,
    pub build_options: BuildOptions,
    pub exclude_newer: Option<u64>,
    pub flat_index_urls: Vec<String>,
    pub concurrency: Concurrency,
}

/// The views of a string list.
pub open spec fn strings_view(v: Seq<String>) -> Seq<Seq<char>> {
    v.map_values(|s: String| s@)
}

/// The views of a configuration-setting list.
pub open spec fn pairs_view(v: Seq<(String, String)>) -> Seq<(Seq<char>, Seq<char>)> {
    v.map_values(|p: (String, String)| (p.0@, p.1@))
}

/// Copy a configuration-setting list.
fn duplicate_pairs(v: &Vec<(String, String)>) -> (out: Vec<(String, String)>)
    ensures
        pairs_view(out@) == pairs_view(v@),
{
    let mut out: Vec<(String, String)> = Vec::new();
    let mut i: usize = 0;
    while i < v.len()
        invariant
            i <= v@.len(),
            out@.len() == i,
            forall|j: int|
                0 <= j < i ==> (#[trigger] out@[j]).0@ == v@[j].0@ && out@[j].1@ == v@[j].1@,
        decreases v@.len() - i,
    {
        out.push((v[i].0.clone(), v[i].1.clone()));
        i = i + 1;
    }
    proof {
        assert(pairs_view(out@) =~= pairs_view(v@));
    }
    out
}

/// Scope a registry client to the settings and the target interpreter, as
/// every resolution step does.
pub fn registry_client_config(
    settings: &ResolverInstallerSettings,
    interpreter: &Interpreter,
    native_tls: bool,
    connectivity: Connectivity,
) -> (c: RegistryClientConfig)
    ensures
        strings_view(c.index_urls@) == strings_view(settings.index_urls@),
        c.index_strategy == settings.index_strategy,
        c.keyring_provider == settings.keyring_provider,
        c.markers@ == interpreter@.markers,
        strings_view(c.platform_tags@) == interpreter@.tags,
        c.native_tls == native_tls,
        c.connectivity == connectivity,
{
    RegistryClientConfig {
        index_urls: crate::strutil::duplicate_strings(&settings.index_urls),
        index_strategy: settings.index_strategy,
        keyring_provider: settings.keyring_provider,
        markers: interpreter.markers.clone(),
        platform_tags: crate::strutil::duplicate_strings(&interpreter.tags),
        native_tls,
        connectivity,
    }
}

/// The build context of name-only resolution: defaults throughout — no
/// build isolation override, PEP 517 builds, no flat indexes — with only
/// the index strategy, configuration settings, link mode, cutoff and
/// concurrency taken from the caller. The resolution mode, prerelease mode,
/// bytecode, upgrade and reinstall settings play no part here.
pub fn name_resolution_context(
    settings: &ResolverInstallerSettings,
    concurrency: Concurrency,
) -> (c: BuildContextConfig)
    ensures
        c.index_strategy == settings.index_strategy,
        c.setup_py == SetupPyStrategy::Pep517,
        pairs_view(c.config_settings@) == pairs_view(settings.config_settings@),
        c.build_isolation == BuildIsolationPolicy::Isolated,
        c.link_mode == settings.link_mode,
        c.build_options == settings.build_options,
        c.exclude_newer == settings.exclude_newer,
        c.flat_index_urls@.len() == 0,
        c.concurrency == concurrency,
{
    BuildContextConfig {
        index_strategy: settings.index_strategy,
        setup_py: SetupPyStrategy::Pep517,
        config_settings: duplicate_pairs(&settings.config_settings),
        build_isolation: BuildIsolationPolicy::Isolated,
        link_mode: settings.link_mode,
        build_options: settings.build_options,
        exclude_newer: settings.exclude_newer,
        flat_index_urls: Vec::new(),
        concurrency,
    }
}

/// The build context of full resolution and synchronization: as the
/// name-only one, but the flat indexes come from the settings.
pub fn resolution_context(settings: &ResolverInstallerSettings, concurrency: Concurrency) -> (c:
    BuildContextConfig)
    ensures
        c.index_strategy == settings.index_strategy,
        c.setup_py == SetupPyStrategy::Pep517,
        pairs_view(c.config_settings@) == pairs_view(settings.config_settings@),
        c.build_isolation == BuildIsolationPolicy::Isolated,
        c.link_mode == settings.link_mode,
        c.build_options == settings.build_options,
        c.exclude_newer == settings.exclude_newer,
        strings_view(c.flat_index_urls@) == strings_view(settings.flat_index_urls@),
        c.concurrency == concurrency,
{
    BuildContextConfig {
        index_strategy: settings.index_strategy,
        setup_py: SetupPyStrategy::Pep517,
        config_settings: duplicate_pairs(&settings.config_settings),
        build_isolation: BuildIsolationPolicy::Isolated,
        link_mode: settings.link_mode,
        build_options: settings.build_options,
        exclude_newer: settings.exclude_newer,
        flat_index_urls: crate::strutil::duplicate_strings(&settings.flat_index_urls),
        concurrency,
    }
}

/// One fully assembled resolver call.
pub struct ResolutionRequest {
    pub requirements: Vec<Requirement>,
    pub constraints: Vec<Requirement>,
    pub overrides: Vec<Requirement>,
    /// The installed distributions the resolver should prefer to keep.
    pub preferences: Vec<(PackageName, Version)>,
    pub resolution_mode: ResolutionMode,
    pub prerelease_mode: PrereleaseMode,
    pub exclude_newer: Option<u64>,
    pub index_strategy: IndexStrategy,
    pub reinstall: Reinstall,
    pub upgrade_all: bool,
    pub tags: Vec<String>,
    pub markers: String,
    pub python_version: Version,
}

/// The pins of an installed set, as resolver preferences.
fn site_preferences(env: &PythonEnvironment) -> (prefs: Vec<(PackageName, Version)>)
    ensures
        prefs@.len() == env@.site.len(),
        forall|i: int|
            0 <= i < prefs@.len() ==> (#[trigger] prefs@[i]).0@ == env@.site[i].name
                && prefs@[i].1@ == env@.site[i].version,
{
    let mut prefs: Vec<(PackageName, Version)> = Vec::new();
    let mut i: usize = 0;
    while i < env.site.dists.len()
        invariant
            i <= env.site.dists@.len(),
            env@.site.len() == env.site.dists@.len(),
            prefs@.len() == i,
            forall|j: int|
                0 <= j < i ==> (#[trigger] prefs@[j]).0@ == env@.site[j].name && prefs@[j].1@
                    == env@.site[j].version,
        decreases env.site.dists@.len() - i,
    {
        let d = &env.site.dists[i];
        prefs.push((d.name.duplicate(), d.version.duplicate()));
        proof {
            assert(env@.site[i as int] == env.site.dists@[i as int]@);
        }
        i = i + 1;
    }
    prefs
}

/// Assemble a resolver call against a bare interpreter: the target is
/// assumed empty, so there are no preferences and the reinstall and upgrade
/// policies are forced inert, whatever the settings say.
pub fn resolution_request_for_interpreter(
    spec: RequirementsSpec,
    settings: &ResolverInstallerSettings,
    interpreter: &Interpreter,
) -> (r: ResolutionRequest)
    ensures
        reqs_view(r.requirements@) == reqs_view(spec.requirements@),
        reqs_view(r.constraints@) == reqs_view(spec.constraints@),
        reqs_view(r.overrides@) == reqs_view(spec.overrides@),
        r.preferences@.len() == 0,
        r.resolution_mode == settings.resolution,
        r.prerelease_mode == settings.prerelease,
        r.exclude_newer == settings.exclude_newer,
        r.index_strategy == settings.index_strategy,
        r.reinstall is Accept,
        !r.upgrade_all,
        strings_view(r.tags@) == interpreter@.tags,
        r.markers@ == interpreter@.markers,
        r.python_version@ == interpreter@.version,
{
    ResolutionRequest {
        requirements: spec.requirements,
        constraints: spec.constraints,
        overrides: spec.overrides,
        preferences: Vec::new(),
        resolution_mode: settings.resolution,
        prerelease_mode: settings.prerelease,
        exclude_newer: settings.exclude_newer,
        index_strategy: settings.index_strategy,
        reinstall: Reinstall::Accept,
        upgrade_all: false,
        tags: crate::strutil::duplicate_strings(&interpreter.tags),
        markers: interpreter.markers.clone(),
        python_version: interpreter.version.duplicate(),
    }
}

/// Assemble a resolver call against an existing environment: its installed
/// distributions become the resolver's preferences, and the caller's
/// reinstall and upgrade policies are honored.
pub fn resolution_request_for_environment(
    spec: RequirementsSpec,
    settings: &ResolverInstallerSettings,
    env: &PythonEnvironment,
) -> (r: ResolutionRequest)
    ensures
        reqs_view(r.requirements@) == reqs_view(spec.requirements@),
        reqs_view(r.constraints@) == reqs_view(spec.constraints@),
        reqs_view(r.overrides@) == reqs_view(spec.overrides@),
        r.preferences@.len() == env@.site.len(),
        forall|i: int|
            0 <= i < r.preferences@.len() ==> (#[trigger] r.preferences@[i]).0@
                == env@.site[i].name && r.preferences@[i].1@ == env@.site[i].version,
        r.resolution_mode == settings.resolution,
        r.prerelease_mode == settings.prerelease,
        r.exclude_newer == settings.exclude_newer,
        r.index_strategy == settings.index_strategy,
        forall|n: Seq<char>|
            #[trigger] crate::sync::reinstall_includes(r.reinstall, n)
                == crate::sync::reinstall_includes(settings.reinstall, n),
        r.upgrade_all == (settings.upgrade is All),
        strings_view(r.tags@) == env@.interpreter.tags,
        r.markers@ == env@.interpreter.markers,
        r.python_version@ == env@.interpreter.version,
{
    let reinstall = match &settings.reinstall {
        Reinstall::Accept => Reinstall::Accept,
        Reinstall::All => Reinstall::All,
        Reinstall::Packages(ns) => Reinstall::Packages(duplicate_names(ns)),
    };
    proof {
        lemma_same_reinstall(reinstall, settings.reinstall);
    }
    ResolutionRequest {
        requirements: spec.requirements,
        constraints: spec.constraints,
        overrides: spec.overrides,
        preferences: site_preferences(env),
        resolution_mode: settings.resolution,
        prerelease_mode: settings.prerelease,
        exclude_newer: settings.exclude_newer,
        index_strategy: settings.index_strategy,
        reinstall,
        upgrade_all: matches!(settings.upgrade, Upgrade::All),
        tags: crate::strutil::duplicate_strings(&env.interpreter.tags),
        markers: env.interpreter.markers.clone(),
        python_version: env.interpreter.version.duplicate(),
    }
}

/// Two reinstall policies of the same shape over names with equal views
/// single out the same names.
proof fn lemma_same_reinstall(a: Reinstall, b: Reinstall)
    requires
        (a is Accept && b is Accept) || (a is All && b is All) || (match (a, b) {
            (Reinstall::Packages(x), Reinstall::Packages(y)) => x@.len() == y@.len() && (
            forall|i: int| 0 <= i < x@.len() ==> (#[trigger] x@[i])@ == y@[i]@),
            _ => false,
        }),
    ensures
        forall|n: Seq<char>|
            #[trigger] crate::sync::reinstall_includes(a, n) == crate::sync::reinstall_includes(
                b,
                n,
            ),
{
    assert forall|n: Seq<char>|
        #[trigger] crate::sync::reinstall_includes(a, n) == crate::sync::reinstall_includes(
        b,
        n,
    ) by {
        match (a, b) {
            (Reinstall::Packages(x), Reinstall::Packages(y)) => {
                if crate::sync::reinstall_includes(a, n) {
                    let i = choose|i: int| 0 <= i < x@.len() && (#[trigger] x@[i])@ == n;
                    assert(y@[i]@ == n);
                }
                if crate::sync::reinstall_includes(b, n) {
                    let i = choose|i: int| 0 <= i < y@.len() && (#[trigger] y@[i])@ == n;
                    assert(x@[i]@ == n);
                }
            },
            _ => {},
        }
    }
}

/// Copy a list of package names.
fn duplicate_names(v: &Vec<PackageName>) -> (out: Vec<PackageName>)
    ensures
        out@.len() == v@.len(),
        forall|i: int| 0 <= i < v@.len() ==> (#[trigger] out@[i])@ == v@[i]@,
{
    let mut out: Vec<PackageName> = Vec::new();
    let mut i: usize = 0;
    while i < v.len()
        invariant
            i <= v@.len(),
            out@.len() == i,
            forall|j: int| 0 <= j < i ==> (#[trigger] out@[j])@ == v@[j]@,
        decreases v@.len() - i,
    {
        out.push(v[i].duplicate());
        i = i + 1;
    }
    out
}

/// What an update of an existing environment does next.
pub enum UpdatePlan {
    /// The environment already satisfies the requirements: done. No
    /// resolver call and no installer call follow; the walked closure is
    /// carried for diagnostics.
    Fresh { recursive_requirements: Vec<Requirement> },
    /// Resolution is needed, with this assembled resolver call.
    Resolve(ResolutionRequest),
}

/// Decide whether updating an environment may stop at the satisfaction
/// check. The check applies only when there are no local source trees and
/// no reinstall or upgrade request; a `Fresh` plan is sound: the walked
/// closure covers the requirements against the environment's installed set.
pub fn plan_update(
    env: &PythonEnvironment,
    spec: RequirementsSpec,
    settings: &ResolverInstallerSettings,
) -> (p: UpdatePlan)
    ensures
        p matches UpdatePlan::Fresh { recursive_requirements } ==> spec.source_trees@.len() == 0
            && settings.reinstall is Accept && settings.upgrade is Keep && closure_covers(
            env@.site,
            reqs_view(spec.constraints@),
            reqs_view(spec.requirements@),
            reqs_view(recursive_requirements@),
        ),
        p matches UpdatePlan::Resolve(r) ==> reqs_view(r.requirements@) == reqs_view(
            spec.requirements@,
        ) && reqs_view(r.constraints@) == reqs_view(spec.constraints@) && reqs_view(r.overrides@)
            == reqs_view(spec.overrides@) && r.preferences@.len() == env@.site.len() && (forall|i: int|
            0 <= i < r.preferences@.len() ==> (#[trigger] r.preferences@[i]).0@
                == env@.site[i].name && r.preferences@[i].1@ == env@.site[i].version)
            && r.resolution_mode == settings.resolution && r.prerelease_mode == settings.prerelease
            && r.exclude_newer == settings.exclude_newer && (forall|n: Seq<char>|
            #[trigger] crate::sync::reinstall_includes(r.reinstall, n)
                == crate::sync::reinstall_includes(settings.reinstall, n)) && r.upgrade_all == (
        settings.upgrade is All) && r.markers@ == env@.interpreter.markers
            && r.python_version@ == env@.interpreter.version,
        spec.source_trees@.len() == 0 && settings.reinstall is Accept && settings.upgrade is Keep
            && crate::site::transitively_satisfied(
            env@.site,
            reqs_view(spec.constraints@),
            reqs_view(spec.requirements@),
        ) ==> p is Fresh,
{
    let check_allowed = spec.source_trees.len() == 0 && settings.reinstall.is_inert() && matches!(
        settings.upgrade,
        Upgrade::Keep,
    );
    if check_allowed {
        match env.site.satisfies(&spec.requirements, &spec.constraints) {
            SatisfiesResult::Fresh { recursive_requirements } => {
                return UpdatePlan::Fresh { recursive_requirements };
            },
            SatisfiesResult::Unsatisfied { requirement: _ } => {},
        }
    }
    UpdatePlan::Resolve(resolution_request_for_environment(spec, settings, env))
}

/// Apply a freshly resolved graph to the environment, as the update path
/// does once resolution has run: an exact, live synchronization under the
/// caller's reinstall and link-mode policy.
pub fn apply_update(
    env: PythonEnvironment,
    resolution: &crate::sync::Resolution,
    settings: &ResolverInstallerSettings,
) -> (out: PythonEnvironment)
    ensures
        out@.site == resolution@.dists,
        out@.root == env@.root,
        out@.interpreter == env@.interpreter,
        out@.scripts == env@.scripts,
        out@.site_dirs == env@.site_dirs,
{
    let reinstall = match &settings.reinstall {
        Reinstall::Accept => Reinstall::Accept,
        Reinstall::All => Reinstall::All,
        Reinstall::Packages(ns) => Reinstall::Packages(duplicate_names(ns)),
    };
    let policy = crate::sync::InstallerPolicy {
        reinstall,
        link_mode: settings.link_mode,
        compile_bytecode: settings.compile_bytecode,
        dry_run: false,
    };
    crate::sync::sync_environment(env, resolution, &policy)
}

} // verus!
