//! Launching the tool executable: search paths, the missing-executable
//! diagnosis, and the suggestion when another installed package provides
//! the requested executable.
use vstd::prelude::*;
use vstd::string::StringExecFns;
use crate::environment::PythonEnvironment;
use crate::errors::ProjectError;
use crate::name::PackageName;
use crate::site::{DistKey, SitePackages};

verus! {

/// The status the command exits with.
pub enum ExitStatus {
    /// The command finished and the child succeeded.
    Success,
    /// The command finished but the work failed: the child failed, or the
    /// executable was not found and was reported.
    Failure,
    /// The command itself failed.
    Error,
}

impl ExitStatus {
    /// The process exit code of this status.
    pub fn code(&self) -> (c: i32)
        ensures
            *self is Success ==> c == 0,
            *self is Failure ==> c == 2,
            *self is Error ==> c == 1,
    {
        match self {
            ExitStatus::Success => 0,
            ExitStatus::Failure => 2,
            ExitStatus::Error => 1,
        }
    }
}

/// The user-facing command a tool run was invoked through.
pub enum ToolRunCommand {
    /// Via the short alias.
    Uvx,
    /// Via the long subcommand.
    ToolRun,
}

impl ToolRunCommand {
    /// The command's name, as shown in hints.
    pub fn label(&self) -> (s: String)
        ensures
            *self is Uvx ==> s@ == "uvx"@,
            *self is ToolRun ==> s@ == "uv tool run"@,
    {
        match self {
            ToolRunCommand::Uvx => String::from_str("uvx"),
            ToolRunCommand::ToolRun => String::from_str("uv tool run"),
        }
    }
}

/// Split an invocation into the target and the arguments handed to it.
pub fn split_command(args: &Vec<String>) -> (r: Option<(String, Vec<String>)>)
    ensures
        (r is Some) <==> args@.len() > 0,
        r matches Some(split) ==> split.0@ == args@[0]@ && split.1@.len() == args@.len() - 1 && (
        forall|i: int| 0 <= i < split.1@.len() ==> (#[trigger] split.1@[i])@ == args@[i + 1]@),
{
    if args.len() == 0 {
        return Option::None;
    }
    let target = args[0].clone();
    let mut rest: Vec<String> = Vec::new();
    let mut i: usize = 1;
    while i < args.len()
        invariant
            1 <= i <= args@.len(),
            rest@.len() == i - 1,
            forall|j: int| 0 <= j < rest@.len() ==> (#[trigger] rest@[j])@ == args@[j + 1]@,
        decreases args@.len() - i,
    {
        rest.push(args[i].clone());
        i = i + 1;
    }
    Option::Some((target, rest))
}

/// The child's search path: the environment's script directory first, then
/// everything inherited.
pub fn search_path_entries(environment: &PythonEnvironment, inherited: &Vec<String>) -> (r: Vec<
    String,
>)
    ensures
        r@.len() == inherited@.len() + 1,
        r@[0]@ == environment@.scripts,
        forall|i: int| 0 <= i < inherited@.len() ==> (#[trigger] r@[i + 1])@ == inherited@[i]@,
{
    let mut r: Vec<String> = Vec::new();
    r.push(environment.scripts.clone());
    let mut i: usize = 0;
    while i < inherited.len()
        invariant
            i <= inherited@.len(),
            r@.len() == i + 1,
            r@[0]@ == environment@.scripts,
            forall|j: int| 0 <= j < i ==> (#[trigger] r@[j + 1])@ == inherited@[j]@,
        decreases inherited@.len() - i,
    {
        r.push(inherited[i].clone());
        i = i + 1;
    }
    r
}

/// The child's module search path: the environment's site-packages
/// directories first, in order, then everything inherited.
pub fn module_path_entries(environment: &PythonEnvironment, inherited: &Vec<String>) -> (r: Vec<
    String,
>)
    ensures
        r@.len() == environment@.site_dirs.len() + inherited@.len(),
        forall|i: int|
            0 <= i < environment@.site_dirs.len() ==> (#[trigger] r@[i])@
                == environment@.site_dirs[i],
        forall|i: int|
            0 <= i < inherited@.len() ==> (#[trigger] r@[environment@.site_dirs.len() + i])@
                == inherited@[i]@,
{
    let mut r: Vec<String> = Vec::new();
    let mut i: usize = 0;
    while i < environment.site_dirs.len()
        invariant
            i <= environment.site_dirs@.len(),
            environment@.site_dirs.len() == environment.site_dirs@.len(),
            r@.len() == i,
            forall|j: int|
                0 <= j < i ==> (#[trigger] r@[j])@ == environment@.site_dirs[j],
        decreases environment.site_dirs@.len() - i,
    {
        r.push(environment.site_dirs[i].clone());
        proof {
            assert(environment@.site_dirs[i as int] == environment.site_dirs@[i as int]@);
        }
        i = i + 1;
    }
    let mut k: usize = 0;
    while k < inherited.len()
        invariant
            k <= inherited@.len(),
            environment@.site_dirs.len() == environment.site_dirs@.len(),
            r@.len() == environment@.site_dirs.len() + k,
            forall|j: int|
                0 <= j < environment@.site_dirs.len() ==> (#[trigger] r@[j])@
                    == environment@.site_dirs[j],
            forall|j: int|
                0 <= j < k ==> (#[trigger] r@[environment@.site_dirs.len() + j])@
                    == inherited@[j]@,
        decreases inherited@.len() - k,
    {
        r.push(inherited[k].clone());
        k = k + 1;
    }
    r
}

/// Whether some installed distribution with this name provides the
/// executable among its entry points.
pub open spec fn dist_provides(site: Seq<DistKey>, name: Seq<char>, executable: Seq<char>) -> bool {
    exists|i: int|
        0 <= i < site.len() && (#[trigger] site[i]).name == name && site[i].entry_points.contains(
            executable,
        )
}

/// Whether any installed distribution provides the executable.
pub open spec fn anyone_provides(site: Seq<DistKey>, executable: Seq<char>) -> bool {
    exists|i: int|
        0 <= i < site.len() && (#[trigger] site[i]).entry_points.contains(executable)
}

/// Whether `names` is exactly the set of packages providing the executable:
/// each entry provides it, no name repeats, and every provider occurs.
pub open spec fn lists_all_providers(
    site: Seq<DistKey>,
    executable: Seq<char>,
    names: Seq<Seq<char>>,
) -> bool {
    (forall|k: int| 0 <= k < names.len() ==> dist_provides(site, #[trigger] names[k], executable))
        && (forall|k1: int, k2: int|
        0 <= k1 < names.len() && 0 <= k2 < names.len() && k1 != k2 ==> (#[trigger] names[k1]) != (
        #[trigger] names[k2])) && (forall|m: Seq<char>|
        #[trigger] dist_provides(site, m, executable) ==> names.contains(m))
}

/// Whether this one distribution provides the executable.
fn dist_has_entry_point(dist: &crate::site::InstalledDist, executable: &String) -> (r: bool)
    ensures
        r == dist@.entry_points.contains(executable@),
{
    let mut j: usize = 0;
    while j < dist.entry_points.len()
        invariant
            j <= dist.entry_points@.len(),
            forall|k: int| 0 <= k < j ==> dist@.entry_points[k] != executable@,
        decreases dist.entry_points@.len() - j,
    {
        if dist.entry_points[j] == *executable {
            proof {
                assert(dist@.entry_points[j as int] == executable@);
            }
            return true;
        }
        proof {
            assert(dist@.entry_points[j as int] == dist.entry_points@[j as int]@);
        }
        j = j + 1;
    }
    false
}

/// The names of the installed distributions that provide the executable.
pub fn matching_packages(executable: &String, site: &SitePackages) -> (r: Vec<PackageName>)
    ensures
        forall|k: int|
            0 <= k < r@.len() ==> dist_provides(site@, (#[trigger] r@[k])@, executable@),
        forall|i: int|
            0 <= i < site@.len() && (#[trigger] site@[i]).entry_points.contains(executable@) ==> (
            exists|k: int| 0 <= k < r@.len() && (#[trigger] r@[k])@ == site@[i].name),
{
    let mut r: Vec<PackageName> = Vec::new();
    let mut i: usize = 0;
    while i < site.dists.len()
        invariant
            i <= site.dists@.len(),
            site@.len() == site.dists@.len(),
            forall|k: int|
                0 <= k < r@.len() ==> dist_provides(site@, (#[trigger] r@[k])@, executable@),
            forall|j: int|
                0 <= j < i && (#[trigger] site@[j]).entry_points.contains(executable@) ==> (
                exists|k: int| 0 <= k < r@.len() && (#[trigger] r@[k])@ == site@[j].name),
        decreases site.dists@.len() - i,
    {
        let ghost r_before = r@;
        proof {
            assert(site@[i as int] == site.dists@[i as int]@);
        }
        if dist_has_entry_point(&site.dists[i], executable) {
            r.push(site.dists[i].name.duplicate());
            proof {
                assert((r@[r@.len() - 1])@ == site@[i as int].name);
            }
        }
        proof {
            assert forall|j: int|
                0 <= j < i + 1 && (#[trigger] site@[j]).entry_points.contains(executable@)
                implies (exists|k: int|
                0 <= k < r@.len() && (#[trigger] r@[k])@ == site@[j].name) by {
                if j < i {
                    let k = choose|k: int|
                        0 <= k < r_before.len() && (#[trigger] r_before[k])@ == site@[j].name;
                    assert(r@[k]@ == site@[j].name);
                }
            }
        }
        i = i + 1;
    }
    r
}

/// The warning a tool run gives when the requested executable is not
/// provided by the requested package itself.
pub enum ExecutableWarning {
    /// The requested package provides the executable: nothing to say.
    ProvidedByPackage,
    /// Nothing installed provides the executable.
    NotProvided,
    /// Exactly one other installed package provides it: suggest it.
    ProvidedByDependency(PackageName),
    /// Several installed packages provide it: list them all.
    ProvidedByDependencies(Vec<PackageName>),
}

/// Whether the list already holds a name with this content.
fn contains_name(v: &Vec<PackageName>, n: &PackageName) -> (r: bool)
    ensures
        r == (exists|k: int| 0 <= k < v@.len() && (#[trigger] v@[k])@ == n@),
{
    let mut i: usize = 0;
    while i < v.len()
        invariant
            i <= v@.len(),
            forall|k: int| 0 <= k < i ==> (#[trigger] v@[k])@ != n@,
        decreases v@.len() - i,
    {
        if v[i].same_as(n) {
            proof {
                assert((v@[i as int])@ == n@);
            }
            return true;
        }
        i = i + 1;
    }
    false
}

/// The distinct names of the installed packages that provide the
/// executable, in order of first appearance: every provider occurs exactly
/// once.
pub fn provider_names(executable: &String, site: &SitePackages) -> (r: Vec<PackageName>)
    ensures
        forall|k: int|
            0 <= k < r@.len() ==> dist_provides(site@, (#[trigger] r@[k])@, executable@),
        forall|i: int|
            0 <= i < site@.len() && (#[trigger] site@[i]).entry_points.contains(executable@) ==> (
            exists|k: int| 0 <= k < r@.len() && (#[trigger] r@[k])@ == site@[i].name),
        lists_all_providers(site@, executable@, r@.map_values(|n: PackageName| n@)),
{
    let mut r: Vec<PackageName> = Vec::new();
    let mut i: usize = 0;
    while i < site.dists.len()
        invariant
            i <= site.dists@.len(),
            site@.len() == site.dists@.len(),
            forall|k: int|
                0 <= k < r@.len() ==> dist_provides(site@, (#[trigger] r@[k])@, executable@),
            forall|k1: int, k2: int|
                0 <= k1 < r@.len() && 0 <= k2 < r@.len() && k1 != k2 ==> (#[trigger] r@[k1])@ != (
                #[trigger] r@[k2])@,
            forall|j: int|
                0 <= j < i && (#[trigger] site@[j]).entry_points.contains(executable@) ==> (
                exists|k: int| 0 <= k < r@.len() && (#[trigger] r@[k])@ == site@[j].name),
        decreases site.dists@.len() - i,
    {
        let ghost r_before = r@;
        proof {
            assert(site@[i as int] == site.dists@[i as int]@);
        }
        if dist_has_entry_point(&site.dists[i], executable) && !contains_name(
            &r,
            &site.dists[i].name,
        ) {
            r.push(site.dists[i].name.duplicate());
            proof {
                assert((r@[r@.len() - 1])@ == site@[i as int].name);
            }
        }
        proof {
            assert forall|j: int|
                0 <= j < i + 1 && (#[trigger] site@[j]).entry_points.contains(executable@)
                implies (exists|k: int|
                0 <= k < r@.len() && (#[trigger] r@[k])@ == site@[j].name) by {
                if j < i {
                    let k = choose|k: int|
                        0 <= k < r_before.len() && (#[trigger] r_before[k])@ == site@[j].name;
                    assert(r@[k]@ == site@[j].name);
                }
            }
        }
        i = i + 1;
    }
    proof {
        let names = r@.map_values(|n: PackageName| n@);
        assert forall|k: int| 0 <= k < names.len() implies dist_provides(
            site@,
            #[trigger] names[k],
            executable@,
        ) by {
            assert(names[k] == (r@[k])@);
        }
        assert forall|k1: int, k2: int|
            0 <= k1 < names.len() && 0 <= k2 < names.len() && k1 != k2 implies (
        #[trigger] names[k1]) != (#[trigger] names[k2]) by {
            assert(names[k1] == (r@[k1])@);
            assert(names[k2] == (r@[k2])@);
        }
        assert forall|m: Seq<char>| #[trigger] dist_provides(site@, m, executable@)
            implies names.contains(m) by {
            let j = choose|j: int|
                0 <= j < site@.len() && (#[trigger] site@[j]).name == m
                    && site@[j].entry_points.contains(executable@);
            let k = choose|k: int| 0 <= k < r@.len() && (#[trigger] r@[k])@ == site@[j].name;
            assert(names[k] == m);
        }
    }
    r
}

/// Decide what to tell the user about an executable that may not belong to
/// the package the run was asked for: the requested package providing it
/// needs no warning; otherwise exactly one other provider is suggested by
/// name, several providers are all listed once each, and no provider at all
/// gives the plain warning.
pub fn executable_warning(executable: &String, from_name: &PackageName, site: &SitePackages) -> (w:
    ExecutableWarning)
    ensures
        (w is ProvidedByPackage) <==> dist_provides(site@, from_name@, executable@),
        (w is NotProvided) <==> !anyone_provides(site@, executable@),
        w matches ExecutableWarning::ProvidedByDependency(n) ==> n@ != from_name@ && dist_provides(
            site@,
            n@,
            executable@,
        ) && (forall|m: Seq<char>| #[trigger] dist_provides(site@, m, executable@) ==> m == n@),
        w matches ExecutableWarning::ProvidedByDependencies(ns) ==> ns@.len() >= 2
            && lists_all_providers(site@, executable@, ns@.map_values(|n: PackageName| n@)),
{
    let providers = provider_names(executable, site);
    let mut i: usize = 0;
    while i < providers.len()
        invariant
            i <= providers@.len(),
            forall|k: int|
                0 <= k < providers@.len() ==> dist_provides(
                    site@,
                    (#[trigger] providers@[k])@,
                    executable@,
                ),
            forall|i2: int|
                0 <= i2 < site@.len() && (#[trigger] site@[i2]).entry_points.contains(executable@)
                    ==> (exists|k: int|
                    0 <= k < providers@.len() && (#[trigger] providers@[k])@ == site@[i2].name),
            forall|k: int| 0 <= k < i ==> (#[trigger] providers@[k])@ != from_name@,
        decreases providers@.len() - i,
    {
        if providers[i].same_as(from_name) {
            proof {
                assert((providers@[i as int])@ == from_name@);
            }
            return ExecutableWarning::ProvidedByPackage;
        }
        i = i + 1;
    }
    proof {
        // Past the loop: the requested package is not among the providers,
        // so it provides nothing.
        if dist_provides(site@, from_name@, executable@) {
            let j = choose|j: int|
                0 <= j < site@.len() && (#[trigger] site@[j]).name == from_name@
                    && site@[j].entry_points.contains(executable@);
            let k = choose|k: int|
                0 <= k < providers@.len() && (#[trigger] providers@[k])@ == site@[j].name;
        }
        assert(!dist_provides(site@, from_name@, executable@));
    }
    if providers.len() == 0 {
        proof {
            assert forall|j: int|
                0 <= j < site@.len() implies !(#[trigger] site@[j]).entry_points.contains(
                executable@,
            ) by {
                if site@[j].entry_points.contains(executable@) {
                    let k = choose|k: int|
                        0 <= k < providers@.len() && (#[trigger] providers@[k])@ == site@[j].name;
                }
            }
        }
        return ExecutableWarning::NotProvided;
    }
    proof {
        assert(dist_provides(site@, (providers@[0])@, executable@));
        let i0 = choose|i0: int|
            0 <= i0 < site@.len() && (#[trigger] site@[i0]).name == (providers@[0])@
                && site@[i0].entry_points.contains(executable@);
        assert(anyone_provides(site@, executable@));
    }
    if providers.len() == 1 {
        proof {
            // Every provider name lands in the one-entry list, so it is the
            // single name there.
            assert forall|m: Seq<char>| #[trigger] dist_provides(site@, m, executable@)
                implies m == (providers@[0])@ by {
                let j = choose|j: int|
                    0 <= j < site@.len() && (#[trigger] site@[j]).name == m
                        && site@[j].entry_points.contains(executable@);
                let k = choose|k: int|
                    0 <= k < providers@.len() && (#[trigger] providers@[k])@ == site@[j].name;
                assert(k == 0);
            }
        }
        let mut providers = providers;
        let only = providers.pop().unwrap();
        return ExecutableWarning::ProvidedByDependency(only);
    }
    ExecutableWarning::ProvidedByDependencies(providers)
}

/// The hint to run the tool through the package that provides it.
pub fn suggest_command(source: &ToolRunCommand, package: &PackageName, executable: &String) -> (s:
    String)
    ensures
        *source is Uvx ==> s@ == "uvx"@ + " --from "@ + package@ + " "@ + executable@,
        *source is ToolRun ==> s@ == "uv tool run"@ + " --from "@ + package@ + " "@ + executable@,
{
    let mut s = source.label();
    s.append(" --from ");
    s.append(package.value.as_str());
    s.append(" ");
    s.append(executable.as_str());
    s
}

/// How spawning the child failed, as far as the logic reads it.
pub enum SpawnFailure {
    /// The executable was not found on the search path.
    ExecutableNotFound,
    /// Any other launch failure.
    Other(String),
}

/// What the run does after a failed spawn.
pub enum SpawnFollowup {
    /// Report the executables the tool package provides, and finish with a
    /// failure status instead of the raw error.
    ReportEntrypoints(Vec<String>),
    /// Hand the raw error on.
    Propagate,
}

/// Decide how to handle a failed spawn: only the missing-executable case
/// with a successful entry-point lookup is recovered locally, by reporting
/// the tool's real executables; everything else propagates.
pub fn on_spawn_failure(failure: &SpawnFailure, entrypoints: Result<Vec<String>, ProjectError>)
    -> (f: SpawnFollowup)
    ensures
        (f is ReportEntrypoints) <==> (*failure is ExecutableNotFound && entrypoints is Ok),
        f matches SpawnFollowup::ReportEntrypoints(eps) ==> entrypoints matches Ok(have) && eps
            == have,
{
    match failure {
        SpawnFailure::ExecutableNotFound => match entrypoints {
            Result::Ok(eps) => SpawnFollowup::ReportEntrypoints(eps),
            Result::Err(_) => SpawnFollowup::Propagate,
        },
        SpawnFailure::Other(_) => SpawnFollowup::Propagate,
    }
}

/// The entry points the requested package provides in the environment: the
/// executables of the first installed distribution carrying its name, or an
/// error when none is installed.
pub fn get_entrypoints(from: &PackageName, environment: &PythonEnvironment) -> (r: Result<
    Vec<String>,
    ProjectError,
>)
    ensures
        (r is Ok) <==> crate::sync::has_name(environment@.site, from@),
        r matches Ok(eps) ==> (exists|i: int|
            0 <= i < environment@.site.len() && (#[trigger] environment@.site[i]).name == from@
                && (forall|j: int|
                0 <= j < i ==> (#[trigger] environment@.site[j]).name != from@)
                && eps@.map_values(|s: String| s@) == environment@.site[i].entry_points),
{
    let site = &environment.site;
    let mut i: usize = 0;
    while i < site.dists.len()
        invariant
            i <= site.dists@.len(),
            environment@.site.len() == site.dists@.len(),
            environment@.site == site@,
            forall|j: int| 0 <= j < i ==> (#[trigger] site@[j]).name != from@,
        decreases site.dists@.len() - i,
    {
        proof {
            assert(site@[i as int] == site.dists@[i as int]@);
        }
        if site.dists[i].name.same_as(from) {
            let eps = crate::strutil::duplicate_strings(&site.dists[i].entry_points);
            return Result::Ok(eps);
        }
        i = i + 1;
    }
    Result::Err(ProjectError::Operation(String::from_str("Expected at least one requirement")))
}

/// The status the run finishes with once the child has exited: the child's
/// success is the run's success; any non-zero or signalled exit is a
/// failure.
pub fn exit_for_child(child_succeeded: bool) -> (r: ExitStatus)
    ensures
        child_succeeded ==> r is Success,
        !child_succeeded ==> r is Failure,
{
    if child_succeeded {
        ExitStatus::Success
    } else {
        ExitStatus::Failure
    }
}

} // verus!
