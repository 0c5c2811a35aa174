//! Environment synchronization: applying a resolution to an environment.
//!
//! Synchronization has exact-modification semantics: after it runs, the
//! installed set equals exactly the resolution — extraneous distributions
//! removed, missing ones installed, mismatched versions replaced. Under a
//! dry-run policy it changes nothing. Because the outcome depends only on
//! the resolution, re-running it is idempotent.
use vstd::prelude::*;
use crate::environment::PythonEnvironment;
use crate::name::PackageName;
use crate::site::{duplicate_dists, DistKey, InstalledDist, SitePackages};
use crate::version::padded_eq;

verus! {

/// A fully pinned, internally consistent set of distributions to install,
/// with the diagnostics resolution produced for user output.
pub struct Resolution {
    pub dists: Vec<InstalledDist>,
    pub diagnostics: Vec<String>,
}

/// The mathematical content of a [`Resolution`].
pub ghost struct ResolutionKey {
    pub dists: Seq<DistKey>,
    pub diagnostics: Seq<Seq<char>>,
}

impl View for Resolution {
    type V = ResolutionKey;

    open spec fn view(&self) -> ResolutionKey {
        ResolutionKey {
            dists: self.dists@.map_values(|d: InstalledDist| d@),
            diagnostics: self.diagnostics@.map_values(|s: String| s@),
        }
    }
}

impl Resolution {
    /// The diagnostics resolution produced, for user output.
    pub fn diagnostic_lines(&self) -> (r: &Vec<String>)
        ensures
            r@.map_values(|s: String| s@) == self@.diagnostics,
    {
        &self.diagnostics
    }
}

/// Whether no two distributions of the set share a name: what makes a pin
/// set internally consistent.
pub open spec fn unique_names(dists: Seq<DistKey>) -> bool {
    forall|i: int, j: int|
        0 <= i < dists.len() && 0 <= j < dists.len() && i != j ==> (#[trigger] dists[i]).name != (
        #[trigger] dists[j]).name
}

/// Whether the set holds a distribution with this name.
pub open spec fn has_name(dists: Seq<DistKey>, name: Seq<char>) -> bool {
    exists|i: int| 0 <= i < dists.len() && (#[trigger] dists[i]).name == name
}

/// Whether the set holds a distribution with this name at this version.
pub open spec fn has_pin(dists: Seq<DistKey>, name: Seq<char>, version: Seq<u64>) -> bool {
    exists|i: int|
        0 <= i < dists.len() && (#[trigger] dists[i]).name == name && padded_eq(
            dists[i].version,
            version,
        )
}

/// Which distributions may be reinstalled even when their version matches.
pub enum Reinstall {
    /// Reinstall nothing that already matches.
    Accept,
    /// Reinstall everything.
    All,
    /// Reinstall the named packages.
    Packages(Vec<PackageName>),
}

/// Whether the reinstall policy singles out this name.
pub open spec fn reinstall_includes(r: Reinstall, name: Seq<char>) -> bool {
    match r {
        Reinstall::Accept => false,
        Reinstall::All => true,
        Reinstall::Packages(ns) => exists|i: int| 0 <= i < ns@.len() && (#[trigger] ns@[i])@ == name,
    }
}

impl Reinstall {
    /// Whether the policy asks for nothing to be reinstalled.
    pub fn is_inert(&self) -> (r: bool)
        ensures
            r == (*self is Accept),
    {
        matches!(self, Reinstall::Accept)
    }

    /// Decide whether the policy singles out this name.
    #[verifier::loop_isolation(false)]
    pub fn includes(&self, name: &PackageName) -> (r: bool)
        ensures
            r == reinstall_includes(*self, name@),
    {
        match self {
            Reinstall::Accept => false,
            Reinstall::All => true,
            Reinstall::Packages(ns) => {
                let mut i: usize = 0;
                while i < ns.len()
                    invariant
                        i <= ns@.len(),
                        forall|j: int| 0 <= j < i ==> (#[trigger] ns@[j])@ != name@,
                    decreases ns@.len() - i,
                {
                    if ns[i].same_as(name) {
                        proof {
                            assert((ns@[i as int])@ == name@);
                        }
                        return true;
                    }
                    i = i + 1;
                }
                false
            },
        }
    }
}

/// How files get from the cache into the environment.
#[derive(Clone, Copy, PartialEq, Eq, Structural)]
pub enum LinkMode {
    Reflink,
    CopyFile,
    Hardlink,
    Symlink,
}

/// The installer-facing policy of one synchronization run.
pub struct InstallerPolicy {
    pub reinstall: Reinstall,
    pub link_mode: LinkMode,
    pub compile_bytecode: bool,
    /// When set, synchronization reports what it would do and changes
    /// nothing.
    pub dry_run: bool,
}

/// The work one synchronization run would perform.
pub struct SyncPlan {
    /// Installed but not in the resolution: to be removed.
    pub remove: Vec<PackageName>,
    /// In the resolution but not installed: to be installed.
    pub install: Vec<PackageName>,
    /// Installed and in the resolution, but at the wrong version or singled
    /// out by the reinstall policy: to be replaced.
    pub reinstall: Vec<PackageName>,
}

/// Compute the work synchronization would perform: what to remove, install,
/// and replace, so that the installed set becomes exactly the resolution.
#[verifier::loop_isolation(false)]
pub fn plan_sync(site: &SitePackages, resolution: &Resolution, policy: &InstallerPolicy) -> (plan:
    SyncPlan)
    ensures
        forall|k: int|
            0 <= k < plan.remove@.len() ==> has_name(site@, (#[trigger] plan.remove@[k])@)
                && !has_name(resolution@.dists, plan.remove@[k]@),
        forall|i: int|
            0 <= i < site@.len() ==> has_name(resolution@.dists, (#[trigger] site@[i]).name) || (
            exists|k: int| 0 <= k < plan.remove@.len() && (#[trigger] plan.remove@[k])@ == site@[i].name),
        forall|k: int|
            0 <= k < plan.install@.len() ==> has_name(resolution@.dists, (#[trigger] plan.install@[k])@)
                && !has_name(site@, plan.install@[k]@),
        forall|i: int|
            0 <= i < resolution@.dists.len() ==> has_name(site@, (#[trigger] resolution@.dists[i]).name)
                || (exists|k: int|
                0 <= k < plan.install@.len() && (#[trigger] plan.install@[k])@
                    == resolution@.dists[i].name),
        forall|k: int|
            0 <= k < plan.reinstall@.len() ==> has_name(site@, (#[trigger] plan.reinstall@[k])@)
                && has_name(resolution@.dists, plan.reinstall@[k]@),
        forall|i: int|
            0 <= i < resolution@.dists.len() && has_name(site@, (#[trigger] resolution@.dists[i]).name)
                && !(has_pin(site@, resolution@.dists[i].name, resolution@.dists[i].version)
                && !reinstall_includes(policy.reinstall, resolution@.dists[i].name)) ==> (exists|k: int|
                0 <= k < plan.reinstall@.len() && (#[trigger] plan.reinstall@[k])@
                    == resolution@.dists[i].name),
{
    let mut remove: Vec<PackageName> = Vec::new();
    let mut install: Vec<PackageName> = Vec::new();
    let mut reinstall: Vec<PackageName> = Vec::new();
    let mut i: usize = 0;
    while i < site.dists.len()
        invariant
            i <= site.dists@.len(),
            site@.len() == site.dists@.len(),
            forall|k: int|
                0 <= k < remove@.len() ==> has_name(site@, (#[trigger] remove@[k])@) && !has_name(
                    resolution@.dists,
                    remove@[k]@,
                ),
            forall|j: int|
                0 <= j < i ==> has_name(resolution@.dists, (#[trigger] site@[j]).name) || (exists|k: int|
                    0 <= k < remove@.len() && (#[trigger] remove@[k])@ == site@[j].name),
        decreases site.dists@.len() - i,
    {
        let name = &site.dists[i].name;
        let ghost remove_before = remove@;
        proof {
            assert(site@[i as int].name == name@);
        }
        if !resolution_has_name(resolution, name) {
            remove.push(name.duplicate());
            proof {
                assert(remove@[remove@.len() - 1]@ == site@[i as int].name);
                assert(has_name(site@, name@));
            }
        }
        proof {
            assert forall|j: int|
                0 <= j < i + 1 implies has_name(resolution@.dists, (#[trigger] site@[j]).name) || (
            exists|k: int| 0 <= k < remove@.len() && (#[trigger] remove@[k])@ == site@[j].name) by {
                if j < i {
                    if !has_name(resolution@.dists, site@[j].name) {
                        let k = choose|k: int|
                            0 <= k < remove_before.len() && (#[trigger] remove_before[k])@
                                == site@[j].name;
                        assert(remove@[k]@ == site@[j].name);
                    }
                }
            }
        }
        i = i + 1;
    }
    let mut j: usize = 0;
    while j < resolution.dists.len()
        invariant
            j <= resolution.dists@.len(),
            resolution@.dists.len() == resolution.dists@.len(),
            forall|k: int|
                0 <= k < install@.len() ==> has_name(resolution@.dists, (#[trigger] install@[k])@)
                    && !has_name(site@, install@[k]@),
            forall|jj: int|
                0 <= jj < j ==> has_name(site@, (#[trigger] resolution@.dists[jj]).name) || (exists|k: int|
                    0 <= k < install@.len() && (#[trigger] install@[k])@
                        == resolution@.dists[jj].name),
            forall|k: int|
                0 <= k < reinstall@.len() ==> has_name(site@, (#[trigger] reinstall@[k])@)
                    && has_name(resolution@.dists, reinstall@[k]@),
            forall|jj: int|
                0 <= jj < j && has_name(site@, (#[trigger] resolution@.dists[jj]).name) && !(
                has_pin(site@, resolution@.dists[jj].name, resolution@.dists[jj].version)
                    && !reinstall_includes(policy.reinstall, resolution@.dists[jj].name)) ==> (
                exists|k: int|
                    0 <= k < reinstall@.len() && (#[trigger] reinstall@[k])@
                        == resolution@.dists[jj].name),
        decreases resolution.dists@.len() - j,
    {
        let dist = &resolution.dists[j];
        let ghost install_before = install@;
        let ghost reinstall_before = reinstall@;
        proof {
            assert(resolution@.dists[j as int] == dist@);
        }
        if !site_has_name(site, &dist.name) {
            install.push(dist.name.duplicate());
            proof {
                assert(install@[install@.len() - 1]@ == resolution@.dists[j as int].name);
            }
        } else {
            let matches_pin = site_has_pin(site, &dist.name, &dist.version);
            if !matches_pin || policy.reinstall.includes(&dist.name) {
                reinstall.push(dist.name.duplicate());
                proof {
                    assert(reinstall@[reinstall@.len() - 1]@ == resolution@.dists[j as int].name);
                }
            }
        }
        proof {
            assert forall|jj: int|
                0 <= jj < j + 1 implies has_name(site@, (#[trigger] resolution@.dists[jj]).name)
                || (exists|k: int|
                0 <= k < install@.len() && (#[trigger] install@[k])@
                    == resolution@.dists[jj].name) by {
                if jj < j {
                    if !has_name(site@, resolution@.dists[jj].name) {
                        let k = choose|k: int|
                            0 <= k < install_before.len() && (#[trigger] install_before[k])@
                                == resolution@.dists[jj].name;
                        assert(install@[k]@ == resolution@.dists[jj].name);
                    }
                }
            }
            assert forall|jj: int|
                0 <= jj < j + 1 && has_name(site@, (#[trigger] resolution@.dists[jj]).name) && !(
            has_pin(site@, resolution@.dists[jj].name, resolution@.dists[jj].version)
                && !reinstall_includes(policy.reinstall, resolution@.dists[jj].name)) implies (
            exists|k: int|
                0 <= k < reinstall@.len() && (#[trigger] reinstall@[k])@
                    == resolution@.dists[jj].name) by {
                if jj < j {
                    let k = choose|k: int|
                        0 <= k < reinstall_before.len() && (#[trigger] reinstall_before[k])@
                            == resolution@.dists[jj].name;
                    assert(reinstall@[k]@ == resolution@.dists[jj].name);
                }
            }
        }
        j = j + 1;
    }
    let plan = SyncPlan { remove, install, reinstall };
    proof {
        assert forall|i: int|
            0 <= i < site@.len() implies has_name(resolution@.dists, (#[trigger] site@[i]).name)
            || (exists|k: int|
            0 <= k < plan.remove@.len() && (#[trigger] plan.remove@[k])@ == site@[i].name) by {
            if !has_name(resolution@.dists, site@[i].name) {
                let k = choose|k: int|
                    0 <= k < remove@.len() && (#[trigger] remove@[k])@ == site@[i].name;
                assert(plan.remove@[k]@ == site@[i].name);
            }
        }
        assert forall|i: int|
            0 <= i < resolution@.dists.len() implies has_name(
            site@,
            (#[trigger] resolution@.dists[i]).name,
        ) || (exists|k: int|
            0 <= k < plan.install@.len() && (#[trigger] plan.install@[k])@
                == resolution@.dists[i].name) by {
            if !has_name(site@, resolution@.dists[i].name) {
                let k = choose|k: int|
                    0 <= k < install@.len() && (#[trigger] install@[k])@
                        == resolution@.dists[i].name;
                assert(plan.install@[k]@ == resolution@.dists[i].name);
            }
        }
        assert forall|i: int|
            0 <= i < resolution@.dists.len() && has_name(
                site@,
                (#[trigger] resolution@.dists[i]).name,
            ) && !(has_pin(site@, resolution@.dists[i].name, resolution@.dists[i].version)
                && !reinstall_includes(policy.reinstall, resolution@.dists[i].name)) implies (
        exists|k: int|
            0 <= k < plan.reinstall@.len() && (#[trigger] plan.reinstall@[k])@
                == resolution@.dists[i].name) by {
            let k = choose|k: int|
                0 <= k < reinstall@.len() && (#[trigger] reinstall@[k])@
                    == resolution@.dists[i].name;
            assert(plan.reinstall@[k]@ == resolution@.dists[i].name);
        }
    }
    plan
}

/// Whether the resolution pins a distribution with this name.
fn resolution_has_name(resolution: &Resolution, name: &PackageName) -> (r: bool)
    ensures
        r == has_name(resolution@.dists, name@),
{
    let mut i: usize = 0;
    while i < resolution.dists.len()
        invariant
            i <= resolution.dists@.len(),
            forall|j: int| 0 <= j < i ==> (#[trigger] resolution@.dists[j]).name != name@,
        decreases resolution.dists@.len() - i,
    {
        if resolution.dists[i].name.same_as(name) {
            proof {
                assert(resolution@.dists[i as int].name == name@);
            }
            return true;
        }
        proof {
            assert(resolution@.dists[i as int].name == resolution.dists@[i as int]@.name);
        }
        i = i + 1;
    }
    false
}

/// Whether the environment holds a distribution with this name.
fn site_has_name(site: &SitePackages, name: &PackageName) -> (r: bool)
    ensures
        r == has_name(site@, name@),
{
    let mut i: usize = 0;
    while i < site.dists.len()
        invariant
            i <= site.dists@.len(),
            forall|j: int| 0 <= j < i ==> (#[trigger] site@[j]).name != name@,
        decreases site.dists@.len() - i,
    {
        if site.dists[i].name.same_as(name) {
            proof {
                assert(site@[i as int].name == name@);
            }
            return true;
        }
        proof {
            assert(site@[i as int].name == site.dists@[i as int]@.name);
        }
        i = i + 1;
    }
    false
}

/// Whether the environment holds this name at this version.
fn site_has_pin(site: &SitePackages, name: &PackageName, version: &crate::version::Version) -> (r:
    bool)
    ensures
        r == has_pin(site@, name@, version@),
{
    let mut i: usize = 0;
    while i < site.dists.len()
        invariant
            i <= site.dists@.len(),
            forall|j: int|
                0 <= j < i ==> !((#[trigger] site@[j]).name == name@ && padded_eq(
                    site@[j].version,
                    version@,
                )),
        decreases site.dists@.len() - i,
    {
        if site.dists[i].name.same_as(name) && site.dists[i].version.same_as(version) {
            proof {
                assert(site@[i as int].name == name@);
                assert(padded_eq(site@[i as int].version, version@));
            }
            return true;
        }
        proof {
            assert(site@[i as int] == site.dists@[i as int]@);
        }
        i = i + 1;
    }
    false
}

/// The installed set synchronization leaves behind: unchanged under dry-run,
/// exactly the resolution otherwise.
pub open spec fn spec_sync(site: Seq<DistKey>, resolution: Seq<DistKey>, dry_run: bool) -> Seq<
    DistKey,
> {
    if dry_run {
        site
    } else {
        resolution
    }
}

/// Synchronizing twice with the same resolution leaves the installed set
/// unchanged after the second run: the outcome depends on the resolution
/// alone.
pub proof fn lemma_sync_idempotent(site: Seq<DistKey>, resolution: Seq<DistKey>, dry_run: bool)
    ensures
        spec_sync(spec_sync(site, resolution, dry_run), resolution, dry_run) == spec_sync(
            site,
            resolution,
            dry_run,
        ),
{
}

/// Apply a resolution to an environment. After a live run the installed set
/// equals exactly the resolution; a dry run changes nothing; everything else
/// about the environment is untouched.
pub fn sync_environment(env: PythonEnvironment, resolution: &Resolution, policy: &InstallerPolicy)
    -> (out: PythonEnvironment)
    ensures
        out@.site == spec_sync(env@.site, resolution@.dists, policy.dry_run),
        out@.root == env@.root,
        out@.interpreter == env@.interpreter,
        out@.scripts == env@.scripts,
        out@.site_dirs == env@.site_dirs,
{
    if policy.dry_run {
        env
    } else {
        let dists = duplicate_dists(&resolution.dists);
        PythonEnvironment {
            root: env.root,
            interpreter: env.interpreter,
            site: SitePackages { dists },
            scripts: env.scripts,
            site_dirs: env.site_dirs,
        }
    }
}

} // verus!
