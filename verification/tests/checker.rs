use envsync::name::PackageName;
use envsync::requirement::Requirement;
use envsync::site::{InstalledDist, SatisfiesResult, SitePackages};
use envsync::sync::{
    plan_sync, sync_environment, InstallerPolicy, LinkMode, Reinstall, Resolution,
};
use envsync::environment::{fresh_environment, Interpreter, PythonEnvironment};
use envsync::version::{Version, VersionOp, VersionSpecifier};

fn name(s: &str) -> PackageName {
    PackageName::parse(s).unwrap()
}

fn ver(parts: &[u64]) -> Version {
    Version { parts: parts.to_vec() }
}

fn req_exact(n: &str, parts: &[u64]) -> Requirement {
    Requirement {
        name: name(n),
        specifiers: vec![VersionSpecifier { op: VersionOp::Equal, version: ver(parts) }],
        applies: true,
    }
}

fn req_any(n: &str) -> Requirement {
    Requirement { name: name(n), specifiers: vec![], applies: true }
}

fn dist(n: &str, parts: &[u64], requires: Vec<Requirement>, eps: &[&str]) -> InstalledDist {
    InstalledDist {
        name: name(n),
        version: ver(parts),
        requires,
        entry_points: eps.iter().map(|e| e.to_string()).collect(),
    }
}

fn interpreter(parts: &[u64], path: &str) -> Interpreter {
    Interpreter {
        version: ver(parts),
        sys_executable: path.to_string(),
        markers: "cpython-linux".to_string(),
        tags: vec!["cp311-abi3-linux_x86_64".to_string()],
    }
}

#[test]
fn fresh_covers_requirements_transitively() {
    // black depends on click; both installed at allowed versions.
    let site = SitePackages {
        dists: vec![
            dist("black", &[24, 1, 0], vec![req_any("click")], &["black"]),
            dist("click", &[8, 1, 7], vec![], &[]),
        ],
    };
    let reqs = vec![req_exact("black", &[24, 1, 0])];
    match site.satisfies(&reqs, &vec![]) {
        SatisfiesResult::Fresh { recursive_requirements } => {
            // The walked closure holds the root requirement and the dependency.
            assert_eq!(recursive_requirements.len(), 2);
        }
        SatisfiesResult::Unsatisfied { .. } => panic!("expected a fresh environment"),
    }
}

#[test]
fn missing_package_is_unsatisfied() {
    let site = SitePackages { dists: vec![dist("black", &[24, 1, 0], vec![], &[])] };
    let reqs = vec![req_exact("flake8", &[7, 0, 0])];
    match site.satisfies(&reqs, &vec![]) {
        SatisfiesResult::Unsatisfied { requirement } => {
            assert_eq!(requirement.name.value, "flake8");
        }
        SatisfiesResult::Fresh { .. } => panic!("missing package must not be fresh"),
    }
}

#[test]
fn version_mismatch_is_unsatisfied() {
    let site = SitePackages { dists: vec![dist("black", &[23, 0, 0], vec![], &[])] };
    let reqs = vec![req_exact("black", &[24, 1, 0])];
    assert!(matches!(
        site.satisfies(&reqs, &vec![]),
        SatisfiesResult::Unsatisfied { .. }
    ));
}

#[test]
fn missing_transitive_dependency_is_unsatisfied() {
    let site = SitePackages {
        dists: vec![dist("black", &[24, 1, 0], vec![req_any("click")], &[])],
    };
    let reqs = vec![req_exact("black", &[24, 1, 0])];
    match site.satisfies(&reqs, &vec![]) {
        SatisfiesResult::Unsatisfied { requirement } => {
            assert_eq!(requirement.name.value, "click");
        }
        SatisfiesResult::Fresh { .. } => panic!("missing dependency must not be fresh"),
    }
}

#[test]
fn duplicate_installations_are_unsatisfied() {
    let site = SitePackages {
        dists: vec![
            dist("black", &[24, 1, 0], vec![], &[]),
            dist("black", &[23, 0, 0], vec![], &[]),
        ],
    };
    let reqs = vec![req_any("black")];
    assert!(matches!(
        site.satisfies(&reqs, &vec![]),
        SatisfiesResult::Unsatisfied { .. }
    ));
}

#[test]
fn violated_constraint_is_unsatisfied() {
    let site = SitePackages { dists: vec![dist("black", &[24, 1, 0], vec![], &[])] };
    let reqs = vec![req_any("black")];
    let constraints = vec![Requirement {
        name: name("black"),
        specifiers: vec![VersionSpecifier { op: VersionOp::Less, version: ver(&[24]) }],
        applies: true,
    }];
    assert!(matches!(
        site.satisfies(&reqs, &constraints),
        SatisfiesResult::Unsatisfied { .. }
    ));
}

#[test]
fn inapplicable_requirement_is_skipped() {
    let site = SitePackages { dists: vec![] };
    let reqs = vec![Requirement { name: name("pywin32"), specifiers: vec![], applies: false }];
    assert!(matches!(
        site.satisfies(&reqs, &vec![]),
        SatisfiesResult::Fresh { .. }
    ));
}

#[test]
fn padded_versions_satisfy_exact_pins() {
    // 3.10 and 3.10.0 denote the same release.
    let site = SitePackages { dists: vec![dist("tomli", &[2, 0], vec![], &[])] };
    let reqs = vec![req_exact("tomli", &[2, 0, 0])];
    assert!(matches!(
        site.satisfies(&reqs, &vec![]),
        SatisfiesResult::Fresh { .. }
    ));
}

fn environment_with(dists: Vec<InstalledDist>) -> PythonEnvironment {
    let mut env = fresh_environment(
        interpreter(&[3, 11, 4], "/usr/bin/python3.11"),
        "/w/.venv".to_string(),
        "/w/.venv/bin".to_string(),
        vec!["/w/.venv/lib/python3.11/site-packages".to_string()],
    );
    env.site = SitePackages { dists };
    env
}

fn resolution(dists: Vec<InstalledDist>) -> Resolution {
    Resolution { dists, diagnostics: vec![] }
}

fn policy(dry_run: bool, reinstall: Reinstall) -> InstallerPolicy {
    InstallerPolicy { reinstall, link_mode: LinkMode::Hardlink, compile_bytecode: false, dry_run }
}

#[test]
fn sync_makes_installed_set_exactly_the_resolution() {
    let env = environment_with(vec![
        dist("old-extra", &[1, 0], vec![], &[]),
        dist("click", &[7, 0], vec![], &[]),
    ]);
    let res = resolution(vec![
        dist("black", &[24, 1, 0], vec![req_any("click")], &["black"]),
        dist("click", &[8, 1, 7], vec![], &[]),
    ]);
    let out = sync_environment(env, &res, &policy(false, Reinstall::Accept));
    let names: Vec<&str> = out.site.dists.iter().map(|d| d.name.value.as_str()).collect();
    assert_eq!(names, vec!["black", "click"]);
    assert_eq!(out.site.dists[1].version.parts, vec![8, 1, 7]);
}

#[test]
fn sync_twice_changes_nothing_more() {
    let env = environment_with(vec![dist("old-extra", &[1, 0], vec![], &[])]);
    let res = resolution(vec![dist("black", &[24, 1, 0], vec![], &["black"])]);
    let p = policy(false, Reinstall::Accept);
    let once = sync_environment(env, &res, &p);
    let names_once: Vec<String> =
        once.site.dists.iter().map(|d| d.name.value.clone()).collect();
    let versions_once: Vec<Vec<u64>> =
        once.site.dists.iter().map(|d| d.version.parts.clone()).collect();
    let twice = sync_environment(once, &res, &p);
    let names_twice: Vec<String> =
        twice.site.dists.iter().map(|d| d.name.value.clone()).collect();
    let versions_twice: Vec<Vec<u64>> =
        twice.site.dists.iter().map(|d| d.version.parts.clone()).collect();
    assert_eq!(names_once, names_twice);
    assert_eq!(versions_once, versions_twice);
}

#[test]
fn dry_run_changes_nothing() {
    let env = environment_with(vec![dist("old-extra", &[1, 0], vec![], &[])]);
    let res = resolution(vec![dist("black", &[24, 1, 0], vec![], &[])]);
    let out = sync_environment(env, &res, &policy(true, Reinstall::Accept));
    assert_eq!(out.site.dists.len(), 1);
    assert_eq!(out.site.dists[0].name.value, "old-extra");
}

#[test]
fn sync_plan_splits_work_exactly() {
    let site = SitePackages {
        dists: vec![
            dist("old-extra", &[1, 0], vec![], &[]),
            dist("click", &[7, 0], vec![], &[]),
            dist("tomli", &[2, 0], vec![], &[]),
        ],
    };
    let res = resolution(vec![
        dist("black", &[24, 1, 0], vec![], &[]),
        dist("click", &[8, 1, 7], vec![], &[]),
        dist("tomli", &[2, 0], vec![], &[]),
    ]);
    let plan = plan_sync(&site, &res, &policy(false, Reinstall::Accept));
    let removed: Vec<&str> = plan.remove.iter().map(|n| n.value.as_str()).collect();
    let installed: Vec<&str> = plan.install.iter().map(|n| n.value.as_str()).collect();
    let reinstalled: Vec<&str> = plan.reinstall.iter().map(|n| n.value.as_str()).collect();
    assert_eq!(removed, vec!["old-extra"]);
    assert_eq!(installed, vec!["black"]);
    assert_eq!(reinstalled, vec!["click"]);
}

#[test]
fn reinstall_policy_forces_replacement() {
    let site = SitePackages { dists: vec![dist("tomli", &[2, 0], vec![], &[])] };
    let res = resolution(vec![dist("tomli", &[2, 0], vec![], &[])]);
    let plan = plan_sync(&site, &res, &policy(false, Reinstall::Packages(vec![name("tomli")])));
    let reinstalled: Vec<&str> = plan.reinstall.iter().map(|n| n.value.as_str()).collect();
    assert_eq!(reinstalled, vec!["tomli"]);
}
