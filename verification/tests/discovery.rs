use envsync::discover::{
    bootstrap_action, effective_request, find_requires_python, interpreter_meets_requirements,
    plan_after_probe, removal_outcome, validate_fetched, BootstrapAction, FoundInterpreter,
    ProbeDecision, PythonRequest, VenvProbe, Workspace,
};
use envsync::environment::{fresh_environment, Interpreter, PythonEnvironment};
use envsync::errors::{IoError, IoErrorKind, ProjectError};
use envsync::pipeline::{
    apply_update, name_resolution_context, plan_update, registry_client_config,
    resolution_context, resolution_request_for_interpreter, BuildOptions, Concurrency,
    Connectivity, IndexStrategy, KeyringProvider, PrereleaseMode, RequirementsSpec,
    ResolutionMode, ResolverInstallerSettings, SetupPyStrategy, Upgrade, UpdatePlan,
};
use envsync::name::PackageName;
use envsync::requirement::Requirement;
use envsync::site::{InstalledDist, SitePackages};
use envsync::sync::{sync_environment, InstallerPolicy, LinkMode, Reinstall, Resolution};
use envsync::version::{RequiresPython, Version, VersionOp, VersionSpecifier};

fn ver(parts: &[u64]) -> Version {
    Version { parts: parts.to_vec() }
}

fn interpreter(parts: &[u64], path: &str) -> Interpreter {
    Interpreter {
        version: ver(parts),
        sys_executable: path.to_string(),
        markers: "cpython-linux".to_string(),
        tags: vec!["cp311-abi3-linux_x86_64".to_string()],
    }
}

fn env_at(parts: &[u64]) -> PythonEnvironment {
    fresh_environment(
        interpreter(parts, "/usr/bin/python3"),
        "/w/.venv".to_string(),
        "/w/.venv/bin".to_string(),
        vec!["/w/.venv/lib/site-packages".to_string()],
    )
}

fn rp(parts: &[u64]) -> RequiresPython {
    RequiresPython { floor: ver(parts) }
}

fn prefix_request(parts: &[u64]) -> PythonRequest {
    PythonRequest::Prefix(ver(parts))
}

fn settings() -> ResolverInstallerSettings {
    ResolverInstallerSettings {
        index_urls: vec!["https://pypi.org/simple".to_string()],
        flat_index_urls: vec![],
        index_strategy: IndexStrategy::FirstIndex,
        keyring_provider: KeyringProvider::Disabled,
        resolution: ResolutionMode::Highest,
        prerelease: PrereleaseMode::IfNecessaryOrExplicit,
        config_settings: vec![],
        exclude_newer: None,
        link_mode: LinkMode::Hardlink,
        compile_bytecode: false,
        upgrade: Upgrade::Keep,
        reinstall: Reinstall::Accept,
        build_options: BuildOptions { no_build: false, no_binary: false },
    }
}

#[test]
fn explicit_request_wins() {
    let r = effective_request(
        Some(prefix_request(&[3, 12])),
        Some(prefix_request(&[3, 8])),
        &Some(rp(&[3, 10])),
    );
    match r {
        Some(PythonRequest::Prefix(v)) => assert_eq!(v.parts, vec![3, 12]),
        _ => panic!("explicit request must win"),
    }
}

#[test]
fn version_file_beats_project_requirement() {
    let r = effective_request(None, Some(prefix_request(&[3, 8])), &Some(rp(&[3, 10])));
    match r {
        Some(PythonRequest::Prefix(v)) => assert_eq!(v.parts, vec![3, 8]),
        _ => panic!("version-file request must beat the project requirement"),
    }
}

#[test]
fn project_requirement_is_last_resort() {
    let r = effective_request(None, None, &Some(rp(&[3, 10])));
    match r {
        Some(PythonRequest::Range(sps)) => {
            assert_eq!(sps.len(), 1);
            assert!(matches!(sps[0].op, VersionOp::GreaterEq));
            assert_eq!(sps[0].version.parts, vec![3, 10]);
        }
        _ => panic!("the project requirement must become a range request"),
    }
    assert!(effective_request(None, None, &None).is_none());
}

#[test]
fn compatible_environment_is_preferred_over_fetching() {
    let env = env_at(&[3, 11, 4]);
    let decision = plan_after_probe(
        VenvProbe::Found(env),
        &Some(prefix_request(&[3, 11])),
        &Some(rp(&[3, 10])),
    );
    match decision {
        ProbeDecision::Use(env) => assert_eq!(env.interpreter.version.parts, vec![3, 11, 4]),
        _ => panic!("a compatible existing environment must be used"),
    }
}

#[test]
fn incompatible_environment_falls_through_to_fetch() {
    let env = env_at(&[3, 9, 2]);
    let decision =
        plan_after_probe(VenvProbe::Found(env), &None, &Some(rp(&[3, 10])));
    assert!(matches!(decision, ProbeDecision::Fetch));
}

#[test]
fn stale_pointer_warns_and_fetches() {
    let decision = plan_after_probe(
        VenvProbe::Stale("/old/python".to_string()),
        &None,
        &None,
    );
    match decision {
        ProbeDecision::FetchAfterWarning(path) => assert_eq!(path, "/old/python"),
        _ => panic!("a stale interpreter pointer is non-fatal"),
    }
}

#[test]
fn probe_failure_propagates() {
    let decision = plan_after_probe(
        VenvProbe::Failed(IoError { kind: IoErrorKind::Other, message: "denied".to_string() }),
        &None,
        &None,
    );
    assert!(matches!(decision, ProbeDecision::Fail(_)));
}

#[test]
fn fetched_interpreter_is_revalidated() {
    let ok = validate_fetched(interpreter(&[3, 11, 0], "/i"), &Some(rp(&[3, 10])));
    assert!(ok.is_ok());
    let err = validate_fetched(interpreter(&[3, 9, 0], "/i"), &Some(rp(&[3, 10])));
    match err {
        Err(ProjectError::RequestedPythonIncompatibility(v, bound)) => {
            assert_eq!(v.parts, vec![3, 9, 0]);
            assert_eq!(bound.floor.parts, vec![3, 10]);
        }
        _ => panic!("an incompatible fetched interpreter must fail typed"),
    }
}

#[test]
fn requirements_meet_check_honors_prefix_and_range() {
    let i = interpreter(&[3, 11, 4], "/i");
    assert!(interpreter_meets_requirements(&i, &None));
    assert!(interpreter_meets_requirements(&i, &Some(prefix_request(&[3, 11]))));
    assert!(!interpreter_meets_requirements(&i, &Some(prefix_request(&[3, 12]))));
    let range = PythonRequest::Range(vec![VersionSpecifier {
        op: VersionOp::GreaterEq,
        version: ver(&[3, 10]),
    }]);
    assert!(interpreter_meets_requirements(&i, &Some(range)));
}

#[test]
fn workspace_requirement_takes_the_lowest_floor() {
    let ws = Workspace {
        venv: "/w/.venv".to_string(),
        member_requires_python: vec![Some(rp(&[3, 10])), None, Some(rp(&[3, 8, 1]))],
    };
    let u = find_requires_python(&ws).unwrap();
    assert_eq!(u.floor.parts, vec![3, 8, 1]);
    let empty = Workspace { venv: "/w/.venv".to_string(), member_requires_python: vec![] };
    assert!(find_requires_python(&empty).is_none());
}

#[test]
fn end_to_end_fresh_project_environment() {
    // Project requirement >=3.10, no existing venv, no version file.
    let project = Some(rp(&[3, 10]));
    let request = effective_request(None, None, &project);
    assert!(request.is_some());

    // Discovery probes the conventional path and finds nothing: fetch.
    let decision = plan_after_probe(VenvProbe::Missing, &request, &project);
    assert!(matches!(decision, ProbeDecision::Fetch));

    // The fetched interpreter satisfies the request and re-validates.
    let fetched = interpreter(&[3, 11, 4], "/fetched/python3.11");
    assert!(interpreter_meets_requirements(&fetched, &request));
    let validated = validate_fetched(fetched, &project).unwrap();

    // Bootstrap is destructive: a fresh venv rooted at the interpreter.
    let action = bootstrap_action(FoundInterpreter::Interpreter(validated));
    let env = match action {
        BootstrapAction::Recreate(interp) => fresh_environment(
            interp,
            "/w/.venv".to_string(),
            "/w/.venv/bin".to_string(),
            vec!["/w/.venv/lib/site-packages".to_string()],
        ),
        BootstrapAction::UseExisting(_) => panic!("no environment existed"),
    };
    assert!(env.site.dists.is_empty());

    // Resolution pins a consistent graph; synchronization yields exactly it.
    let resolution = Resolution {
        dists: vec![
            InstalledDist {
                name: PackageName::parse("black").unwrap(),
                version: ver(&[24, 1, 0]),
                requires: vec![Requirement {
                    name: PackageName::parse("click").unwrap(),
                    specifiers: vec![],
                    applies: true,
                }],
                entry_points: vec!["black".to_string()],
            },
            InstalledDist {
                name: PackageName::parse("click").unwrap(),
                version: ver(&[8, 1, 7]),
                requires: vec![],
                entry_points: vec![],
            },
        ],
        diagnostics: vec![],
    };
    let policy = InstallerPolicy {
        reinstall: Reinstall::Accept,
        link_mode: LinkMode::Hardlink,
        compile_bytecode: false,
        dry_run: false,
    };
    let synced = sync_environment(env, &resolution, &policy);
    let names: Vec<&str> = synced.site.dists.iter().map(|d| d.name.value.as_str()).collect();
    assert_eq!(names, vec!["black", "click"]);

    // And the synced environment now checks out as fresh for the request.
    let spec = RequirementsSpec {
        requirements: vec![Requirement {
            name: PackageName::parse("black").unwrap(),
            specifiers: vec![VersionSpecifier { op: VersionOp::Equal, version: ver(&[24, 1, 0]) }],
            applies: true,
        }],
        constraints: vec![],
        overrides: vec![],
        source_trees: vec![],
    };
    assert!(matches!(
        plan_update(&synced, spec, &settings()),
        UpdatePlan::Fresh { .. }
    ));
}

#[test]
fn bare_interpreter_resolution_assumes_empty_target() {
    let spec = RequirementsSpec {
        requirements: vec![],
        constraints: vec![],
        overrides: vec![],
        source_trees: vec![],
    };
    let r = resolution_request_for_interpreter(spec, &settings(), &interpreter(&[3, 11], "/i"));
    assert!(r.preferences.is_empty());
    assert!(matches!(r.reinstall, Reinstall::Accept));
    assert!(!r.upgrade_all);
    assert_eq!(r.python_version.parts, vec![3, 11]);
}

#[test]
fn reinstall_request_forces_resolution() {
    let env = env_at(&[3, 11, 0]);
    let spec = RequirementsSpec {
        requirements: vec![],
        constraints: vec![],
        overrides: vec![],
        source_trees: vec![],
    };
    let mut s = settings();
    s.reinstall = Reinstall::All;
    // Even with nothing demanded, a reinstall request skips the check.
    assert!(matches!(plan_update(&env, spec, &s), UpdatePlan::Resolve(_)));
}

#[test]
fn pipeline_contexts_scope_the_settings() {
    let s = settings();
    let i = interpreter(&[3, 11, 4], "/i");
    let client = registry_client_config(&s, &i, true, Connectivity::Offline);
    assert_eq!(client.index_urls, vec!["https://pypi.org/simple".to_string()]);
    assert_eq!(client.markers, "cpython-linux");
    assert_eq!(client.platform_tags, vec!["cp311-abi3-linux_x86_64".to_string()]);
    assert!(client.native_tls);
    assert!(matches!(client.connectivity, Connectivity::Offline));

    let conc = Concurrency { downloads: 4, builds: 2, installs: 8 };
    // Name-only resolution runs on defaults: PEP 517, isolated builds, no
    // flat indexes.
    let names_ctx = name_resolution_context(&s, conc);
    assert!(matches!(names_ctx.setup_py, SetupPyStrategy::Pep517));
    assert!(names_ctx.flat_index_urls.is_empty());
    let full_ctx = resolution_context(&s, conc);
    assert_eq!(full_ctx.flat_index_urls, s.flat_index_urls);
    assert_eq!(full_ctx.concurrency.downloads, 4);
}

#[test]
fn applying_an_update_installs_exactly_the_resolution() {
    let env = env_at(&[3, 11, 0]);
    let resolution = Resolution {
        dists: vec![InstalledDist {
            name: PackageName::parse("tomli").unwrap(),
            version: ver(&[2, 0, 1]),
            requires: vec![],
            entry_points: vec![],
        }],
        diagnostics: vec!["tomli is pinned".to_string()],
    };
    let out = apply_update(env, &resolution, &settings());
    assert_eq!(out.site.dists.len(), 1);
    assert_eq!(out.site.dists[0].name.value, "tomli");
    assert_eq!(out.root, "/w/.venv");
}

#[test]
fn venv_creation_request_has_no_customization() {
    let r = envsync::discover::venv_create_request("/w/.venv".to_string());
    assert_eq!(r.path, "/w/.venv");
    assert!(r.prompt.is_none());
    assert!(!r.system_site_packages);
    assert!(!r.allow_existing);
}

#[test]
fn removal_tolerates_only_missing_directories() {
    assert_eq!(removal_outcome(Ok(())).unwrap(), true);
    let missing = IoError { kind: IoErrorKind::NotFound, message: "gone".to_string() };
    assert_eq!(removal_outcome(Err(missing)).unwrap(), false);
    let denied = IoError { kind: IoErrorKind::Other, message: "denied".to_string() };
    assert!(removal_outcome(Err(denied)).is_err());
}

#[test]
fn into_interpreter_keeps_the_handle() {
    let i = FoundInterpreter::Interpreter(interpreter(&[3, 12], "/a"));
    assert_eq!(i.into_interpreter().version.parts, vec![3, 12]);
    let e = FoundInterpreter::Environment(env_at(&[3, 11]));
    assert_eq!(e.into_interpreter().version.parts, vec![3, 11]);
}
