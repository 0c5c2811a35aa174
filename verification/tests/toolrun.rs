use envsync::discover::PythonRequest;
use envsync::environment::{fresh_environment, Interpreter, PythonEnvironment};
use envsync::name::PackageName;
use envsync::requirement::Requirement;
use envsync::runner::{
    executable_warning, exit_for_child, get_entrypoints, matching_packages, module_path_entries,
    on_spawn_failure, search_path_entries, split_command, suggest_command, ExecutableWarning,
    ExitStatus, SpawnFailure, SpawnFollowup, ToolRunCommand,
};
use envsync::site::{InstalledDist, SitePackages};
use envsync::tool::{
    combine_requirements, fingerprint_of, parse_target, plan_tool_environment, same_fingerprint,
    EnvironmentCache, ToolEnvPlan,
};
use envsync::version::{Version, VersionOp, VersionSpecifier};

fn name(s: &str) -> PackageName {
    PackageName::parse(s).unwrap()
}

fn ver(parts: &[u64]) -> Version {
    Version { parts: parts.to_vec() }
}

fn req_exact(n: &str, parts: &[u64]) -> Requirement {
    Requirement {
        name: name(n),
        specifiers: vec![VersionSpecifier { op: VersionOp::Equal, version: ver(parts) }],
        applies: true,
    }
}

fn interpreter(parts: &[u64], path: &str) -> Interpreter {
    Interpreter {
        version: ver(parts),
        sys_executable: path.to_string(),
        markers: "cpython-linux".to_string(),
        tags: vec!["cp311-abi3-linux_x86_64".to_string()],
    }
}

fn dist(n: &str, parts: &[u64], requires: Vec<Requirement>, eps: &[&str]) -> InstalledDist {
    InstalledDist {
        name: name(n),
        version: ver(parts),
        requires,
        entry_points: eps.iter().map(|e| e.to_string()).collect(),
    }
}

fn black_environment() -> PythonEnvironment {
    let mut env = fresh_environment(
        interpreter(&[3, 11, 4], "/tools/python3.11"),
        "/tools/black".to_string(),
        "/tools/black/bin".to_string(),
        vec!["/tools/black/lib/site-packages".to_string()],
    );
    env.site = SitePackages {
        dists: vec![
            dist("black", &[24, 1, 0], vec![], &["black", "blackd"]),
            dist("click", &[8, 1, 7], vec![], &[]),
        ],
    };
    env
}

#[test]
fn target_with_version_becomes_pinned_requirement() {
    let spec = parse_target("tool@1.2.3");
    assert_eq!(spec.executable, "tool");
    assert_eq!(spec.requirement, "tool==1.2.3");
}

#[test]
fn target_with_empty_version_is_taken_whole() {
    let spec = parse_target("tool@");
    assert_eq!(spec.executable, "tool@");
    assert_eq!(spec.requirement, "tool@");
}

#[test]
fn target_with_invalid_version_is_taken_whole() {
    let spec = parse_target("tool@not-a-version");
    assert_eq!(spec.executable, "tool@not-a-version");
    assert_eq!(spec.requirement, "tool@not-a-version");
}

#[test]
fn git_url_target_is_left_untouched() {
    // The pre-`@` segment is no valid package name.
    let spec = parse_target("git+https://x/y.git@main");
    assert_eq!(spec.executable, "git+https://x/y.git@main");
    assert_eq!(spec.requirement, "git+https://x/y.git@main");
}

#[test]
fn prerelease_version_targets_are_pinned_too() {
    let spec = parse_target("tool@1.0rc1");
    assert_eq!(spec.executable, "tool");
    assert_eq!(spec.requirement, "tool==1.0rc1");
}

#[test]
fn plain_target_needs_no_special_handling() {
    let spec = parse_target("uv");
    assert_eq!(spec.executable, "uv");
    assert_eq!(spec.requirement, "uv");
}

#[test]
fn fingerprints_are_deterministic_and_content_keyed() {
    let interp = interpreter(&[3, 11, 4], "/tools/python3.11");
    let reqs1 = vec![req_exact("black", &[24, 1, 0]), req_exact("tomli", &[2, 0])];
    let reqs2 = vec![req_exact("black", &[24, 1, 0]), req_exact("tomli", &[2, 0])];
    let f1 = fingerprint_of(&reqs1, &interp);
    let f2 = fingerprint_of(&reqs2, &interp);
    assert!(same_fingerprint(&f1, &f2));

    // Changing any entry of the set changes the fingerprint.
    let reqs3 = vec![req_exact("black", &[24, 1, 0]), req_exact("tomli", &[2, 0, 1])];
    let f3 = fingerprint_of(&reqs3, &interp);
    assert!(!same_fingerprint(&f1, &f3));

    // So does another interpreter.
    let f4 = fingerprint_of(&reqs1, &interpreter(&[3, 12, 0], "/other/python3.12"));
    assert!(!same_fingerprint(&f1, &f4));
}

#[test]
fn cache_is_keyed_by_content() {
    let interp = interpreter(&[3, 11, 4], "/tools/python3.11");
    let reqs = vec![req_exact("black", &[24, 1, 0])];
    let f = fingerprint_of(&reqs, &interp);
    let mut cache = EnvironmentCache::new();
    assert!(cache.lookup(&f).is_none());
    cache.store(fingerprint_of(&reqs, &interp), black_environment());
    // The identical request maps to the same cached environment.
    let hit = cache.lookup(&f).expect("same content must hit");
    assert_eq!(hit.root, "/tools/black");
    // A differing requirement set never collides.
    let other = fingerprint_of(&vec![req_exact("ruff", &[0, 4, 0])], &interp);
    assert!(cache.lookup(&other).is_none());
}

#[test]
fn installed_tool_is_reused_without_resolution() {
    // The tool is already installed for the exact resolved requirement set:
    // the run reuses the environment and never touches resolution, the
    // installer, or the network.
    let env = black_environment();
    let reqs = vec![req_exact("black", &[24, 1, 0])];
    let interp = interpreter(&[3, 11, 4], "/tools/python3.11");
    let plan = plan_tool_environment(false, &None, Some(env), &reqs, &interp);
    match plan {
        ToolEnvPlan::Reuse(env) => assert_eq!(env.root, "/tools/black"),
        ToolEnvPlan::CreateCached(_) => panic!("an installed, satisfied tool must be reused"),
    }
}

#[test]
fn unsatisfied_tool_environment_goes_to_the_cache() {
    let env = black_environment();
    let reqs = vec![req_exact("black", &[25, 0, 0])];
    let interp = interpreter(&[3, 11, 4], "/tools/python3.11");
    let plan = plan_tool_environment(false, &None, Some(env), &reqs, &interp);
    assert!(matches!(plan, ToolEnvPlan::CreateCached(_)));
}

#[test]
fn isolation_ignores_installed_tools() {
    let env = black_environment();
    let reqs = vec![req_exact("black", &[24, 1, 0])];
    let interp = interpreter(&[3, 11, 4], "/tools/python3.11");
    let plan = plan_tool_environment(true, &None, Some(env), &reqs, &interp);
    assert!(matches!(plan, ToolEnvPlan::CreateCached(_)));
}

#[test]
fn interpreter_mismatch_skips_reuse() {
    let env = black_environment();
    let reqs = vec![req_exact("black", &[24, 1, 0])];
    let interp = interpreter(&[3, 12, 0], "/tools/python3.12");
    let request = Some(PythonRequest::Prefix(ver(&[3, 12])));
    let plan = plan_tool_environment(false, &request, Some(env), &reqs, &interp);
    assert!(matches!(plan, ToolEnvPlan::CreateCached(_)));
}

#[test]
fn from_requirement_wins_over_conflicting_with_entry() {
    let from = req_exact("black", &[24, 1, 0]);
    let with = vec![req_exact("black", &[23, 0, 0]), req_exact("tomli", &[2, 0])];
    let combined = combine_requirements(&from, &with);
    let names: Vec<&str> = combined.iter().map(|r| r.name.value.as_str()).collect();
    assert_eq!(names, vec!["black", "tomli"]);
    assert_eq!(combined[0].specifiers[0].version.parts, vec![24, 1, 0]);
}

#[test]
fn command_splits_into_target_and_arguments() {
    let args = vec!["black".to_string(), "--check".to_string(), ".".to_string()];
    let (target, rest) = split_command(&args).unwrap();
    assert_eq!(target, "black");
    assert_eq!(rest, vec!["--check".to_string(), ".".to_string()]);
    assert!(split_command(&vec![]).is_none());
}

#[test]
fn child_search_paths_prepend_the_environment() {
    let env = black_environment();
    let path = search_path_entries(&env, &vec!["/usr/bin".to_string(), "/bin".to_string()]);
    assert_eq!(path, vec!["/tools/black/bin", "/usr/bin", "/bin"]);
    let pythonpath = module_path_entries(&env, &vec!["/extra".to_string()]);
    assert_eq!(pythonpath, vec!["/tools/black/lib/site-packages", "/extra"]);
}

#[test]
fn entrypoints_come_from_the_tool_package() {
    let env = black_environment();
    let eps = get_entrypoints(&name("black"), &env).unwrap();
    assert_eq!(eps, vec!["black".to_string(), "blackd".to_string()]);
    assert!(get_entrypoints(&name("ruff"), &env).is_err());
}

#[test]
fn executable_owned_by_package_needs_no_warning() {
    let env = black_environment();
    let w = executable_warning(&"black".to_string(), &name("black"), &env.site);
    assert!(matches!(w, ExecutableWarning::ProvidedByPackage));
}

#[test]
fn executable_from_single_dependency_is_suggested() {
    let site = SitePackages {
        dists: vec![
            dist("httpie", &[3, 2], vec![], &["http", "https"]),
            dist("pygments", &[2, 17], vec![], &["pygmentize"]),
        ],
    };
    let w = executable_warning(&"pygmentize".to_string(), &name("httpie"), &site);
    match w {
        ExecutableWarning::ProvidedByDependency(n) => {
            assert_eq!(n.value, "pygments");
            let hint = suggest_command(
                &ToolRunCommand::Uvx,
                &n,
                &"pygmentize".to_string(),
            );
            assert_eq!(hint, "uvx --from pygments pygmentize");
        }
        _ => panic!("a single provider must be suggested"),
    }
}

#[test]
fn executable_from_several_dependencies_lists_them() {
    let site = SitePackages {
        dists: vec![
            dist("one", &[1], vec![], &["shared"]),
            dist("two", &[2], vec![], &["shared"]),
        ],
    };
    let w = executable_warning(&"shared".to_string(), &name("zero"), &site);
    match w {
        ExecutableWarning::ProvidedByDependencies(ns) => {
            let names: Vec<&str> = ns.iter().map(|n| n.value.as_str()).collect();
            assert_eq!(names, vec!["one", "two"]);
        }
        _ => panic!("several providers must all be listed"),
    }
}

#[test]
fn duplicate_providers_of_one_package_suggest_it_once() {
    // Two installed records of the same package both provide the executable:
    // still a single-dependency suggestion, named once.
    let site = SitePackages {
        dists: vec![
            dist("pygments", &[2, 17], vec![], &["pygmentize"]),
            dist("pygments", &[2, 16], vec![], &["pygmentize"]),
        ],
    };
    let w = executable_warning(&"pygmentize".to_string(), &name("httpie"), &site);
    match w {
        ExecutableWarning::ProvidedByDependency(n) => assert_eq!(n.value, "pygments"),
        _ => panic!("one providing package must be suggested exactly once"),
    }
}

#[test]
fn entrypoints_come_from_the_first_matching_distribution() {
    let mut env = black_environment();
    env.site.dists.push(dist("black", &[23, 0, 0], vec![], &["black-old"]));
    let eps = get_entrypoints(&name("black"), &env).unwrap();
    assert_eq!(eps, vec!["black".to_string(), "blackd".to_string()]);
}

#[test]
fn unknown_executable_warns_plainly() {
    let env = black_environment();
    let w = executable_warning(&"missing".to_string(), &name("black"), &env.site);
    assert!(matches!(w, ExecutableWarning::NotProvided));
    let packages = matching_packages(&"missing".to_string(), &env.site);
    assert!(packages.is_empty());
}

#[test]
fn missing_executable_reports_entrypoints_instead_of_raw_error() {
    let env = black_environment();
    let eps = get_entrypoints(&name("black"), &env);
    let f = on_spawn_failure(&SpawnFailure::ExecutableNotFound, eps);
    match f {
        SpawnFollowup::ReportEntrypoints(eps) => {
            assert_eq!(eps, vec!["black".to_string(), "blackd".to_string()])
        }
        SpawnFollowup::Propagate => panic!("the missing-executable path recovers locally"),
    }
    let other = on_spawn_failure(
        &SpawnFailure::Other("permission denied".to_string()),
        get_entrypoints(&name("black"), &black_environment()),
    );
    assert!(matches!(other, SpawnFollowup::Propagate));
}

#[test]
fn exit_status_mirrors_the_child() {
    assert!(matches!(exit_for_child(true), ExitStatus::Success));
    assert!(matches!(exit_for_child(false), ExitStatus::Failure));
    assert_eq!(ExitStatus::Success.code(), 0);
    assert_eq!(ExitStatus::Failure.code(), 2);
    assert_eq!(ExitStatus::Error.code(), 1);
}

#[test]
fn invocation_source_labels() {
    assert_eq!(ToolRunCommand::Uvx.label(), "uvx");
    assert_eq!(ToolRunCommand::ToolRun.label(), "uv tool run");
}
