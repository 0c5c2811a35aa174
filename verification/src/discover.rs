//! Interpreter discovery: which Python to use for a workspace.
//!
//! The effective version request is chosen by a fallthrough priority: an
//! explicit request beats a request pinned in a local version file, which
//! beats the project's declared requirement. An existing environment at the
//! conventional path is preferred over fetching a new interpreter whenever it
//! meets both the effective request and the project requirement; a fetched
//! interpreter is re-validated against the project requirement afterward.
use vstd::prelude::*;
use vstd::string::StringExecFns;
use crate::environment::{Interpreter, PythonEnvironment};
use crate::errors::{IoError, IoErrorKind, ProjectError};
use crate::version::{
    part_at, requires_python_contains, specifiers_allow, specifiers_view, all_specifiers_allow,
    RequiresPython, Version, VersionOp, VersionSpecifier,
};

verus! {

/// A request for a Python interpreter version.
pub enum PythonRequest {
    /// The given components must lead the interpreter version: `3.11` asks
    /// for any `3.11.x`.
    Prefix(Version),
    /// The interpreter version must lie in every specifier of the list.
    Range(Vec<VersionSpecifier>),
}

/// Whether the leading components of `v` (padded) are exactly `p`.
pub open spec fn prefix_matches(p: Seq<u64>, v: Seq<u64>) -> bool {
    forall|i: int| 0 <= i < p.len() ==> part_at(v, i) == p[i]
}

/// Whether interpreter version `v` satisfies the request.
pub open spec fn request_satisfied(q: PythonRequest, v: Seq<u64>) -> bool {
    match q {
        PythonRequest::Prefix(p) => prefix_matches(p@, v),
        PythonRequest::Range(sps) => specifiers_allow(specifiers_view(sps@), v),
    }
}

/// Whether `v` satisfies the request, when there is one; no request admits
/// every interpreter.
pub open spec fn optional_request_satisfied(q: Option<PythonRequest>, v: Seq<u64>) -> bool {
    match q {
        Option::Some(r) => request_satisfied(r, v),
        Option::None => true,
    }
}

/// Decide whether the interpreter version `v` satisfies the request.
#[verifier::loop_isolation(false)]
pub fn request_is_satisfied(q: &PythonRequest, v: &Version) -> (r: bool)
    ensures
        r == request_satisfied(*q, v@),
{
    match q {
        PythonRequest::Prefix(p) => {
            let mut i: usize = 0;
            while i < p.parts.len()
                invariant
                    i <= p.parts@.len(),
                    forall|j: int| 0 <= j < i ==> part_at(v@, j) == p@[j],
                decreases p.parts@.len() - i,
            {
                let have: u64 = if i < v.parts.len() {
                    v.parts[i]
                } else {
                    0
                };
                proof {
                    assert(have == part_at(v@, i as int));
                }
                if have != p.parts[i] {
                    proof {
                        assert(part_at(v@, i as int) != p@[i as int]);
                        assert(!prefix_matches(p@, v@));
                    }
                    return false;
                }
                i = i + 1;
            }
            true
        },
        PythonRequest::Range(sps) => all_specifiers_allow(sps, v),
    }
}

/// Check if the given interpreter satisfies the request, when there is one.
pub fn interpreter_meets_requirements(interpreter: &Interpreter, requested: &Option<
    PythonRequest,
>) -> (r: bool)
    ensures
        r == optional_request_satisfied(*requested, interpreter@.version),
{
    match requested {
        Option::Some(q) => request_is_satisfied(q, &interpreter.version),
        Option::None => true,
    }
}

/// The effective version request: an explicit request wins, then a request
/// pinned in a local version file, then the project's declared requirement,
/// turned into a range request on its floor.
pub fn effective_request(
    explicit: Option<PythonRequest>,
    version_file: Option<PythonRequest>,
    project: &Option<RequiresPython>,
) -> (r: Option<PythonRequest>)
    ensures
        explicit is Some ==> r == explicit,
        explicit is None && version_file is Some ==> r == version_file,
        explicit is None && version_file is None ==> (match *project {
            Option::Some(rp) => r matches Some(q) && (forall|v: Seq<u64>|
                #[trigger] request_satisfied(q, v) == requires_python_contains(rp@, v)),
            Option::None => r is None,
        }),
{
    match explicit {
        Option::Some(q) => Option::Some(q),
        Option::None => match version_file {
            Option::Some(q) => Option::Some(q),
            Option::None => match project {
                Option::Some(rp) => {
                    let sp = VersionSpecifier { op: VersionOp::GreaterEq, version: rp.floor.duplicate() };
                    let mut sps: Vec<VersionSpecifier> = Vec::new();
                    sps.push(sp);
                    let q = PythonRequest::Range(sps);
                    proof {
                        assert forall|v: Seq<u64>| #[trigger] request_satisfied(q, v)
                            == requires_python_contains(rp@, v) by {
                            let keys = specifiers_view(sps@);
                            assert(keys.len() == 1);
                            assert(keys[0].op == VersionOp::GreaterEq);
                            assert(keys[0].version == rp@);
                            if requires_python_contains(rp@, v) {
                                assert forall|i: int| 0 <= i < keys.len()
                                    implies crate::version::specifier_allows(#[trigger] keys[i], v) by {
                                    assert(keys[i] == keys[0]);
                                }
                            } else {
                                assert(!crate::version::specifier_allows(keys[0], v));
                            }
                        }
                        crate::version::lemma_padded_trichotomy(rp@, rp@);
                        assert(requires_python_contains(rp@, rp@));
                    }
                    Option::Some(q)
                },
                Option::None => Option::None,
            },
        },
    }
}

/// What probing the conventional environment path reported.
pub enum VenvProbe {
    /// A readable environment exists there.
    Found(PythonEnvironment),
    /// Nothing exists there.
    Missing,
    /// An environment exists but points at an interpreter path that no
    /// longer exists; the path is carried for the warning.
    Stale(String),
    /// Reading the environment failed for another reason.
    Failed(IoError),
}

/// What discovery does after the probe.
pub enum ProbeDecision {
    /// Use the existing environment as it stands.
    Use(PythonEnvironment),
    /// Fall through and fetch an interpreter.
    Fetch,
    /// Fall through and fetch, after warning about the stale pointer path.
    FetchAfterWarning(String),
    /// Stop: the probe failed in a way discovery does not tolerate.
    Fail(IoError),
}

/// Whether a found environment may be used as it stands: it must meet the
/// effective request and the project requirement, when they exist.
pub open spec fn found_env_usable(
    env: PythonEnvironment,
    request: Option<PythonRequest>,
    requires_python: Option<RequiresPython>,
) -> bool {
    optional_request_satisfied(request, env@.interpreter.version) && (match requires_python {
        Option::Some(rp) => requires_python_contains(rp@, env@.interpreter.version),
        Option::None => true,
    })
}

/// Decide what to do with the probe of the conventional environment path. A
/// compatible existing environment is always used; a missing or stale one
/// falls through to fetching; any other failure propagates.
pub fn plan_after_probe(
    probe: VenvProbe,
    request: &Option<PythonRequest>,
    requires_python: &Option<RequiresPython>,
) -> (r: ProbeDecision)
    ensures
        (match probe {
            VenvProbe::Found(env) => if found_env_usable(env, *request, *requires_python) {
                r == (ProbeDecision::Use(env))
            } else {
                r is Fetch
            },
            VenvProbe::Missing => r is Fetch,
            VenvProbe::Stale(path) => r == (ProbeDecision::FetchAfterWarning(path)),
            VenvProbe::Failed(e) => r == (ProbeDecision::Fail(e)),
        }),
{
    match probe {
        VenvProbe::Found(env) => {
            if interpreter_meets_requirements(&env.interpreter, request) {
                let rp_ok = match requires_python {
                    Option::Some(rp) => rp.contains(&env.interpreter.version),
                    Option::None => true,
                };
                if rp_ok {
                    ProbeDecision::Use(env)
                } else {
                    ProbeDecision::Fetch
                }
            } else {
                ProbeDecision::Fetch
            }
        },
        VenvProbe::Missing => ProbeDecision::Fetch,
        VenvProbe::Stale(path) => ProbeDecision::FetchAfterWarning(path),
        VenvProbe::Failed(e) => ProbeDecision::Fail(e),
    }
}

/// Re-validate a fetched interpreter against the project requirement,
/// failing with a typed incompatibility error carrying both the found
/// version and the requirement.
pub fn validate_fetched(interpreter: Interpreter, requires_python: &Option<RequiresPython>) -> (r:
    Result<Interpreter, ProjectError>)
    ensures
        (match *requires_python {
            Option::Some(rp) => requires_python_contains(rp@, interpreter@.version),
            Option::None => true,
        }) ==> r == Result::<Interpreter, ProjectError>::Ok(interpreter),
        r matches Err(e) ==> (match *requires_python {
            Option::Some(rp) => !requires_python_contains(rp@, interpreter@.version) && (match e {
                ProjectError::RequestedPythonIncompatibility(v, b) => v@ == interpreter@.version
                    && b@ == rp@,
                _ => false,
            }),
            Option::None => false,
        }),
        (r is Err) <==> (match *requires_python {
            Option::Some(rp) => !requires_python_contains(rp@, interpreter@.version),
            Option::None => false,
        }),
{
    match requires_python {
        Option::Some(rp) => {
            if rp.contains(&interpreter.version) {
                Result::Ok(interpreter)
            } else {
                let v = interpreter.version.duplicate();
                Result::Err(ProjectError::RequestedPythonIncompatibility(v, rp.duplicate()))
            }
        },
        Option::None => Result::Ok(interpreter),
    }
}

/// The status line discovery emits for the interpreter it chose.
pub open spec fn using_interpreter_text(version: Seq<u64>, path: Seq<char>) -> Seq<char> {
    "Using Python "@ + crate::version::version_chars(version) + " interpreter at: "@ + path
}

/// Build the status line naming the chosen interpreter.
pub fn using_interpreter_message(interpreter: &Interpreter) -> (r: String)
    ensures
        r@ == using_interpreter_text(interpreter@.version, interpreter@.sys_executable),
{
    let mut s = String::new();
    s.append("Using Python ");
    let mut chars: Vec<char> = Vec::new();
    crate::version::push_version_chars(&mut chars, &interpreter.version.parts);
    crate::strutil::append_chars(&mut s, &chars);
    s.append(" interpreter at: ");
    s.append(interpreter.sys_executable.as_str());
    proof {
        assert(s@ =~= using_interpreter_text(interpreter@.version, interpreter@.sys_executable));
    }
    s
}

/// What discovery found: a bare interpreter, or a whole usable environment.
/// Callers pattern-match to decide whether bootstrap may be destructive.
pub enum FoundInterpreter {
    Interpreter(Interpreter),
    Environment(PythonEnvironment),
}

/// The interpreter a discovery outcome carries.
pub open spec fn found_interpreter_key(f: FoundInterpreter) -> crate::environment::InterpreterKey {
    match f {
        FoundInterpreter::Interpreter(i) => i@,
        FoundInterpreter::Environment(e) => e@.interpreter,
    }
}

impl FoundInterpreter {
    /// Give up the environment, keeping only its interpreter.
    pub fn into_interpreter(self) -> (r: Interpreter)
        ensures
            r@ == found_interpreter_key(self),
    {
        match self {
            FoundInterpreter::Interpreter(interpreter) => interpreter,
            FoundInterpreter::Environment(venv) => venv.interpreter,
        }
    }
}

/// What initializing the project environment does with a discovery outcome.
pub enum BootstrapAction {
    /// An existing, compatible environment: use it unchanged.
    UseExisting(PythonEnvironment),
    /// A bare interpreter: remove whatever sits at the target path and
    /// create a fresh environment rooted at this interpreter. Destructive by
    /// design; compatibility was already rejected upstream.
    Recreate(Interpreter),
}

/// Decide whether initialization reuses the found environment or recreates
/// one from the found interpreter.
pub fn bootstrap_action(found: FoundInterpreter) -> (r: BootstrapAction)
    ensures
        found matches FoundInterpreter::Environment(env) ==> r == (BootstrapAction::UseExisting(
            env,
        )),
        found matches FoundInterpreter::Interpreter(i) ==> r == (BootstrapAction::Recreate(i)),
{
    match found {
        FoundInterpreter::Environment(env) => BootstrapAction::UseExisting(env),
        FoundInterpreter::Interpreter(i) => BootstrapAction::Recreate(i),
    }
}

/// One request to the virtual-environment builder.
pub struct VenvCreateRequest {
    /// Where the environment is rooted.
    pub path: String,
    /// A prompt customization; project environments never set one.
    pub prompt: Option<String>,
    /// Whether the environment sees the system site-packages.
    pub system_site_packages: bool,
    /// Whether a directory already present at the path is tolerated.
    pub allow_existing: bool,
}

/// The builder request initialization uses: rooted at the workspace's
/// conventional path, with no prompt customization, without system
/// site-packages, and never on top of an existing directory.
pub fn venv_create_request(path: String) -> (r: VenvCreateRequest)
    ensures
        r.path@ == path@,
        r.prompt is None,
        !r.system_site_packages,
        !r.allow_existing,
{
    VenvCreateRequest { path, prompt: Option::None, system_site_packages: false, allow_existing: false }
}

/// Interpret the removal of a stale environment directory: success or a
/// missing directory both proceed (reporting whether anything was removed);
/// any other failure propagates.
pub fn removal_outcome(r: Result<(), IoError>) -> (out: Result<bool, ProjectError>)
    ensures
        (match r {
            Result::Ok(u) => out == Result::<bool, ProjectError>::Ok(true),
            Result::Err(e) => (match e.kind {
                IoErrorKind::NotFound => out == Result::<bool, ProjectError>::Ok(false),
                IoErrorKind::Other => out == Result::<bool, ProjectError>::Err(
                    (ProjectError::Io(e)),
                ),
            }),
        }),
{
    match r {
        Result::Ok(()) => Result::Ok(true),
        Result::Err(e) => match e.kind {
            IoErrorKind::NotFound => Result::Ok(false),
            IoErrorKind::Other => Result::Err(ProjectError::Io(e)),
        },
    }
}

/// A workspace: its conventional venv path and, for each member package, the
/// Python requirement the member declares, if any.
pub struct Workspace {
    pub venv: String,
    pub member_requires_python: Vec<Option<RequiresPython>>,
}

/// Compute the Python requirement of the whole workspace: the union of the
/// members' requirements, which is the lowest floor any member declares.
pub fn find_requires_python(workspace: &Workspace) -> (r: Option<RequiresPython>)
    ensures
        (r is Some) <==> (exists|i: int|
            0 <= i < workspace.member_requires_python@.len()
                && workspace.member_requires_python@[i] is Some),
        r matches Some(u) ==> (forall|i: int|
            0 <= i < workspace.member_requires_python@.len()
                && workspace.member_requires_python@[i] is Some ==> crate::version::padded_le(
                u@,
                workspace.member_requires_python@[i]->Some_0@,
            )),
        r matches Some(u) ==> (exists|i: int|
            0 <= i < workspace.member_requires_python@.len()
                && workspace.member_requires_python@[i] is Some && crate::version::padded_eq(
                u@,
                #[trigger] workspace.member_requires_python@[i]->Some_0@,
            )),
{
    crate::version::requires_python_union(&workspace.member_requires_python)
}

} // verus!
