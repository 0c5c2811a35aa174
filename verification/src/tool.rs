//! Ephemeral tool execution: target parsing, the combined requirement set,
//! content fingerprints, and the cached-environment decision.
//!
//! A tool target such as `tool@1.2.3` names an executable and pins the
//! package that provides it; a target whose pre-`@` segment is no package
//! name, or whose post-`@` segment is no version, is taken whole as the
//! command. A reusable installed environment is preferred; otherwise the
//! ephemeral cache is keyed by a fingerprint of the resolved requirement set
//! and the interpreter identity, so differing requirement sets never
//! collide.
use vstd::prelude::*;
use core::str::FromStr;
use crate::environment::{Interpreter, PythonEnvironment};
use crate::discover::{optional_request_satisfied, PythonRequest};
use crate::name::{valid_name, valid_name_chars};
use crate::requirement::{reqs_view, ReqKey, Requirement};
use crate::site::{transitively_satisfied, SatisfiesResult};
use crate::strutil::{chars_of_str, string_from_chars};

verus! {

/// Whether a string is a valid version. Valid versions depend on the
/// characters alone.
pub uninterp spec fn pep440_parses(s: Seq<char>) -> bool;

/// Relies on `pep440_rs::Version::from_str`: it decides whether a string is
/// a valid PEP 440 version, returns a `Result` rather than panicking, and
/// depends on the characters of the string alone.
#[verifier::external_body]
fn version_string_parses(s: &str) -> (r: bool)
    ensures
        r == pep440_parses(s@),
{
    pep440_rs::Version::from_str(s).is_ok()
}

/// A parsed tool target: the executable to run and the requirement string
/// that provides it.
pub struct TargetSpec {
    pub executable: String,
    pub requirement: String,
}

/// The position of the first `@` in `s` at or after `k`, or the length of
/// `s` when there is none.
pub open spec fn first_at_from(s: Seq<char>, k: int) -> int
    decreases s.len() - k,
{
    if k < 0 || k >= s.len() {
        s.len() as int
    } else if s[k] == '@' {
        k
    } else {
        first_at_from(s, k + 1)
    }
}

/// The position of the first `@` in `s`, or the length of `s`.
pub open spec fn first_at(s: Seq<char>) -> int {
    first_at_from(s, 0)
}

/// A position left of which no `@` occurs, and which holds one or is the
/// end, is the first `@` position.
proof fn lemma_first_at_from(s: Seq<char>, k: int, i: int)
    requires
        0 <= k <= i <= s.len(),
        forall|j: int| k <= j < i ==> s[j] != '@',
        i == s.len() || s[i] == '@',
    ensures
        first_at_from(s, k) == i,
    decreases i - k,
{
    if k < i {
        lemma_first_at_from(s, k + 1, i);
    }
}

/// The index of the first `@` among the characters, if any.
fn find_first_at(chars: &Vec<char>) -> (at: Option<usize>)
    ensures
        at is None ==> (forall|j: int| 0 <= j < chars@.len() ==> chars@[j] != '@'),
        at matches Some(p) ==> p < chars@.len() && chars@[p as int] == '@' && (forall|j: int|
            0 <= j < p ==> chars@[j] != '@'),
{
    let mut i: usize = 0;
    while i < chars.len()
        invariant
            i <= chars@.len(),
            forall|j: int| 0 <= j < i ==> chars@[j] != '@',
        decreases chars@.len() - i,
    {
        if chars[i] == '@' {
            return Option::Some(i);
        }
        i = i + 1;
    }
    Option::None
}

/// Parse a tool target. A target without `@` is taken whole: the command
/// and the requirement are the target itself. With an `@`, the pre-`@`
/// segment must be a well-formed package name and the post-`@` segment a
/// non-empty valid version; then the command is the name and the
/// requirement pins it to that version. Anything else is taken whole.
pub fn parse_target(target: &str) -> (r: TargetSpec)
    ensures
        ({
            let s = target@;
            let p = first_at(s);
            if p == s.len() {
                r.executable@ == s && r.requirement@ == s
            } else {
                let name = s.subrange(0, p);
                let ver = s.subrange(p + 1, s.len() as int);
                if ver.len() == 0 || !valid_name(name) || !pep440_parses(ver) {
                    r.executable@ == s && r.requirement@ == s
                } else {
                    r.executable@ == name && r.requirement@ == name + "=="@ + ver
                }
            }
        }),
{
    let chars = chars_of_str(target);
    let at = find_first_at(&chars);
    match at {
        Option::None => {
            proof {
                lemma_first_at_from(target@, 0, target@.len() as int);
            }
            TargetSpec {
                executable: string_from_chars(&chars),
                requirement: string_from_chars(&chars),
            }
        },
        Option::Some(p) => {
            proof {
                lemma_first_at_from(target@, 0, p as int);
            }
            let mut name_chars: Vec<char> = Vec::new();
            let mut k: usize = 0;
            while k < p
                invariant
                    k <= p,
                    p < chars@.len(),
                    chars@ == target@,
                    name_chars@ == chars@.subrange(0, k as int),
                decreases p - k,
            {
                name_chars.push(chars[k]);
                proof {
                    assert(name_chars@ =~= chars@.subrange(0, k + 1));
                }
                k = k + 1;
            }
            let total = chars.len();
            let mut ver_chars: Vec<char> = Vec::new();
            let mut m: usize = p + 1;
            while m < total
                invariant
                    p + 1 <= m <= total,
                    total == chars@.len(),
                    chars@ == target@,
                    ver_chars@ == chars@.subrange(p + 1, m as int),
                decreases total - m,
            {
                ver_chars.push(chars[m]);
                proof {
                    assert(ver_chars@ =~= chars@.subrange(p + 1, m + 1));
                }
                m = m + 1;
            }
            if ver_chars.len() == 0 {
                return TargetSpec {
                    executable: string_from_chars(&chars),
                    requirement: string_from_chars(&chars),
                };
            }
            if !valid_name_chars(&name_chars) {
                return TargetSpec {
                    executable: string_from_chars(&chars),
                    requirement: string_from_chars(&chars),
                };
            }
            let ver_string = string_from_chars(&ver_chars);
            if version_string_parses(ver_string.as_str()) {
                let mut req_chars: Vec<char> = Vec::new();
                let mut n: usize = 0;
                while n < name_chars.len()
                    invariant
                        n <= name_chars@.len(),
                        req_chars@ == name_chars@.subrange(0, n as int),
                    decreases name_chars@.len() - n,
                {
                    req_chars.push(name_chars[n]);
                    proof {
                        assert(req_chars@ =~= name_chars@.subrange(0, n + 1));
                    }
                    n = n + 1;
                }
                proof {
                    assert(req_chars@ =~= name_chars@);
                }
                req_chars.push('=');
                req_chars.push('=');
                let mut q: usize = 0;
                let ghost head = req_chars@;
                while q < ver_chars.len()
                    invariant
                        q <= ver_chars@.len(),
                        req_chars@ == head + ver_chars@.subrange(0, q as int),
                    decreases ver_chars@.len() - q,
                {
                    req_chars.push(ver_chars[q]);
                    proof {
                        assert(req_chars@ =~= head + ver_chars@.subrange(0, q + 1));
                    }
                    q = q + 1;
                }
                proof {
                    reveal_strlit("==");
                    assert("=="@ =~= seq!['=', '=']);
                    assert(req_chars@ =~= target@.subrange(0, p as int) + "=="@ + target@.subrange(
                        p + 1,
                        target@.len() as int,
                    ));
                }
                TargetSpec {
                    executable: string_from_chars(&name_chars),
                    requirement: string_from_chars(&req_chars),
                }
            } else {
                TargetSpec {
                    executable: string_from_chars(&chars),
                    requirement: string_from_chars(&chars),
                }
            }
        },
    }
}

/// A content key for the ephemeral environment cache: the identity of the
/// interpreter and the resolved requirement set, the tool's own requirement
/// first.
pub struct Fingerprint {
    pub interpreter_id: String,
    pub requirements: Vec<Requirement>,
}

/// The mathematical content of a [`Fingerprint`].
pub ghost struct FingerprintKey {
    pub interpreter_id: Seq<char>,
    pub requirements: Seq<ReqKey>,
}

impl View for Fingerprint {
    type V = FingerprintKey;

    open spec fn view(&self) -> FingerprintKey {
        FingerprintKey {
            interpreter_id: self.interpreter_id@,
            requirements: reqs_view(self.requirements@),
        }
    }
}

/// The fingerprint of a requirement set under an interpreter.
pub open spec fn spec_fingerprint(interpreter_id: Seq<char>, reqs: Seq<ReqKey>) -> FingerprintKey {
    FingerprintKey { interpreter_id, requirements: reqs }
}

/// Fingerprints are deterministic and collision-free: two fingerprints are
/// equal exactly when they were taken over the same interpreter identity
/// and the same requirement set — so changing any entry of the set changes
/// the fingerprint.
pub proof fn lemma_fingerprint_discriminates(
    i1: Seq<char>,
    r1: Seq<ReqKey>,
    i2: Seq<char>,
    r2: Seq<ReqKey>,
)
    ensures
        (spec_fingerprint(i1, r1) == spec_fingerprint(i2, r2)) <==> (i1 == i2 && r1 == r2),
{
}

/// Compute the content fingerprint of a resolved requirement set under an
/// interpreter: the interpreter is identified by its executable path.
pub fn fingerprint_of(requirements: &Vec<Requirement>, interpreter: &Interpreter) -> (f:
    Fingerprint)
    ensures
        f@ == spec_fingerprint(interpreter@.sys_executable, reqs_view(requirements@)),
{
    let f = Fingerprint {
        interpreter_id: interpreter.sys_executable.clone(),
        requirements: crate::requirement::duplicate_requirements(requirements),
    };
    f
}

/// Decide whether two fingerprints key the same cache entry.
pub fn same_fingerprint(a: &Fingerprint, b: &Fingerprint) -> (r: bool)
    ensures
        r == (a@ == b@),
{
    if !(a.interpreter_id == b.interpreter_id) {
        return false;
    }
    if a.requirements.len() != b.requirements.len() {
        proof {
            assert(a@.requirements.len() == a.requirements@.len());
            assert(b@.requirements.len() == b.requirements@.len());
        }
        return false;
    }
    let mut i: usize = 0;
    while i < a.requirements.len()
        invariant
            i <= a.requirements@.len(),
            a.requirements@.len() == b.requirements@.len(),
            a@.interpreter_id == b@.interpreter_id,
            forall|j: int| 0 <= j < i ==> a.requirements@[j]@ == b.requirements@[j]@,
        decreases a.requirements@.len() - i,
    {
        if !a.requirements[i].same_as(&b.requirements[i]) {
            proof {
                assert(a@.requirements[i as int] == a.requirements@[i as int]@);
                assert(b@.requirements[i as int] == b.requirements@[i as int]@);
            }
            return false;
        }
        i = i + 1;
    }
    proof {
        assert(a@.requirements =~= b@.requirements);
    }
    true
}

/// The combined requirement set of a tool run: the `from` requirement
/// first, then every `with` requirement that names another package. A
/// `with` entry naming the tool's own package yields to the `from`
/// requirement.
#[verifier::loop_isolation(false)]
pub fn combine_requirements(from: &Requirement, with: &Vec<Requirement>) -> (out: Vec<Requirement>)
    ensures
        reqs_view(out@) == seq![from@] + reqs_view(with@).filter(
            |r: ReqKey| r.name != from@.name,
        ),
{
    let ghost pred = |r: ReqKey| r.name != from@.name;
    let ghost wv = reqs_view(with@);
    let mut out: Vec<Requirement> = Vec::new();
    out.push(from.duplicate());
    proof {
        assert(wv.subrange(0, 0) =~= Seq::<ReqKey>::empty());
        reveal_with_fuel(Seq::<_>::filter, 1);
        assert(reqs_view(out@) =~= seq![from@] + wv.subrange(0, 0).filter(pred));
    }
    let mut i: usize = 0;
    while i < with.len()
        invariant
            i <= with@.len(),
            wv == reqs_view(with@),
            wv.len() == with@.len(),
            reqs_view(out@) == seq![from@] + wv.subrange(0, i as int).filter(pred),
        decreases with@.len() - i,
    {
        let ghost prefix = wv.subrange(0, i as int);
        let ghost extended = wv.subrange(0, i + 1);
        proof {
            assert(extended.drop_last() =~= prefix);
            assert(extended.last() == wv[i as int]);
            assert(wv[i as int] == with@[i as int]@);
        }
        let ghost out_before = reqs_view(out@);
        if !with[i].name.same_as(&from.name) {
            out.push(with[i].duplicate());
            proof {
                assert(pred(wv[i as int]));
                assert(extended.filter(pred) == prefix.filter(pred).push(wv[i as int]));
                assert(reqs_view(out@) =~= out_before.push(wv[i as int]));
                assert(reqs_view(out@) =~= seq![from@] + extended.filter(pred));
            }
        } else {
            proof {
                assert(!pred(wv[i as int]));
                assert(extended.filter(pred) == prefix.filter(pred));
                assert(reqs_view(out@) =~= seq![from@] + extended.filter(pred));
            }
        }
        i = i + 1;
    }
    proof {
        assert(wv.subrange(0, wv.len() as int) =~= wv);
    }
    out
}

/// What a tool run does for its environment.
pub enum ToolEnvPlan {
    /// The installed environment serves as it stands: no resolution, no
    /// synchronization, no network.
    Reuse(PythonEnvironment),
    /// Build or fetch the ephemeral environment keyed by this fingerprint.
    CreateCached(Fingerprint),
}

/// Decide whether a tool run may reuse the environment recorded for the
/// tool, or must go to the content-keyed cache. The recorded environment is
/// reused only when isolation is not forced, the environment's interpreter
/// meets the version request, and its installed set already satisfies the
/// whole combined requirement set.
pub fn plan_tool_environment(
    isolated: bool,
    python_request: &Option<PythonRequest>,
    existing: Option<PythonEnvironment>,
    requirements: &Vec<Requirement>,
    interpreter: &Interpreter,
) -> (r: ToolEnvPlan)
    ensures
        r matches ToolEnvPlan::Reuse(env) ==> !isolated && (match existing {
            Option::Some(e) => env == e,
            Option::None => false,
        }) && optional_request_satisfied(*python_request, env@.interpreter.version)
            && transitively_satisfied(env@.site, Seq::empty(), reqs_view(requirements@)),
        r matches ToolEnvPlan::CreateCached(fp) ==> fp@ == spec_fingerprint(
            interpreter@.sys_executable,
            reqs_view(requirements@),
        ),
        isolated ==> r is CreateCached,
        existing is None ==> r is CreateCached,
        !isolated && (match existing {
            Option::Some(e) => optional_request_satisfied(*python_request, e@.interpreter.version)
                && transitively_satisfied(e@.site, Seq::empty(), reqs_view(requirements@)),
            Option::None => false,
        }) ==> r is Reuse,
{
    if !isolated {
        match existing {
            Option::Some(env) => {
                if crate::discover::interpreter_meets_requirements(
                    &env.interpreter,
                    python_request,
                ) {
                    let constraints: Vec<Requirement> = Vec::new();
                    let fresh = match env.site.satisfies(requirements, &constraints) {
                        SatisfiesResult::Fresh { recursive_requirements: _ } => true,
                        SatisfiesResult::Unsatisfied { requirement: _ } => false,
                    };
                    if fresh {
                        proof {
                            assert(reqs_view(constraints@) =~= Seq::<ReqKey>::empty());
                        }
                        return ToolEnvPlan::Reuse(env);
                    }
                    proof {
                        assert(reqs_view(constraints@) =~= Seq::<ReqKey>::empty());
                    }
                }
                ToolEnvPlan::CreateCached(fingerprint_of(requirements, interpreter))
            },
            Option::None => ToolEnvPlan::CreateCached(fingerprint_of(requirements, interpreter)),
        }
    } else {
        ToolEnvPlan::CreateCached(fingerprint_of(requirements, interpreter))
    }
}

/// The ephemeral environment cache, keyed by content fingerprints. No two
/// entries share a key, so a lookup never returns an environment built for
/// another requirement set.
pub struct EnvironmentCache {
    pub entries: Vec<(Fingerprint, PythonEnvironment)>,
}

impl EnvironmentCache {
    /// Whether no two entries share a fingerprint.
    pub open spec fn wf(&self) -> bool {
        forall|i: int, j: int|
            0 <= i < self.entries@.len() && 0 <= j < self.entries@.len() && i != j ==> (
            #[trigger] self.entries@[i].0)@ != (#[trigger] self.entries@[j].0)@
    }

    /// An empty cache.
    pub fn new() -> (c: EnvironmentCache)
        ensures
            c.wf(),
            c.entries@.len() == 0,
    {
        EnvironmentCache { entries: Vec::new() }
    }

    /// Look up the environment stored under a fingerprint. What comes back
    /// was stored under exactly this key: the cache never returns an entry
    /// whose fingerprint mismatches the request.
    pub fn lookup(&self, fp: &Fingerprint) -> (r: Option<&PythonEnvironment>)
        ensures
            (r is Some) <==> (exists|i: int|
                0 <= i < self.entries@.len() && (#[trigger] self.entries@[i].0)@ == fp@),
            r matches Some(env) ==> (exists|i: int|
                0 <= i < self.entries@.len() && (#[trigger] self.entries@[i].0)@ == fp@
                    && env@ == self.entries@[i].1@),
    {
        let mut i: usize = 0;
        while i < self.entries.len()
            invariant
                i <= self.entries@.len(),
                forall|j: int| 0 <= j < i ==> (#[trigger] self.entries@[j].0)@ != fp@,
            decreases self.entries@.len() - i,
        {
            if same_fingerprint(&self.entries[i].0, fp) {
                return Option::Some(&self.entries[i].1);
            }
            i = i + 1;
        }
        Option::None
    }

    /// Store an environment under a fingerprint not yet present.
    pub fn store(&mut self, fp: Fingerprint, env: PythonEnvironment)
        requires
            old(self).wf(),
            forall|i: int|
                0 <= i < old(self).entries@.len() ==> (#[trigger] old(self).entries@[i].0)@ != fp@,
        ensures
            final(self).wf(),
            final(self).entries@.len() == old(self).entries@.len() + 1,
            (final(self).entries@[final(self).entries@.len() - 1].0)@ == fp@,
            (final(self).entries@[final(self).entries@.len() - 1].1)@ == env@,
            forall|i: int|
                0 <= i < old(self).entries@.len() ==> final(self).entries@[i]
                    == old(self).entries@[i],
    {
        self.entries.push((fp, env));
    }
}

} // verus!
