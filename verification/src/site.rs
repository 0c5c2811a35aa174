//! Installed distributions and the satisfaction checker.
//!
//! `SitePackages` is a snapshot of what an environment holds. The checker
//! walks a requirement set transitively: it answers `Fresh` with the full
//! closure only when every reachable requirement is met by exactly one
//! installed distribution of an allowed version, and short-circuits to
//! `Unsatisfied` at the first offender. A `Fresh` answer is what lets the
//! caller skip resolution and installation entirely.
use vstd::prelude::*;
use vstd::seq_lib::seq_to_set_is_finite;
use vstd::set_lib::lemma_len_subset;
use crate::name::PackageName;
use crate::requirement::{reqs_view, req_allows_version, ReqKey, Requirement};
use crate::version::Version;

verus! {

/// One installed distribution: its name, version, the requirements its own
/// metadata declares, and the executables it provides.
pub struct InstalledDist {
    pub name: PackageName,
    pub version: Version,
    pub requires: Vec<Requirement>,
    pub entry_points: Vec<String>,
}

/// The mathematical content of an [`InstalledDist`].
pub ghost struct DistKey {
    pub name: Seq<char>,
    pub version: Seq<u64>,
    pub requires: Seq<ReqKey>,
    pub entry_points: Seq<Seq<char>>,
}

impl View for InstalledDist {
    type V = DistKey;

    open spec fn view(&self) -> DistKey {
        DistKey {
            name: self.name@,
            version: self.version@,
            requires: reqs_view(self.requires@),
            entry_points: self.entry_points@.map_values(|s: String| s@),
        }
    }
}

impl InstalledDist {
    /// An exact copy of this distribution record.
    pub fn duplicate(&self) -> (r: InstalledDist)
        ensures
            r@ == self@,
    {
        let r = InstalledDist {
            name: self.name.duplicate(),
            version: self.version.duplicate(),
            requires: crate::requirement::duplicate_requirements(&self.requires),
            entry_points: crate::strutil::duplicate_strings(&self.entry_points),
        };
        proof {
            assert(r@.requires =~= self@.requires);
            assert(r@.entry_points =~= self@.entry_points);
        }
        r
    }
}

/// Copy a whole list of distribution records.
pub fn duplicate_dists(v: &Vec<InstalledDist>) -> (out: Vec<InstalledDist>)
    ensures
        out@.map_values(|d: InstalledDist| d@) == v@.map_values(|d: InstalledDist| d@),
{
    let mut out: Vec<InstalledDist> = Vec::new();
    let mut i: usize = 0;
    while i < v.len()
        invariant
            i <= v.len(),
            out@.len() == i,
            forall|j: int| 0 <= j < i ==> out@[j]@ == v@[j]@,
        decreases v.len() - i,
    {
        out.push(v[i].duplicate());
        i = i + 1;
    }
    proof {
        assert(out@.map_values(|d: InstalledDist| d@) =~= v@.map_values(|d: InstalledDist| d@));
    }
    out
}

/// A snapshot of the distributions installed in an environment.
pub struct SitePackages {
    pub dists: Vec<InstalledDist>,
}

impl View for SitePackages {
    type V = Seq<DistKey>;

    open spec fn view(&self) -> Seq<DistKey> {
        self.dists@.map_values(|d: InstalledDist| d@)
    }
}

/// Whether every constraint that applies and names `name` allows version `v`.
pub open spec fn constraints_allow(constraints: Seq<ReqKey>, name: Seq<char>, v: Seq<u64>) -> bool {
    forall|k: int|
        0 <= k < constraints.len() && (#[trigger] constraints[k]).applies && constraints[k].name
            == name ==> req_allows_version(constraints[k], v)
}

/// Whether the environment meets requirement `r` directly: either `r` does
/// not apply, or exactly one installed distribution has its name, with a
/// version that the requirement and every matching constraint allow.
pub open spec fn req_satisfied(site: Seq<DistKey>, constraints: Seq<ReqKey>, r: ReqKey) -> bool {
    !r.applies || (exists|i: int|
        0 <= i < site.len() && (#[trigger] site[i]).name == r.name && (forall|j: int|
            0 <= j < site.len() && j != i ==> (#[trigger] site[j]).name != r.name)
            && req_allows_version(r, site[i].version) && constraints_allow(
            constraints,
            r.name,
            site[i].version,
        ))
}

/// Whether `c` holds the declared requirements of every installed
/// distribution that requirement `r` selects.
pub open spec fn deps_closed(site: Seq<DistKey>, r: ReqKey, c: Seq<ReqKey>) -> bool {
    r.applies ==> (forall|i: int, d: int|
        0 <= i < site.len() && (#[trigger] site[i]).name == r.name && 0 <= d
            < site[i].requires.len() ==> c.contains(#[trigger] site[i].requires[d]))
}

/// Whether `c` is a satisfied transitive closure of `reqs` against `site`:
/// it covers every requirement of `reqs`, every member is satisfied, and it
/// is closed under the metadata requirements of the selected distributions.
pub open spec fn closure_covers(
    site: Seq<DistKey>,
    constraints: Seq<ReqKey>,
    reqs: Seq<ReqKey>,
    c: Seq<ReqKey>,
) -> bool {
    (forall|i: int| 0 <= i < reqs.len() ==> c.contains(#[trigger] reqs[i])) && (forall|k: int|
        0 <= k < c.len() ==> req_satisfied(site, constraints, #[trigger] c[k])) && (forall|k: int|
        0 <= k < c.len() ==> deps_closed(site, #[trigger] c[k], c))
}

/// Whether some satisfied transitive closure of `reqs` against `site` exists.
pub open spec fn transitively_satisfied(
    site: Seq<DistKey>,
    constraints: Seq<ReqKey>,
    reqs: Seq<ReqKey>,
) -> bool {
    exists|c: Seq<ReqKey>| closure_covers(site, constraints, reqs, c)
}

/// Whether every key of `xs` belongs to every satisfied closure of `reqs`:
/// what the checker knows of its pending work.
pub open spec fn pinned_by_closures(
    site: Seq<DistKey>,
    constraints: Seq<ReqKey>,
    reqs: Seq<ReqKey>,
    xs: Seq<ReqKey>,
) -> bool {
    forall|c: Seq<ReqKey>, k: int|
        #![trigger closure_covers(site, constraints, reqs, c), xs[k]]
        closure_covers(site, constraints, reqs, c) && 0 <= k < xs.len() ==> c.contains(xs[k])
}

/// A `Fresh` answer never false-positives: whenever a satisfied transitive
/// closure covers a requirement set, every requirement of the set is itself
/// met by the environment.
pub proof fn lemma_fresh_means_satisfied(
    site: Seq<DistKey>,
    constraints: Seq<ReqKey>,
    reqs: Seq<ReqKey>,
    c: Seq<ReqKey>,
)
    requires
        closure_covers(site, constraints, reqs, c),
    ensures
        forall|i: int| 0 <= i < reqs.len() ==> req_satisfied(site, constraints, #[trigger] reqs[i]),
{
    assert forall|i: int| 0 <= i < reqs.len() implies req_satisfied(
        site,
        constraints,
        #[trigger] reqs[i],
    ) by {
        assert(c.contains(reqs[i]));
        let k = choose|k: int| 0 <= k < c.len() && c[k] == reqs[i];
        assert(req_satisfied(site, constraints, c[k]));
    }
}

/// The answer of the satisfaction checker.
pub enum SatisfiesResult {
    /// Every requirement is transitively met already; the closure that was
    /// walked is returned.
    Fresh { recursive_requirements: Vec<Requirement> },
    /// The first requirement found unmet.
    Unsatisfied { requirement: Requirement },
}

/// How a name lookup in the installed set went, with witnesses.
enum NameLookup {
    Absent,
    Unique(usize),
    Duplicated(usize, usize),
}

/// All declared requirements of all installed distributions, concatenated.
pub open spec fn deps_concat(site: Seq<DistKey>) -> Seq<ReqKey>
    decreases site.len(),
{
    if site.len() == 0 {
        Seq::empty()
    } else {
        deps_concat(site.drop_last()) + site.last().requires
    }
}

/// Every declared requirement of every installed distribution occurs in the
/// concatenation of them all.
proof fn lemma_deps_in_concat(site: Seq<DistKey>, i: int, d: int)
    requires
        0 <= i < site.len(),
        0 <= d < site[i].requires.len(),
    ensures
        deps_concat(site).contains(site[i].requires[d]),
    decreases site.len(),
{
    if i == site.len() - 1 {
        let off = deps_concat(site.drop_last()).len() + d;
        assert(deps_concat(site)[off as int] == site[i].requires[d]);
    } else {
        lemma_deps_in_concat(site.drop_last(), i, d);
        assert(site.drop_last()[i] == site[i]);
        let w = choose|w: int|
            0 <= w < deps_concat(site.drop_last()).len() && deps_concat(site.drop_last())[w]
                == site[i].requires[d];
        assert(deps_concat(site)[w] == site[i].requires[d]);
    }
}

/// A duplicate-free sequence of keys drawn from a pool is no longer than the
/// pool.
proof fn lemma_distinct_drawn_bound(seen: Seq<ReqKey>, pool: Seq<ReqKey>)
    requires
        seen.no_duplicates(),
        forall|k: int| 0 <= k < seen.len() ==> pool.contains(#[trigger] seen[k]),
    ensures
        seen.len() <= pool.len(),
{
    broadcast use seq_to_set_is_finite;

    seen.unique_seq_to_set();
    pool.lemma_cardinality_of_set();
    assert forall|x: ReqKey| seen.to_set().contains(x) implies pool.to_set().contains(x) by {
        assert(seen.contains(x));
        assert(pool.contains(x));
    }
    lemma_len_subset(seen.to_set(), pool.to_set());
}

impl SitePackages {
    /// Look up a name among the installed distributions, reporting whether it
    /// is absent, installed exactly once, or installed more than once.
    fn lookup_name(&self, name: &PackageName) -> (r: NameLookup)
        ensures
            (r is Absent) ==> (forall|j: int|
                0 <= j < self@.len() ==> (#[trigger] self@[j]).name != name@),
            r matches NameLookup::Unique(i) ==> i < self@.len() && self@[i as int].name == name@
                && (forall|j: int|
                0 <= j < self@.len() && j != i ==> (#[trigger] self@[j]).name != name@),
            r matches NameLookup::Duplicated(i, j) ==> i < j < self@.len() && self@[i as int].name
                == name@ && self@[j as int].name == name@,
    {
        let mut found: Option<usize> = Option::None;
        let mut i: usize = 0;
        while i < self.dists.len()
            invariant
                i <= self.dists.len(),
                self@.len() == self.dists@.len(),
                (found is None) ==> (forall|j: int|
                    0 <= j < i ==> (#[trigger] self@[j]).name != name@),
                found matches Some(f) ==> f < i && self@[f as int].name == name@ && (forall|j: int|
                    0 <= j < i && j != f ==> (#[trigger] self@[j]).name != name@),
            decreases self.dists.len() - i,
        {
            if self.dists[i].name.same_as(name) {
                proof {
                    assert(self@[i as int].name == name@);
                }
                match found {
                    Option::Some(f) => {
                        return NameLookup::Duplicated(f, i);
                    },
                    Option::None => {
                        found = Option::Some(i);
                    },
                }
            } else {
                proof {
                    assert(self@[i as int].name != name@);
                }
            }
            i = i + 1;
        }
        match found {
            Option::Some(f) => NameLookup::Unique(f),
            Option::None => NameLookup::Absent,
        }
    }

    /// Check whether every constraint that applies to `name` allows `v`,
    /// returning the index of the first constraint that does not.
    fn check_constraints(constraints: &Vec<Requirement>, name: &PackageName, v: &Version) -> (r:
        Option<usize>)
        ensures
            (r is None) == constraints_allow(reqs_view(constraints@), name@, v@),
            r matches Some(k) ==> k < constraints@.len() && constraints@[k as int]@.applies
                && constraints@[k as int]@.name == name@ && !req_allows_version(
                constraints@[k as int]@,
                v@,
            ),
    {
        let mut k: usize = 0;
        while k < constraints.len()
            invariant
                k <= constraints.len(),
                forall|j: int|
                    0 <= j < k && (#[trigger] reqs_view(constraints@)[j]).applies && reqs_view(
                        constraints@,
                    )[j].name == name@ ==> req_allows_version(reqs_view(constraints@)[j], v@),
            decreases constraints.len() - k,
        {
            let c = &constraints[k];
            if c.applies && c.name.same_as(name) && !c.allows_version(v) {
                proof {
                    assert(reqs_view(constraints@)[k as int] == c@);
                }
                return Option::Some(k);
            }
            proof {
                assert(reqs_view(constraints@)[k as int] == c@);
            }
            k = k + 1;
        }
        Option::None
    }

    /// Decide whether the installed set transitively satisfies a requirement
    /// set under the given constraints.
    ///
    /// `Fresh` answers carry the walked closure and are sound: the returned
    /// closure covers the requirement set, every member is met, and it is
    /// closed under the selected distributions' own requirements. An
    /// `Unsatisfied` answer names a requirement the environment truly does
    /// not meet, and witnesses that no satisfied closure of the requirement
    /// set exists at all — the checker decides transitive satisfaction
    /// exactly.
    pub fn satisfies(&self, requirements: &Vec<Requirement>, constraints: &Vec<Requirement>) -> (r:
        SatisfiesResult)
        ensures
            r matches SatisfiesResult::Fresh { recursive_requirements } ==> closure_covers(
                self@,
                reqs_view(constraints@),
                reqs_view(requirements@),
                reqs_view(recursive_requirements@),
            ),
            r matches SatisfiesResult::Unsatisfied { requirement } ==> !req_satisfied(
                self@,
                reqs_view(constraints@),
                requirement@,
            ),
            r is Unsatisfied ==> !transitively_satisfied(
                self@,
                reqs_view(constraints@),
                reqs_view(requirements@),
            ),
    {
        let ghost sitev = self@;
        let ghost consv = reqs_view(constraints@);
        let ghost reqsv = reqs_view(requirements@);
        let ghost pool: Seq<ReqKey> = reqsv + deps_concat(sitev);
        let mut stack: Vec<Requirement> = crate::requirement::duplicate_requirements(requirements);
        let mut seen: Vec<Requirement> = Vec::new();
        proof {
            assert forall|k: int| 0 <= k < reqs_view(stack@).len() implies pool.contains(
                #[trigger] reqs_view(stack@)[k],
            ) by {
                assert(reqs_view(stack@)[k] == reqsv[k]);
                assert(pool[k] == reqsv[k]);
            }
            assert forall|i: int| 0 <= i < reqsv.len() implies reqs_view(seen@).contains(reqsv[i])
                || reqs_view(stack@).contains(#[trigger] reqsv[i]) by {
                assert(reqs_view(stack@)[i] == reqsv[i]);
            }
            assert forall|c: Seq<ReqKey>, k: int|
                #![trigger closure_covers(sitev, consv, reqsv, c), reqs_view(stack@)[k]]
                closure_covers(sitev, consv, reqsv, c) && 0 <= k < reqs_view(stack@).len()
                implies c.contains(reqs_view(stack@)[k]) by {
                assert(reqs_view(stack@)[k] == reqsv[k]);
                assert(c.contains(reqsv[k]));
            }
        }
        while stack.len() > 0
            invariant
                sitev == self@,
                consv == reqs_view(constraints@),
                reqsv == reqs_view(requirements@),
                pool == reqsv + deps_concat(sitev),
                reqs_view(seen@).no_duplicates(),
                seen@.len() <= pool.len(),
                forall|k: int|
                    0 <= k < seen@.len() ==> pool.contains(#[trigger] reqs_view(seen@)[k]),
                forall|k: int|
                    0 <= k < stack@.len() ==> pool.contains(#[trigger] reqs_view(stack@)[k]),
                forall|k: int|
                    0 <= k < seen@.len() ==> req_satisfied(
                        sitev,
                        consv,
                        #[trigger] reqs_view(seen@)[k],
                    ),
                forall|k: int, i: int, d: int|
                    0 <= k < seen@.len() && (#[trigger] reqs_view(seen@)[k]).applies && 0 <= i
                        < sitev.len() && (#[trigger] sitev[i]).name == reqs_view(seen@)[k].name && 0
                        <= d < sitev[i].requires.len() ==> reqs_view(seen@).contains(
                        #[trigger] sitev[i].requires[d],
                    ) || reqs_view(stack@).contains(sitev[i].requires[d]),
                forall|i: int|
                    0 <= i < reqsv.len() ==> reqs_view(seen@).contains(#[trigger] reqsv[i])
                        || reqs_view(stack@).contains(reqsv[i]),
                pinned_by_closures(sitev, consv, reqsv, reqs_view(stack@)),
            decreases pool.len() - seen@.len(), stack@.len(),
        {
            let ghost stack_before = reqs_view(stack@);
            let ghost seen_before = reqs_view(seen@);
            let r = stack.pop().unwrap();
            proof {
                assert(r@ == stack_before[stack_before.len() - 1]);
                assert(reqs_view(stack@) =~= stack_before.drop_last());
                assert forall|k: int| 0 <= k < reqs_view(stack@).len() implies pool.contains(
                    #[trigger] reqs_view(stack@)[k],
                ) by {
                    assert(reqs_view(stack@)[k] == stack_before[k]);
                }
            }
            if contains_requirement(&seen, &r) {
                // Already walked: nothing new to check, and everything the
                // popped entry was covering for is covered by `seen`.
                proof {
                    restore_membership(
                        sitev,
                        consv,
                        reqsv,
                        seen_before,
                        reqs_view(seen@),
                        stack_before,
                        reqs_view(stack@),
                        r@,
                    );
                }
            } else {
                if !r.applies {
                    let ghost rk = r@;
                    seen.push(r);
                    proof {
                        assert(reqs_view(seen@) =~= seen_before.push(rk));
                        lemma_after_admit(
                            sitev,
                            consv,
                            reqsv,
                            seen_before,
                            reqs_view(seen@),
                            stack_before,
                            reqs_view(stack@),
                            rk,
                            pool,
                        );
                    }
                } else {
                    match self.lookup_name(&r.name) {
                        NameLookup::Absent => {
                            proof {
                                assert(!req_satisfied(sitev, consv, r@));
                                lemma_offender_refutes(sitev, consv, reqsv, stack_before, r@);
                            }
                            return SatisfiesResult::Unsatisfied { requirement: r };
                        },
                        NameLookup::Duplicated(_, _) => {
                            proof {
                                assert(!req_satisfied(sitev, consv, r@));
                                lemma_offender_refutes(sitev, consv, reqsv, stack_before, r@);
                            }
                            return SatisfiesResult::Unsatisfied { requirement: r };
                        },
                        NameLookup::Unique(idx) => {
                            if !r.allows_version(&self.dists[idx].version) {
                                proof {
                                    assert(self@[idx as int].version == self.dists@[
                                    idx as int]@.version);
                                    assert(!req_satisfied(sitev, consv, r@));
                                    lemma_offender_refutes(sitev, consv, reqsv, stack_before, r@);
                                }
                                return SatisfiesResult::Unsatisfied { requirement: r };
                            }
                            if Self::check_constraints(
                                constraints,
                                &r.name,
                                &self.dists[idx].version,
                            ).is_some() {
                                proof {
                                    assert(!req_satisfied(sitev, consv, r@));
                                    lemma_offender_refutes(sitev, consv, reqsv, stack_before, r@);
                                }
                                return SatisfiesResult::Unsatisfied { requirement: r };
                            }
                            let ghost rk = r@;
                            let ghost stack_mid = reqs_view(stack@);
                            seen.push(r);
                            push_all(&mut stack, &self.dists[idx].requires);
                            proof {
                                assert(reqs_view(seen@) =~= seen_before.push(rk));
                                lemma_after_expand(
                                    sitev,
                                    consv,
                                    reqsv,
                                    seen_before,
                                    reqs_view(seen@),
                                    stack_mid,
                                    reqs_view(stack@),
                                    rk,
                                    pool,
                                    idx as int,
                                    stack_before,
                                );
                            }
                        },
                    }
                }
            }
        }
        proof {
            assert forall|i: int| 0 <= i < reqsv.len() implies reqs_view(seen@).contains(
                #[trigger] reqsv[i],
            ) by {
                assert(reqs_view(stack@).len() == 0);
            }
        }
        SatisfiesResult::Fresh { recursive_requirements: seen }
    }
}

/// Whether the list already holds a requirement with this content.
fn contains_requirement(v: &Vec<Requirement>, r: &Requirement) -> (found: bool)
    ensures
        found == reqs_view(v@).contains(r@),
{
    let mut i: usize = 0;
    while i < v.len()
        invariant
            i <= v.len(),
            forall|j: int| 0 <= j < i ==> (#[trigger] reqs_view(v@)[j]) != r@,
        decreases v.len() - i,
    {
        if v[i].same_as(r) {
            proof {
                assert(reqs_view(v@)[i as int] == r@);
            }
            return true;
        }
        proof {
            assert(reqs_view(v@)[i as int] == v@[i as int]@);
        }
        i = i + 1;
    }
    false
}

/// Push copies of all of `deps` onto the stack, leaving what was there.
fn push_all(stack: &mut Vec<Requirement>, deps: &Vec<Requirement>)
    ensures
        final(stack)@.len() == old(stack)@.len() + deps@.len(),
        forall|k: int| 0 <= k < old(stack)@.len() ==> final(stack)@[k] == old(stack)@[k],
        forall|e: int|
            0 <= e < deps@.len() ==> (#[trigger] final(stack)@[old(stack)@.len() + e])@ == deps@[e]@,
{
    let mut d: usize = 0;
    while d < deps.len()
        invariant
            d <= deps.len(),
            stack@.len() == old(stack)@.len() + d,
            forall|k: int| 0 <= k < old(stack)@.len() ==> stack@[k] == old(stack)@[k],
            forall|e: int|
                0 <= e < d ==> (#[trigger] stack@[old(stack)@.len() + e])@ == deps@[e]@,
        decreases deps.len() - d,
    {
        stack.push(deps[d].duplicate());
        d = d + 1;
    }
}

/// After dropping a stack entry that `seen` already holds, every membership
/// fact of the loop still stands.
proof fn restore_membership(
    sitev: Seq<DistKey>,
    consv: Seq<ReqKey>,
    reqsv: Seq<ReqKey>,
    seen_before: Seq<ReqKey>,
    seen_now: Seq<ReqKey>,
    stack_before: Seq<ReqKey>,
    stack_now: Seq<ReqKey>,
    rk: ReqKey,
)
    requires
        seen_now == seen_before,
        stack_now == stack_before.drop_last(),
        stack_before.len() > 0,
        stack_before[stack_before.len() - 1] == rk,
        seen_now.contains(rk),
        forall|k: int, i: int, d: int|
            0 <= k < seen_before.len() && (#[trigger] seen_before[k]).applies && 0 <= i
                < sitev.len() && (#[trigger] sitev[i]).name == seen_before[k].name && 0 <= d
                < sitev[i].requires.len() ==> seen_before.contains(#[trigger] sitev[i].requires[d])
                || stack_before.contains(sitev[i].requires[d]),
        forall|i: int|
            0 <= i < reqsv.len() ==> seen_before.contains(#[trigger] reqsv[i])
                || stack_before.contains(reqsv[i]),
        pinned_by_closures(sitev, consv, reqsv, stack_before),
    ensures
        forall|k: int, i: int, d: int|
            0 <= k < seen_now.len() && (#[trigger] seen_now[k]).applies && 0 <= i < sitev.len() && (
            #[trigger] sitev[i]).name == seen_now[k].name && 0 <= d < sitev[i].requires.len()
                ==> seen_now.contains(#[trigger] sitev[i].requires[d]) || stack_now.contains(
                sitev[i].requires[d],
            ),
        forall|i: int|
            0 <= i < reqsv.len() ==> seen_now.contains(#[trigger] reqsv[i]) || stack_now.contains(
                reqsv[i],
            ),
        pinned_by_closures(sitev, consv, reqsv, stack_now),
{
    assert forall|x: ReqKey| stack_before.contains(x) implies seen_now.contains(x)
        || stack_now.contains(x) by {
        let j = choose|j: int| 0 <= j < stack_before.len() && stack_before[j] == x;
        if j < stack_before.len() - 1 {
            assert(stack_now[j] == x);
        } else {
            assert(x == rk);
        }
    }
    lemma_pinned_shrinks(sitev, consv, reqsv, stack_before, stack_now);
}

/// Dropping the top of the pending stack keeps every remaining entry pinned.
proof fn lemma_pinned_shrinks(
    sitev: Seq<DistKey>,
    consv: Seq<ReqKey>,
    reqsv: Seq<ReqKey>,
    stack_before: Seq<ReqKey>,
    stack_now: Seq<ReqKey>,
)
    requires
        pinned_by_closures(sitev, consv, reqsv, stack_before),
        stack_before.len() > 0,
        stack_now == stack_before.drop_last(),
    ensures
        pinned_by_closures(sitev, consv, reqsv, stack_now),
{
    assert forall|c: Seq<ReqKey>, k: int|
        #![trigger closure_covers(sitev, consv, reqsv, c), stack_now[k]]
        closure_covers(sitev, consv, reqsv, c) && 0 <= k < stack_now.len() implies c.contains(
        stack_now[k],
    ) by {
        assert(stack_now[k] == stack_before[k]);
        assert(c.contains(stack_before[k]));
    }
}

/// No satisfied closure of the requirement set exists once a pinned pending
/// entry has been found unmet.
proof fn lemma_offender_refutes(
    sitev: Seq<DistKey>,
    consv: Seq<ReqKey>,
    reqsv: Seq<ReqKey>,
    stack_before: Seq<ReqKey>,
    rk: ReqKey,
)
    requires
        pinned_by_closures(sitev, consv, reqsv, stack_before),
        stack_before.len() > 0,
        stack_before[stack_before.len() - 1] == rk,
        !req_satisfied(sitev, consv, rk),
    ensures
        !transitively_satisfied(sitev, consv, reqsv),
{
    assert forall|c: Seq<ReqKey>| !closure_covers(sitev, consv, reqsv, c) by {
        if closure_covers(sitev, consv, reqsv, c) {
            assert(c.contains(stack_before[stack_before.len() - 1]));
            let k = choose|k: int| 0 <= k < c.len() && c[k] == rk;
            assert(req_satisfied(sitev, consv, c[k]));
        }
    }
}

/// After admitting a requirement that does not apply into `seen`, every
/// invariant of the walk still stands.
proof fn lemma_after_admit(
    sitev: Seq<DistKey>,
    consv: Seq<ReqKey>,
    reqsv: Seq<ReqKey>,
    seen_before: Seq<ReqKey>,
    seen_now: Seq<ReqKey>,
    stack_before: Seq<ReqKey>,
    stack_now: Seq<ReqKey>,
    rk: ReqKey,
    pool: Seq<ReqKey>,
)
    requires
        seen_now == seen_before.push(rk),
        stack_now == stack_before.drop_last(),
        stack_before.len() > 0,
        stack_before[stack_before.len() - 1] == rk,
        !seen_before.contains(rk),
        !rk.applies,
        seen_before.no_duplicates(),
        forall|k: int| 0 <= k < seen_before.len() ==> pool.contains(#[trigger] seen_before[k]),
        forall|k: int| 0 <= k < stack_before.len() ==> pool.contains(#[trigger] stack_before[k]),
        forall|k: int|
            0 <= k < seen_before.len() ==> req_satisfied(sitev, consv, #[trigger] seen_before[k]),
        forall|k: int, i: int, d: int|
            0 <= k < seen_before.len() && (#[trigger] seen_before[k]).applies && 0 <= i
                < sitev.len() && (#[trigger] sitev[i]).name == seen_before[k].name && 0 <= d
                < sitev[i].requires.len() ==> seen_before.contains(#[trigger] sitev[i].requires[d])
                || stack_before.contains(sitev[i].requires[d]),
        forall|i: int|
            0 <= i < reqsv.len() ==> seen_before.contains(#[trigger] reqsv[i])
                || stack_before.contains(reqsv[i]),
        pinned_by_closures(sitev, consv, reqsv, stack_before),
    ensures
        seen_now.no_duplicates(),
        seen_now.len() <= pool.len(),
        forall|k: int| 0 <= k < seen_now.len() ==> pool.contains(#[trigger] seen_now[k]),
        forall|k: int|
            0 <= k < seen_now.len() ==> req_satisfied(sitev, consv, #[trigger] seen_now[k]),
        forall|k: int, i: int, d: int|
            0 <= k < seen_now.len() && (#[trigger] seen_now[k]).applies && 0 <= i < sitev.len() && (
            #[trigger] sitev[i]).name == seen_now[k].name && 0 <= d < sitev[i].requires.len()
                ==> seen_now.contains(#[trigger] sitev[i].requires[d]) || stack_now.contains(
                sitev[i].requires[d],
            ),
        forall|i: int|
            0 <= i < reqsv.len() ==> seen_now.contains(#[trigger] reqsv[i]) || stack_now.contains(
                reqsv[i],
            ),
        pinned_by_closures(sitev, consv, reqsv, stack_now),
{
    assert(pool.contains(rk));
    assert forall|x: ReqKey| seen_before.contains(x) implies seen_now.contains(x) by {
        let j = choose|j: int| 0 <= j < seen_before.len() && seen_before[j] == x;
        assert(seen_now[j] == x);
    }
    assert forall|x: ReqKey| stack_before.contains(x) implies seen_now.contains(x)
        || stack_now.contains(x) by {
        let j = choose|j: int| 0 <= j < stack_before.len() && stack_before[j] == x;
        if j < stack_before.len() - 1 {
            assert(stack_now[j] == x);
        } else {
            assert(x == rk);
            assert(seen_now[seen_now.len() - 1] == rk);
        }
    }
    assert(seen_now[seen_now.len() - 1] == rk);
    assert(req_satisfied(sitev, consv, rk));
    lemma_distinct_drawn_bound(seen_now, pool);
    lemma_pinned_shrinks(sitev, consv, reqsv, stack_before, stack_now);
}

/// After admitting a satisfied requirement into `seen` and queueing the
/// declared requirements of the one distribution it selects, every invariant
/// of the walk still stands.
proof fn lemma_after_expand(
    sitev: Seq<DistKey>,
    consv: Seq<ReqKey>,
    reqsv: Seq<ReqKey>,
    seen_before: Seq<ReqKey>,
    seen_now: Seq<ReqKey>,
    stack_mid: Seq<ReqKey>,
    stack_now: Seq<ReqKey>,
    rk: ReqKey,
    pool: Seq<ReqKey>,
    idx: int,
    stack_before: Seq<ReqKey>,
)
    requires
        seen_now == seen_before.push(rk),
        stack_mid == stack_before.drop_last(),
        stack_before.len() > 0,
        stack_before[stack_before.len() - 1] == rk,
        !seen_before.contains(rk),
        rk.applies,
        0 <= idx < sitev.len(),
        sitev[idx].name == rk.name,
        forall|j: int| 0 <= j < sitev.len() && j != idx ==> (#[trigger] sitev[j]).name != rk.name,
        req_allows_version(rk, sitev[idx].version),
        constraints_allow(consv, rk.name, sitev[idx].version),
        pool == reqsv + deps_concat(sitev),
        stack_now.len() == stack_mid.len() + sitev[idx].requires.len(),
        forall|k: int| 0 <= k < stack_mid.len() ==> stack_now[k] == stack_mid[k],
        forall|e: int|
            0 <= e < sitev[idx].requires.len() ==> stack_now[stack_mid.len() + e]
                == sitev[idx].requires[e],
        seen_before.no_duplicates(),
        forall|k: int| 0 <= k < seen_before.len() ==> pool.contains(#[trigger] seen_before[k]),
        forall|k: int| 0 <= k < stack_before.len() ==> pool.contains(#[trigger] stack_before[k]),
        forall|k: int|
            0 <= k < seen_before.len() ==> req_satisfied(sitev, consv, #[trigger] seen_before[k]),
        forall|k: int, i: int, d: int|
            0 <= k < seen_before.len() && (#[trigger] seen_before[k]).applies && 0 <= i
                < sitev.len() && (#[trigger] sitev[i]).name == seen_before[k].name && 0 <= d
                < sitev[i].requires.len() ==> seen_before.contains(#[trigger] sitev[i].requires[d])
                || stack_before.contains(sitev[i].requires[d]),
        forall|i: int|
            0 <= i < reqsv.len() ==> seen_before.contains(#[trigger] reqsv[i])
                || stack_before.contains(reqsv[i]),
        pinned_by_closures(sitev, consv, reqsv, stack_before),
    ensures
        seen_now.no_duplicates(),
        seen_now.len() <= pool.len(),
        forall|k: int| 0 <= k < seen_now.len() ==> pool.contains(#[trigger] seen_now[k]),
        forall|k: int| 0 <= k < stack_now.len() ==> pool.contains(#[trigger] stack_now[k]),
        pinned_by_closures(sitev, consv, reqsv, stack_now),
        forall|k: int|
            0 <= k < seen_now.len() ==> req_satisfied(sitev, consv, #[trigger] seen_now[k]),
        forall|k: int, i: int, d: int|
            0 <= k < seen_now.len() && (#[trigger] seen_now[k]).applies && 0 <= i < sitev.len() && (
            #[trigger] sitev[i]).name == seen_now[k].name && 0 <= d < sitev[i].requires.len()
                ==> seen_now.contains(#[trigger] sitev[i].requires[d]) || stack_now.contains(
                sitev[i].requires[d],
            ),
        forall|i: int|
            0 <= i < reqsv.len() ==> seen_now.contains(#[trigger] reqsv[i]) || stack_now.contains(
                reqsv[i],
            ),
{
    assert(pool.contains(rk));
    assert(seen_now[seen_now.len() - 1] == rk);
    assert forall|x: ReqKey| seen_before.contains(x) implies seen_now.contains(x) by {
        let j = choose|j: int| 0 <= j < seen_before.len() && seen_before[j] == x;
        assert(seen_now[j] == x);
    }
    assert forall|x: ReqKey| stack_mid.contains(x) implies stack_now.contains(x) by {
        let j = choose|j: int| 0 <= j < stack_mid.len() && stack_mid[j] == x;
        assert(stack_now[j] == x);
    }
    assert forall|x: ReqKey| stack_before.contains(x) implies seen_now.contains(x)
        || stack_now.contains(x) by {
        let j = choose|j: int| 0 <= j < stack_before.len() && stack_before[j] == x;
        if j < stack_before.len() - 1 {
            assert(stack_mid[j] == x);
            assert(stack_now[j] == x);
        } else {
            assert(x == rk);
        }
    }
    // The fresh stack entries are requirements some distribution declares,
    // so they are drawn from the pool.
    assert forall|k: int| 0 <= k < stack_now.len() implies pool.contains(
        #[trigger] stack_now[k],
    ) by {
        if k < stack_mid.len() {
            assert(stack_mid[k] == stack_before[k]);
        } else {
            let e = k - stack_mid.len();
            lemma_deps_in_concat(sitev, idx, e);
            let w = choose|w: int|
                0 <= w < deps_concat(sitev).len() && deps_concat(sitev)[w]
                    == sitev[idx].requires[e];
            assert(pool[reqsv.len() + w] == sitev[idx].requires[e]);
        }
    }
    // The admitted requirement is satisfied by the unique distribution.
    assert(req_satisfied(sitev, consv, rk));
    // Every pending entry stays in every satisfied closure: the survivors
    // were pinned already, and the fresh ones are the declared requirements
    // of the distribution that the pinned entry selects.
    assert forall|c: Seq<ReqKey>, k: int|
        #![trigger closure_covers(sitev, consv, reqsv, c), stack_now[k]]
        closure_covers(sitev, consv, reqsv, c) && 0 <= k < stack_now.len() implies c.contains(
        stack_now[k],
    ) by {
        if k < stack_mid.len() {
            assert(stack_now[k] == stack_before[k]);
            assert(c.contains(stack_before[k]));
        } else {
            let e = k - stack_mid.len();
            assert(c.contains(stack_before[stack_before.len() - 1]));
            let k0 = choose|k0: int| 0 <= k0 < c.len() && c[k0] == rk;
            assert(deps_closed(sitev, c[k0], c));
            assert(c.contains(sitev[idx].requires[e]));
            assert(stack_now[k] == sitev[idx].requires[e]);
        }
    }
    // Its declared requirements all sit on the stack now.
    assert forall|i: int, d: int|
        0 <= i < sitev.len() && (#[trigger] sitev[i]).name == rk.name && 0 <= d
            < sitev[i].requires.len() implies stack_now.contains(
        #[trigger] sitev[i].requires[d],
    ) by {
        assert(i == idx);
        assert(stack_now[stack_mid.len() + d] == sitev[idx].requires[d]);
    }
    lemma_distinct_drawn_bound(seen_now, pool);
}

} // verus!
