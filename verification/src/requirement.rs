//! Requirements: a package name, the version range it demands, and whether
//! the requirement applies to the target environment at all (its environment
//! markers, evaluated against that environment).
use vstd::prelude::*;
use crate::name::PackageName;
use crate::version::{
    specifiers_allow, specifiers_view, all_specifiers_allow, SpecifierKey, Version,
    VersionSpecifier,
};

verus! {

/// One declared requirement.
pub struct Requirement {
    pub name: PackageName,
    pub specifiers: Vec<VersionSpecifier>,
    /// Whether the requirement's environment markers hold for the target
    /// environment. A requirement whose markers do not hold demands nothing.
    pub applies: bool,
}

/// The mathematical content of a [`Requirement`].
pub ghost struct ReqKey {
    pub name: Seq<char>,
    pub specifiers: Seq<SpecifierKey>,
    pub applies: bool,
}

impl View for Requirement {
    type V = ReqKey;

    open spec fn view(&self) -> ReqKey {
        ReqKey { name: self.name@, specifiers: specifiers_view(self.specifiers@), applies: self.applies }
    }
}

/// Whether an installed version `v` of the requirement's package meets the
/// requirement's version range.
pub open spec fn req_allows_version(r: ReqKey, v: Seq<u64>) -> bool {
    specifiers_allow(r.specifiers, v)
}

impl Requirement {
    /// An exact copy of this requirement.
    pub fn duplicate(&self) -> (r: Requirement)
        ensures
            r@ == self@,
    {
        let mut specifiers: Vec<VersionSpecifier> = Vec::new();
        let mut i: usize = 0;
        while i < self.specifiers.len()
            invariant
                i <= self.specifiers.len(),
                specifiers@.len() == i,
                forall|j: int| 0 <= j < i ==> specifiers@[j]@ == self.specifiers@[j]@,
            decreases self.specifiers.len() - i,
        {
            specifiers.push(self.specifiers[i].duplicate());
            i = i + 1;
        }
        let r = Requirement { name: self.name.duplicate(), specifiers, applies: self.applies };
        proof {
            assert(r@.specifiers =~= self@.specifiers);
        }
        r
    }

    /// Decide whether version `v` meets this requirement's range.
    pub fn allows_version(&self, v: &Version) -> (r: bool)
        ensures
            r == req_allows_version(self@, v@),
    {
        all_specifiers_allow(&self.specifiers, v)
    }

    /// Whether two requirements demand the very same thing.
    pub fn same_as(&self, other: &Requirement) -> (r: bool)
        ensures
            r == (self@ == other@),
    {
        if !self.name.same_as(&other.name) {
            return false;
        }
        if self.applies != other.applies {
            return false;
        }
        if self.specifiers.len() != other.specifiers.len() {
            proof {
                assert(self@.specifiers.len() == self.specifiers@.len());
                assert(other@.specifiers.len() == other.specifiers@.len());
            }
            return false;
        }
        let mut i: usize = 0;
        while i < self.specifiers.len()
            invariant
                i <= self.specifiers.len(),
                self.specifiers@.len() == other.specifiers@.len(),
                self@.name == other@.name,
                self@.applies == other@.applies,
                forall|j: int| 0 <= j < i ==> self.specifiers@[j]@ == other.specifiers@[j]@,
            decreases self.specifiers.len() - i,
        {
            let a = &self.specifiers[i];
            let b = &other.specifiers[i];
            if a.op != b.op {
                proof {
                    assert(self@.specifiers[i as int] == a@);
                    assert(other@.specifiers[i as int] == b@);
                }
                return false;
            }
            if !vec_u64_equal(&a.version.parts, &b.version.parts) {
                proof {
                    assert(self@.specifiers[i as int] == a@);
                    assert(other@.specifiers[i as int] == b@);
                }
                return false;
            }
            i = i + 1;
        }
        proof {
            assert(self@.specifiers =~= other@.specifiers);
        }
        true
    }
}

/// Decide whether two component lists are identical (no zero padding).
pub fn vec_u64_equal(a: &Vec<u64>, b: &Vec<u64>) -> (r: bool)
    ensures
        r == (a@ == b@),
{
    if a.len() != b.len() {
        proof {
            assert(a@.len() != b@.len());
        }
        return false;
    }
    let mut i: usize = 0;
    while i < a.len()
        invariant
            i <= a.len(),
            a@.len() == b@.len(),
            forall|j: int| 0 <= j < i ==> a@[j] == b@[j],
        decreases a.len() - i,
    {
        if a[i] != b[i] {
            return false;
        }
        i = i + 1;
    }
    proof {
        assert(a@ =~= b@);
    }
    true
}

/// The views of a list of requirements.
pub open spec fn reqs_view(rs: Seq<Requirement>) -> Seq<ReqKey> {
    rs.map_values(|r: Requirement| r@)
}

/// Copy a whole requirement list.
pub fn duplicate_requirements(rs: &Vec<Requirement>) -> (out: Vec<Requirement>)
    ensures
        reqs_view(out@) == reqs_view(rs@),
{
    let mut out: Vec<Requirement> = Vec::new();
    let mut i: usize = 0;
    while i < rs.len()
        invariant
            i <= rs.len(),
            out@.len() == i,
            forall|j: int| 0 <= j < i ==> out@[j]@ == rs@[j]@,
        decreases rs.len() - i,
    {
        out.push(rs[i].duplicate());
        i = i + 1;
    }
    proof {
        assert(reqs_view(out@) =~= reqs_view(rs@));
    }
    out
}

} // verus!
