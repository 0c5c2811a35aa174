//! Release versions and version specifiers.
//!
//! A version is a dotted sequence of numeric components. Two versions compare
//! by their components padded with zeros on the right, so `3.10` and `3.10.0`
//! denote the same version. Specifiers (`==`, `>=`, ...) and the
//! requires-python lower bound build on that order.
use vstd::prelude::*;

verus! {

/// A dotted release version, most significant component first.
#[derive(Debug)]
pub struct Version {
    pub parts: Vec<u64>,
}

impl View for Version {
    type V = Seq<u64>;

    open spec fn view(&self) -> Seq<u64> {
        self.parts@
    }
}

/// The component of `v` at position `i`, padding with zeros on the right.
pub open spec fn part_at(v: Seq<u64>, i: int) -> u64 {
    if 0 <= i < v.len() {
        v[i]
    } else {
        0
    }
}

/// Two versions denote the same release: all padded components agree.
pub open spec fn padded_eq(a: Seq<u64>, b: Seq<u64>) -> bool {
    forall|i: int| #![trigger part_at(a, i), part_at(b, i)] part_at(a, i) == part_at(b, i)
}

/// `a` is strictly below `b`: the first differing padded component is smaller.
pub open spec fn padded_lt(a: Seq<u64>, b: Seq<u64>) -> bool {
    exists|i: int|
        0 <= i && #[trigger] part_at(a, i) < #[trigger] part_at(b, i) && (forall|j: int|
            0 <= j < i ==> part_at(a, j) == part_at(b, j))
}

/// `a` is at or below `b`.
pub open spec fn padded_le(a: Seq<u64>, b: Seq<u64>) -> bool {
    padded_lt(a, b) || padded_eq(a, b)
}

/// From any position where two versions differ, a first difference below it
/// decides their order.
proof fn lemma_first_difference(a: Seq<u64>, b: Seq<u64>, k: int)
    requires
        0 <= k,
        part_at(a, k) != part_at(b, k),
    ensures
        padded_lt(a, b) || padded_lt(b, a),
    decreases k,
{
    if forall|j: int| 0 <= j < k ==> part_at(a, j) == part_at(b, j) {
        if part_at(a, k) < part_at(b, k) {
            assert(padded_lt(a, b));
        } else {
            assert(padded_lt(b, a));
        }
    } else {
        let j = choose|j: int| 0 <= j < k && part_at(a, j) != part_at(b, j);
        lemma_first_difference(a, b, j);
    }
}

/// Exactly one of `padded_lt(a, b)`, `padded_eq(a, b)`, `padded_lt(b, a)`
/// holds: the padded component order is total.
pub proof fn lemma_padded_trichotomy(a: Seq<u64>, b: Seq<u64>)
    ensures
        padded_lt(a, b) || padded_eq(a, b) || padded_lt(b, a),
        padded_lt(a, b) ==> !padded_eq(a, b) && !padded_lt(b, a),
        padded_eq(a, b) ==> !padded_lt(a, b) && !padded_lt(b, a),
{
    if !padded_eq(a, b) {
        let k = choose|k: int| #![trigger part_at(a, k), part_at(b, k)]
            part_at(a, k) != part_at(b, k);
        if k >= 0 {
            lemma_first_difference(a, b, k);
        }
    }
    if padded_lt(a, b) && padded_lt(b, a) {
        let i = choose|i: int|
            0 <= i && part_at(a, i) < part_at(b, i) && (forall|j: int|
                0 <= j < i ==> part_at(a, j) == part_at(b, j));
        let k = choose|k: int|
            0 <= k && part_at(b, k) < part_at(a, k) && (forall|j: int|
                0 <= j < k ==> part_at(b, j) == part_at(a, j));
        if i < k {
            assert(part_at(b, i) == part_at(a, i));
        } else if k < i {
            assert(part_at(a, k) == part_at(b, k));
        }
    }
}

/// How one version stands to another in the padded component order.
pub enum VersionOrder {
    Before,
    Same,
    After,
}

impl Version {
    /// An exact copy of this version.
    pub fn duplicate(&self) -> (r: Version)
        ensures
            r@ == self@,
    {
        let mut parts: Vec<u64> = Vec::new();
        let mut i: usize = 0;
        while i < self.parts.len()
            invariant
                i <= self.parts.len(),
                parts@ == self.parts@.subrange(0, i as int),
            decreases self.parts.len() - i,
        {
            parts.push(self.parts[i]);
            i = i + 1;
        }
        proof {
            assert(parts@ =~= self.parts@);
        }
        Version { parts }
    }

    /// Compare two versions in the padded component order.
    pub fn compare(&self, other: &Version) -> (r: VersionOrder)
        ensures
            (r is Before) == padded_lt(self@, other@),
            (r is Same) == padded_eq(self@, other@),
            (r is After) == padded_lt(other@, self@),
    {
        proof {
            lemma_padded_trichotomy(self@, other@);
        }
        let n: usize = if self.parts.len() < other.parts.len() {
            other.parts.len()
        } else {
            self.parts.len()
        };
        let mut i: usize = 0;
        while i < n
            invariant
                i <= n,
                self.parts.len() <= n,
                other.parts.len() <= n,
                forall|j: int| 0 <= j < i ==> part_at(self@, j) == part_at(other@, j),
            decreases n - i,
        {
            let x: u64 = if i < self.parts.len() {
                self.parts[i]
            } else {
                0
            };
            let y: u64 = if i < other.parts.len() {
                other.parts[i]
            } else {
                0
            };
            proof {
                assert(x == part_at(self@, i as int));
                assert(y == part_at(other@, i as int));
            }
            if x < y {
                assert(padded_lt(self@, other@));
                return VersionOrder::Before;
            }
            if y < x {
                assert(padded_lt(other@, self@));
                return VersionOrder::After;
            }
            i = i + 1;
        }
        assert forall|k: int| part_at(self@, k) == part_at(other@, k) by {
            if !(0 <= k < n) {
                assert(part_at(self@, k) == 0);
                assert(part_at(other@, k) == 0);
            }
        }
        VersionOrder::Same
    }

    /// Whether this version equals `other` under zero padding.
    pub fn same_as(&self, other: &Version) -> (r: bool)
        ensures
            r == padded_eq(self@, other@),
    {
        matches!(self.compare(other), VersionOrder::Same)
    }

    /// Whether this version is at or below `other` under zero padding.
    pub fn at_most(&self, other: &Version) -> (r: bool)
        ensures
            r == padded_le(self@, other@),
    {
        !matches!(self.compare(other), VersionOrder::After)
    }
}

/// The dotted rendering of a version's components.
pub open spec fn version_chars(v: Seq<u64>) -> Seq<char>
    decreases v.len(),
{
    if v.len() == 0 {
        Seq::empty()
    } else if v.len() == 1 {
        crate::strutil::dec_chars(v[0] as nat)
    } else {
        version_chars(v.drop_last()) + seq!['.'] + crate::strutil::dec_chars(v.last() as nat)
    }
}

/// Append the dotted rendering of the components to `out`.
pub fn push_version_chars(out: &mut Vec<char>, v: &Vec<u64>)
    ensures
        final(out)@ == old(out)@ + version_chars(v@),
{
    let mut i: usize = 0;
    proof {
        assert(out@ =~= old(out)@ + version_chars(v@.subrange(0, 0)));
    }
    while i < v.len()
        invariant
            i <= v.len(),
            out@ == old(out)@ + version_chars(v@.subrange(0, i as int)),
        decreases v.len() - i,
    {
        if i > 0 {
            out.push('.');
        }
        crate::strutil::push_u64_chars(out, v[i]);
        proof {
            let pre = v@.subrange(0, i as int);
            let cur = v@.subrange(0, i + 1);
            assert(cur.drop_last() =~= pre);
            assert(cur.last() == v@[i as int]);
            if i == 0 {
                assert(version_chars(cur) == crate::strutil::dec_chars(v@[0] as nat));
                assert(out@ =~= old(out)@ + version_chars(cur));
            } else {
                assert(version_chars(cur) == version_chars(pre) + seq!['.']
                    + crate::strutil::dec_chars(v@[i as int] as nat));
                assert(out@ =~= old(out)@ + version_chars(cur));
            }
        }
        i = i + 1;
    }
    proof {
        assert(v@.subrange(0, v@.len() as int) =~= v@);
    }
}

/// A comparison operator of a version specifier.
#[derive(Clone, Copy, PartialEq, Eq, Structural)]
pub enum VersionOp {
    Equal,
    NotEqual,
    GreaterEq,
    LessEq,
    Greater,
    Less,
}

/// One clause of a version constraint, such as `>=3.10`.
pub struct VersionSpecifier {
    pub op: VersionOp,
    pub version: Version,
}

/// The mathematical content of a [`VersionSpecifier`].
pub ghost struct SpecifierKey {
    pub op: VersionOp,
    pub version: Seq<u64>,
}

impl View for VersionSpecifier {
    type V = SpecifierKey;

    open spec fn view(&self) -> SpecifierKey {
        SpecifierKey { op: self.op, version: self.version@ }
    }
}

/// Whether the version `v` lies in the range a specifier describes.
pub open spec fn specifier_allows(sp: SpecifierKey, v: Seq<u64>) -> bool {
    match sp.op {
        VersionOp::Equal => padded_eq(v, sp.version),
        VersionOp::NotEqual => !padded_eq(v, sp.version),
        VersionOp::GreaterEq => !padded_lt(v, sp.version),
        VersionOp::LessEq => !padded_lt(sp.version, v),
        VersionOp::Greater => padded_lt(sp.version, v),
        VersionOp::Less => padded_lt(v, sp.version),
    }
}

/// Whether `v` lies in every specifier of the list: their conjunction.
pub open spec fn specifiers_allow(sps: Seq<SpecifierKey>, v: Seq<u64>) -> bool {
    forall|i: int| 0 <= i < sps.len() ==> specifier_allows(#[trigger] sps[i], v)
}

impl VersionSpecifier {
    /// An exact copy of this specifier.
    pub fn duplicate(&self) -> (r: VersionSpecifier)
        ensures
            r@ == self@,
    {
        VersionSpecifier { op: self.op, version: self.version.duplicate() }
    }

    /// Decide whether `v` lies in the range this specifier describes.
    pub fn allows(&self, v: &Version) -> (r: bool)
        ensures
            r == specifier_allows(self@, v@),
    {
        proof {
            lemma_padded_trichotomy(v@, self.version@);
        }
        match self.op {
            VersionOp::Equal => v.same_as(&self.version),
            VersionOp::NotEqual => !v.same_as(&self.version),
            VersionOp::GreaterEq => !matches!(v.compare(&self.version), VersionOrder::Before),
            VersionOp::LessEq => !matches!(v.compare(&self.version), VersionOrder::After),
            VersionOp::Greater => matches!(v.compare(&self.version), VersionOrder::After),
            VersionOp::Less => matches!(v.compare(&self.version), VersionOrder::Before),
        }
    }
}

/// The view of a specifier list.
pub open spec fn specifiers_view(sps: Seq<VersionSpecifier>) -> Seq<SpecifierKey> {
    sps.map_values(|sp: VersionSpecifier| sp@)
}

/// Decide whether `v` lies in every specifier of the list.
pub fn all_specifiers_allow(sps: &Vec<VersionSpecifier>, v: &Version) -> (r: bool)
    ensures
        r == specifiers_allow(specifiers_view(sps@), v@),
{
    let mut i: usize = 0;
    while i < sps.len()
        invariant
            i <= sps.len(),
            forall|j: int| 0 <= j < i ==> specifier_allows(specifiers_view(sps@)[j], v@),
        decreases sps.len() - i,
    {
        if !sps[i].allows(v) {
            assert(!specifier_allows(specifiers_view(sps@)[i as int], v@));
            return false;
        }
        i = i + 1;
    }
    true
}

/// The project's `Requires-Python` bound: all versions at or above `floor`.
#[derive(Debug)]
pub struct RequiresPython {
    pub floor: Version,
}

impl View for RequiresPython {
    type V = Seq<u64>;

    open spec fn view(&self) -> Seq<u64> {
        self.floor@
    }
}

/// Whether `v` meets a requires-python bound with the given floor.
pub open spec fn requires_python_contains(floor: Seq<u64>, v: Seq<u64>) -> bool {
    !padded_lt(v, floor)
}

impl RequiresPython {
    /// An exact copy of this bound.
    pub fn duplicate(&self) -> (r: RequiresPython)
        ensures
            r@ == self@,
    {
        RequiresPython { floor: self.floor.duplicate() }
    }

    /// Whether the interpreter version `v` meets this bound.
    pub fn contains(&self, v: &Version) -> (r: bool)
        ensures
            r == requires_python_contains(self@, v@),
    {
        proof {
            lemma_padded_trichotomy(v@, self.floor@);
        }
        !matches!(v.compare(&self.floor), VersionOrder::Before)
    }
}

/// The requires-python bound of a whole workspace: the union of the members'
/// bounds, which is the lowest floor among them. Members without a declared
/// bound contribute nothing; a workspace where no member declares one has no
/// bound at all.
pub fn requires_python_union(bounds: &Vec<Option<RequiresPython>>) -> (r: Option<
    RequiresPython,
>)
    ensures
        (r is Some) <==> (exists|i: int| 0 <= i < bounds@.len() && bounds@[i] is Some),
        r matches Some(u) ==> (forall|i: int|
            0 <= i < bounds@.len() && bounds@[i] is Some ==> padded_le(
                u@,
                bounds@[i]->Some_0@,
            )),
        r matches Some(u) ==> (exists|i: int|
            0 <= i < bounds@.len() && bounds@[i] is Some && padded_eq(u@, #[trigger] bounds@[i]->Some_0@)),
{
    let mut best: Option<RequiresPython> = Option::None;
    let mut i: usize = 0;
    while i < bounds.len()
        invariant
            i <= bounds.len(),
            (best is Some) <==> (exists|j: int| 0 <= j < i && bounds@[j] is Some),
            best matches Some(u) ==> (forall|j: int|
                0 <= j < i && bounds@[j] is Some ==> padded_le(u@, bounds@[j]->Some_0@)),
            best matches Some(u) ==> (exists|j: int|
                0 <= j < i && bounds@[j] is Some && padded_eq(u@, #[trigger] bounds@[j]->Some_0@)),
        decreases bounds.len() - i,
    {
        match &bounds[i] {
            Option::Some(b) => {
                match &best {
                    Option::Some(u) => {
                        proof {
                            lemma_padded_trichotomy(b.floor@, u.floor@);
                        }
                        if b.floor.at_most(&u.floor) && !u.floor.at_most(&b.floor) {
                            proof {
                                lemma_le_transitive_helper();
                            }
                            best = Option::Some(b.duplicate());
                        }
                    },
                    Option::None => {
                        best = Option::Some(b.duplicate());
                    },
                }
            },
            Option::None => {},
        }
        i = i + 1;
    }
    best
}

/// Padded order is transitive: a floor at or below one bound is at or below
/// everything that bound is below.
pub proof fn lemma_le_transitive_helper()
    ensures
        forall|a: Seq<u64>, b: Seq<u64>, c: Seq<u64>|
            #[trigger] padded_le(a, b) && #[trigger] padded_le(b, c) ==> padded_le(a, c),
{
    assert forall|a: Seq<u64>, b: Seq<u64>, c: Seq<u64>|
        #[trigger] padded_le(a, b) && #[trigger] padded_le(b, c) implies padded_le(a, c) by {
        lemma_padded_le_transitive(a, b, c);
    }
}

/// Transitivity of the padded at-or-below order.
pub proof fn lemma_padded_le_transitive(a: Seq<u64>, b: Seq<u64>, c: Seq<u64>)
    requires
        padded_le(a, b),
        padded_le(b, c),
    ensures
        padded_le(a, c),
{
    lemma_padded_trichotomy(a, b);
    lemma_padded_trichotomy(b, c);
    lemma_padded_trichotomy(a, c);
    if padded_eq(a, b) && padded_eq(b, c) {
        assert forall|i: int| part_at(a, i) == part_at(c, i) by {
            assert(part_at(a, i) == part_at(b, i));
            assert(part_at(b, i) == part_at(c, i));
        }
    } else if padded_eq(a, b) && padded_lt(b, c) {
        let i = choose|i: int|
            0 <= i && part_at(b, i) < part_at(c, i) && (forall|j: int|
                0 <= j < i ==> part_at(b, j) == part_at(c, j));
        assert(part_at(a, i) < part_at(c, i));
        assert(forall|j: int| 0 <= j < i ==> part_at(a, j) == part_at(c, j));
        assert(padded_lt(a, c));
    } else if padded_lt(a, b) && padded_eq(b, c) {
        let i = choose|i: int|
            0 <= i && part_at(a, i) < part_at(b, i) && (forall|j: int|
                0 <= j < i ==> part_at(a, j) == part_at(b, j));
        assert(part_at(a, i) < part_at(c, i));
        assert(forall|j: int| 0 <= j < i ==> part_at(a, j) == part_at(c, j));
        assert(padded_lt(a, c));
    } else if padded_lt(a, b) && padded_lt(b, c) {
        let i = choose|i: int|
            0 <= i && part_at(a, i) < part_at(b, i) && (forall|j: int|
                0 <= j < i ==> part_at(a, j) == part_at(b, j));
        let k = choose|k: int|
            0 <= k && part_at(b, k) < part_at(c, k) && (forall|j: int|
                0 <= j < k ==> part_at(b, j) == part_at(c, j));
        if i < k {
            assert(part_at(a, i) < part_at(c, i));
            assert(forall|j: int| 0 <= j < i ==> part_at(a, j) == part_at(c, j));
            assert(padded_lt(a, c));
        } else {
            assert(part_at(a, k) < part_at(c, k));
            assert(forall|j: int| 0 <= j < k ==> part_at(a, j) == part_at(c, j));
            assert(padded_lt(a, c));
        }
    }
}

} // verus!
