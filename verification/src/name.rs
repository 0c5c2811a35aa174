//! Package names: validity and canonical (normalized) form.
//!
//! A well-formed name starts and ends with an ASCII letter or digit and holds
//! only letters, digits and the separators `-`, `_` and `.` in between. Its
//! canonical form lowercases the letters and collapses every run of
//! separators to a single `-`, so `Flask_Login` and `flask-login` name the
//! same package.
use vstd::prelude::*;
use crate::strutil::{chars_of_str, string_from_chars};

verus! {

/// Whether `c` is an ASCII letter or digit.
pub open spec fn is_alnum(c: char) -> bool {
    ('a' as u32 <= c as u32 && c as u32 <= 'z' as u32) || ('A' as u32 <= c as u32 && c as u32
        <= 'Z' as u32) || ('0' as u32 <= c as u32 && c as u32 <= '9' as u32)
}

/// Whether `c` is one of the separators a name may hold.
pub open spec fn is_separator(c: char) -> bool {
    c == '-' || c == '_' || c == '.'
}

/// Whether `s` is a well-formed package name.
pub open spec fn valid_name(s: Seq<char>) -> bool {
    s.len() > 0 && is_alnum(s[0]) && is_alnum(s[s.len() - 1]) && (forall|i: int|
        0 <= i < s.len() ==> is_alnum(#[trigger] s[i]) || is_separator(s[i]))
}

/// The lowercase form of an ASCII letter; other characters are unchanged.
pub open spec fn lower_char(c: char) -> char {
    match c {
        'A' => 'a',
        'B' => 'b',
        'C' => 'c',
        'D' => 'd',
        'E' => 'e',
        'F' => 'f',
        'G' => 'g',
        'H' => 'h',
        'I' => 'i',
        'J' => 'j',
        'K' => 'k',
        'L' => 'l',
        'M' => 'm',
        'N' => 'n',
        'O' => 'o',
        'P' => 'p',
        'Q' => 'q',
        'R' => 'r',
        'S' => 's',
        'T' => 't',
        'U' => 'u',
        'V' => 'v',
        'W' => 'w',
        'X' => 'x',
        'Y' => 'y',
        'Z' => 'z',
        _ => c,
    }
}

/// The canonical form of the characters from position `i` on, where
/// `prev_sep` says whether a separator was just emitted for the run that
/// position `i` may continue.
pub open spec fn normalize_from(s: Seq<char>, i: int, prev_sep: bool) -> Seq<char>
    decreases s.len() - i,
{
    if i < 0 || i >= s.len() {
        Seq::empty()
    } else if is_separator(s[i]) {
        if prev_sep {
            normalize_from(s, i + 1, true)
        } else {
            seq!['-'] + normalize_from(s, i + 1, true)
        }
    } else {
        seq![lower_char(s[i])] + normalize_from(s, i + 1, false)
    }
}

/// The canonical form of a name: lowercased, separator runs collapsed to `-`.
pub open spec fn normal_of(s: Seq<char>) -> Seq<char> {
    normalize_from(s, 0, false)
}

/// A package name in canonical form.
pub struct PackageName {
    pub value: String,
}

impl View for PackageName {
    type V = Seq<char>;

    open spec fn view(&self) -> Seq<char> {
        self.value@
    }
}

/// Decide whether `c` is an ASCII letter or digit.
pub fn alnum_char(c: char) -> (r: bool)
    ensures
        r == is_alnum(c),
{
    let u = c as u32;
    ('a' as u32 <= u && u <= 'z' as u32) || ('A' as u32 <= u && u <= 'Z' as u32) || ('0' as u32
        <= u && u <= '9' as u32)
}

/// Decide whether `c` is a separator a name may hold.
pub fn separator_char(c: char) -> (r: bool)
    ensures
        r == is_separator(c),
{
    c == '-' || c == '_' || c == '.'
}

/// The lowercase form of an ASCII letter; other characters are unchanged.
pub fn lowercase_char(c: char) -> (r: char)
    ensures
        r == lower_char(c),
{
    match c {
        'A' => 'a',
        'B' => 'b',
        'C' => 'c',
        'D' => 'd',
        'E' => 'e',
        'F' => 'f',
        'G' => 'g',
        'H' => 'h',
        'I' => 'i',
        'J' => 'j',
        'K' => 'k',
        'L' => 'l',
        'M' => 'm',
        'N' => 'n',
        'O' => 'o',
        'P' => 'p',
        'Q' => 'q',
        'R' => 'r',
        'S' => 's',
        'T' => 't',
        'U' => 'u',
        'V' => 'v',
        'W' => 'w',
        'X' => 'x',
        'Y' => 'y',
        'Z' => 'z',
        _ => c,
    }
}

/// Decide whether the characters form a well-formed package name.
pub fn valid_name_chars(v: &Vec<char>) -> (r: bool)
    ensures
        r == valid_name(v@),
{
    if v.len() == 0 {
        return false;
    }
    if !alnum_char(v[0]) {
        return false;
    }
    if !alnum_char(v[v.len() - 1]) {
        return false;
    }
    let mut i: usize = 0;
    while i < v.len()
        invariant
            i <= v.len(),
            forall|j: int| 0 <= j < i ==> is_alnum(#[trigger] v@[j]) || is_separator(v@[j]),
        decreases v.len() - i,
    {
        if !alnum_char(v[i]) && !separator_char(v[i]) {
            return false;
        }
        i = i + 1;
    }
    true
}

/// The canonical form of the given characters.
pub fn normalize_chars(v: &Vec<char>) -> (r: Vec<char>)
    ensures
        r@ == normal_of(v@),
{
    let mut out: Vec<char> = Vec::new();
    let mut prev_sep = false;
    let mut i: usize = 0;
    while i < v.len()
        invariant
            i <= v.len(),
            out@ + normalize_from(v@, i as int, prev_sep) == normal_of(v@),
        decreases v.len() - i,
    {
        if separator_char(v[i]) {
            if !prev_sep {
                out.push('-');
                prev_sep = true;
            }
        } else {
            out.push(lowercase_char(v[i]));
            prev_sep = false;
        }
        proof {
            assert(out@ + normalize_from(v@, i + 1, prev_sep) =~= normal_of(v@));
        }
        i = i + 1;
    }
    proof {
        assert(out@ =~= normal_of(v@));
    }
    out
}

/// Why a string was rejected as a package name.
#[derive(Debug)]
pub enum NameError {
    Invalid,
}

impl PackageName {
    /// An exact copy of this name.
    pub fn duplicate(&self) -> (r: PackageName)
        ensures
            r@ == self@,
    {
        PackageName { value: self.value.clone() }
    }

    /// Whether two names name the same package.
    pub fn same_as(&self, other: &PackageName) -> (r: bool)
        ensures
            r == (self@ == other@),
    {
        self.value == other.value
    }

    /// Parse a string as a package name: accepted exactly when it is
    /// well-formed, and stored in canonical form.
    pub fn parse(s: &str) -> (r: Result<PackageName, NameError>)
        ensures
            (r is Ok) == valid_name(s@),
            r matches Ok(n) ==> n@ == normal_of(s@),
    {
        let chars = chars_of_str(s);
        if !valid_name_chars(&chars) {
            return Result::Err(NameError::Invalid);
        }
        let normal = normalize_chars(&chars);
        Result::Ok(PackageName { value: string_from_chars(&normal) })
    }

    /// The canonical name as a string.
    pub fn as_string(&self) -> (r: String)
        ensures
            r@ == self@,
    {
        self.value.clone()
    }
}

} // verus!
