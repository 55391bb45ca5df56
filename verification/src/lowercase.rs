//! A string whose ASCII letters are known, or assumed by the caller, to be lowercase.
use vstd::prelude::*;

use crate::text::{
    chars_of, spec_ascii_lowercase, spec_ascii_uppercase, spec_contains, spec_ends_with,
    spec_starts_with, str_contains, str_ends_with, str_eq, str_starts_with, str_to_ascii_lowercase,
    str_to_ascii_uppercase, string_from_chars, string_of,
};

verus! {

/// A string that is meant to hold no ASCII uppercase letters.
///
/// [`Lowercase::new`] lowercases its argument. The constructors and methods marked `unchecked`
/// take the caller's word for it.
#[derive(Debug, Clone)]
pub struct Lowercase {
    s: String,
}

impl View for Lowercase {
    type V = Seq<char>;

    closed spec fn view(&self) -> Seq<char> {
        self.s@
    }
}

impl Lowercase {
    /// The ASCII-lowercased form of `s`.
    pub fn new(s: &str) -> (l: Lowercase)
        ensures
            l@ == spec_ascii_lowercase(s@),
    {
        Lowercase { s: str_to_ascii_lowercase(s) }
    }

    /// `s` as it is.
    pub fn new_unchecked(s: &str) -> (l: Lowercase)
        ensures
            l@ == s@,
    {
        Lowercase { s: string_of(s) }
    }

    /// `s` as it is.
    pub fn from_string_unchecked(s: String) -> (l: Lowercase)
        ensures
            l@ == s@,
    {
        Lowercase { s }
    }

    /// The empty string.
    pub fn empty() -> (l: Lowercase)
        ensures
            l@ == Seq::<char>::empty(),
    {
        Lowercase { s: String::new() }
    }

    /// The string's text.
    pub fn as_str(&self) -> (s: &str)
        ensures
            s@ == self@,
    {
        self.s.as_str()
    }

    /// The string's text, owned.
    pub fn into_cow(self) -> (s: String)
        ensures
            s@ == self@,
    {
        self.s
    }

    /// The ASCII-uppercased form of the string.
    pub fn to_uppercase(&self) -> (s: String)
        ensures
            s@ == spec_ascii_uppercase(self@),
    {
        str_to_ascii_uppercase(self.s.as_str())
    }

    /// The rest of the string after `prefix`, if it starts with `prefix`.
    pub fn strip_prefix_unchecked(&self, prefix: &str) -> (r: Option<Lowercase>)
        ensures
            match r {
                Some(l) => spec_starts_with(self@, prefix@) && l@ == self@.subrange(prefix@.len() as int, self@.len() as int),
                None => !spec_starts_with(self@, prefix@),
            },
    {
        if str_starts_with(self.s.as_str(), prefix) {
            let v = chars_of(self.s.as_str());
            let p = chars_of(prefix);
            Some(Lowercase { s: string_from_chars(v.as_slice(), p.len(), v.len()) })
        } else {
            None
        }
    }

    /// The string before `suffix`, if it ends with `suffix`.
    pub fn strip_suffix_unchecked(&self, suffix: &str) -> (r: Option<Lowercase>)
        ensures
            match r {
                Some(l) => spec_ends_with(self@, suffix@) && l@ == self@.subrange(0, self@.len() - suffix@.len()),
                None => !spec_ends_with(self@, suffix@),
            },
    {
        if str_ends_with(self.s.as_str(), suffix) {
            let v = chars_of(self.s.as_str());
            let p = chars_of(suffix);
            Some(Lowercase { s: string_from_chars(v.as_slice(), 0, v.len() - p.len()) })
        } else {
            None
        }
    }

    /// Whether `infix` occurs in the string.
    pub fn contains_unchecked(&self, infix: &str) -> (b: bool)
        ensures
            b == spec_contains(self@, infix@),
    {
        str_contains(self.s.as_str(), infix)
    }

    /// The positions of `separator` in the string, from the last to the first.
    pub fn rmatch_indices_unchecked(&self, separator: char) -> (r: Vec<usize>)
        ensures
            forall|k: int| 0 <= k < r@.len() ==> (#[trigger] r@[k]) < self@.len() && self@[r@[k] as int] == separator,
            forall|k: int, l: int| 0 <= k < l < r@.len() ==> #[trigger] r@[k] > #[trigger] r@[l],
            forall|i: int| 0 <= i < self@.len() && self@[i] == separator ==> r@.contains(i as usize),
    {
        let v = chars_of(self.s.as_str());
        let mut r: Vec<usize> = Vec::new();
        let mut i = v.len();
        while i > 0
            invariant
                i <= v@.len(),
                v@ == self@,
                forall|k: int| 0 <= k < r@.len() ==> (#[trigger] r@[k]) < v@.len() && r@[k] >= i && v@[r@[k] as int] == separator,
                forall|k: int, l: int| 0 <= k < l < r@.len() ==> #[trigger] r@[k] > #[trigger] r@[l],
                forall|j: int| i <= j < v@.len() && v@[j] == separator ==> r@.contains(j as usize),
            decreases i,
        {
            i = i - 1;
            if v[i] == separator {
                let ghost before = r@;
                r.push(i);
                assert(r@[r@.len() - 1] == i);
                assert forall|j: int| i <= j < v@.len() && v@[j] == separator implies r@.contains(j as usize) by {
                    if j == i {
                        assert(r@[r@.len() - 1] == j as usize);
                    } else {
                        let k = choose|k: int| 0 <= k < before.len() && before[k] == j as usize;
                        assert(r@[k] == j as usize);
                    }
                }
            }
        }
        r
    }

    /// The chars of the string from `start` up to `end`.
    pub fn slice(&self, start: usize, end: usize) -> (l: Lowercase)
        requires
            start <= end <= self@.len(),
        ensures
            l@ == self@.subrange(start as int, end as int),
    {
        let v = chars_of(self.s.as_str());
        Lowercase { s: string_from_chars(v.as_slice(), start, end) }
    }

    /// Whether the string is `s`.
    pub fn is(&self, s: &str) -> (b: bool)
        ensures
            b == (self@ == s@),
    {
        str_eq(self.s.as_str(), s)
    }
}

/// Lowercasing twice is lowercasing once: [`Lowercase::new`] of a lowercased string keeps it.
pub proof fn law_lowercase_idempotent(s: Seq<char>)
    ensures
        spec_ascii_lowercase(spec_ascii_lowercase(s)) == spec_ascii_lowercase(s),
{
    assert(spec_ascii_lowercase(spec_ascii_lowercase(s)) =~= spec_ascii_lowercase(s));
}

/// A prefix that was stripped, put back in front of what is left, gives the string again.
pub proof fn law_strip_prefix_rejoins(s: Seq<char>, prefix: Seq<char>)
    requires
        spec_starts_with(s, prefix),
    ensures
        prefix + s.subrange(prefix.len() as int, s.len() as int) == s,
{
    assert(prefix + s.subrange(prefix.len() as int, s.len() as int) =~= s);
}

} // verus!
