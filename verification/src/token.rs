//! The core [`Token`] and [`Loc`] types, which represent pieces of game script and where in the
//! game files they came from.
//!
//! Positions inside a token are counted in chars.
use vstd::prelude::*;

use crate::fileset::FileKind;
use crate::number::{is_float_syntax, parse_i64, spec_float_syntax, spec_parse_i64};
use crate::report::builder::{err, simple_report};
use crate::report::error_key::ErrorKey;
use crate::report::errors::{Errors, lemma_logged_trans};
use crate::report::report_struct::{Confidence, ReportView, Severity};
use crate::pathtable::{PathTable, PathTableIndex};
use crate::text::{char_is_whitespace, chars_of, spec_join, spec_ends_with, spec_starts_with, str_eq, str_starts_with, str_to_lowercase, string_from_chars, string_of, string_push, unicode_lowercase, unicode_whitespace, vec_starts_with_at};

verus! {

/// A location in the game files.
#[derive(Clone, Copy, Debug, PartialEq, Eq, Structural)]
pub struct Loc {
    pub idx: PathTableIndex,
    pub kind: FileKind,
    /// line 0 means the loc applies to the file as a whole.
    pub line: u32,
    pub column: u32,
    /// Used in macro expansions to point to the macro invocation in the macro table.
    pub link_idx: Option<u32>,
}

impl Loc {
    /// A loc for the file with path index `idx` as a whole.
    pub fn new(idx: PathTableIndex, kind: FileKind) -> (loc: Loc)
        ensures
            loc == (Loc { idx, kind, line: 0, column: 0, link_idx: None }),
    {
        Loc { idx, kind, line: 0, column: 0, link_idx: None }
    }

    /// The path of this loc's file, relative to its root.
    pub fn pathname<'t>(self, table: &'t PathTable) -> (p: &'t String)
        requires
            (self.idx.0 as int) < table.entries().len(),
        ensures
            p@ == table.entries()[self.idx.0 as int].0,
    {
        table.lookup_path(self.idx)
    }

    /// The full filesystem path of this loc's file.
    pub fn fullpath<'t>(self, table: &'t PathTable) -> (p: &'t String)
        requires
            (self.idx.0 as int) < table.entries().len(),
        ensures
            p@ == table.entries()[self.idx.0 as int].1,
    {
        table.lookup_fullpath(self.idx)
    }

    /// Whether both locs are in the same file.
    pub fn same_file(self, other: Loc) -> (b: bool)
        ensures
            b == (self.idx == other.idx),
    {
        self.idx.0 == other.idx.0
    }
}

/// The loc moved `n` columns to the right.
pub open spec fn shifted(loc: Loc, n: int) -> Loc {
    Loc { column: (loc.column + n) as u32, ..loc }
}

/// A piece of script text together with its location.
#[derive(Debug)]
pub struct Token {
    /// The text of the token.
    pub s: String,
    pub loc: Loc,
}

impl View for Token {
    type V = Seq<char>;

    open spec fn view(&self) -> Seq<char> {
        self.s@
    }
}

impl Clone for Token {
    fn clone(&self) -> (t: Self)
        ensures
            t == *self,
    {
        Token { s: self.s.clone(), loc: self.loc }
    }
}

/// The index of the first `ch` in `s`, if `s` has one.
pub open spec fn is_first(s: Seq<char>, ch: char, i: int) -> bool {
    0 <= i < s.len() && s[i] == ch && forall|j: int| 0 <= j < i ==> s[j] != ch
}

pub open spec fn has_char(s: Seq<char>, ch: char) -> bool {
    exists|i: int| 0 <= i < s.len() && s[i] == ch
}

pub open spec fn first_index(s: Seq<char>, ch: char) -> int {
    choose|i: int| is_first(s, ch, i)
}

pub proof fn lemma_first_index(s: Seq<char>, ch: char, i: int)
    requires
        is_first(s, ch, i),
    ensures
        first_index(s, ch) == i,
        has_char(s, ch),
{
    let k = first_index(s, ch);
    assert(is_first(s, ch, k));
    if k < i {
        assert(s[k] != ch);
    } else if k > i {
        assert(s[i] != ch);
    }
}

/// Where the pieces of `s` start when it is cut at every `ch`.
pub open spec fn split_starts(s: Seq<char>, ch: char) -> Seq<int>
    decreases s.len(),
{
    if s.len() == 0 {
        seq![0int]
    } else {
        let p = split_starts(s.drop_last(), ch);
        if s.last() == ch {
            p.push(s.len() as int)
        } else {
            p
        }
    }
}

/// Where piece `k` of `s` cut at every `ch` ends.
pub open spec fn split_end(s: Seq<char>, ch: char, k: int) -> int {
    let st = split_starts(s, ch);
    if k + 1 < st.len() {
        st[k + 1] - 1
    } else {
        s.len() as int
    }
}

/// The number of newlines in `s`.
pub open spec fn count_newlines(s: Seq<char>) -> int
    decreases s.len(),
{
    if s.len() == 0 {
        0
    } else {
        count_newlines(s.drop_last()) + if s.last() == '\n' {
            1int
        } else {
            0int
        }
    }
}

/// The loc of piece `k` of a token split at every `ch`.
pub open spec fn split_loc(s: Seq<char>, ch: char, loc: Loc, k: int) -> Loc {
    let st = split_starts(s, ch);
    if k == 0 {
        loc
    } else {
        Loc {
            column: (loc.column + st[k]) as u32,
            line: (loc.line + count_newlines(s.take(st[k] - 1))) as u32,
            ..loc
        }
    }
}

pub proof fn lemma_split_starts_props(s: Seq<char>, ch: char)
    ensures
        split_starts(s, ch).len() >= 1,
        split_starts(s, ch)[0] == 0,
        split_starts(s, ch).last() <= s.len(),
        forall|k: int|
            1 <= k < split_starts(s, ch).len() ==> 1 <= #[trigger] split_starts(s, ch)[k] <= s.len()
                && s[split_starts(s, ch)[k] - 1] == ch,
        forall|k: int|
            0 <= k < split_starts(s, ch).len() - 1 ==> #[trigger] split_starts(s, ch)[k]
                < split_starts(s, ch)[k + 1],
    decreases s.len(),
{
    if s.len() > 0 {
        lemma_split_starts_props(s.drop_last(), ch);
    }
}

pub proof fn lemma_split_starts_prefix(s: Seq<char>, ch: char, i: int, j: int)
    requires
        0 <= i <= j <= s.len(),
    ensures
        split_starts(s.take(i), ch).len() <= split_starts(s.take(j), ch).len(),
        forall|k: int|
            0 <= k < split_starts(s.take(i), ch).len() ==> #[trigger] split_starts(s.take(i), ch)[k]
                == split_starts(s.take(j), ch)[k],
    decreases j - i,
{
    if i < j {
        lemma_split_starts_prefix(s, ch, i, j - 1);
        assert(s.take(j).drop_last() =~= s.take(j - 1));
    }
}

proof fn lemma_count_newlines_bound(s: Seq<char>)
    ensures
        0 <= count_newlines(s) <= s.len(),
    decreases s.len(),
{
    if s.len() > 0 {
        lemma_count_newlines_bound(s.drop_last());
    }
}

/// Number of leading whitespace chars of `s`.
pub open spec fn leading_ws(s: Seq<char>, n: int) -> bool {
    0 <= n <= s.len() && (forall|j: int| 0 <= j < n ==> unicode_whitespace(#[trigger] s[j])) && (
    n == s.len() || !unicode_whitespace(s[n]))
}

pub open spec fn trailing_ws_end(s: Seq<char>, e: int) -> bool {
    0 <= e <= s.len() && (forall|j: int| e <= j < s.len() ==> unicode_whitespace(#[trigger] s[j]))
        && (e == 0 || !unicode_whitespace(s[e - 1]))
}

/// Number of bytes of the UTF-8 encoding of `c`.
pub open spec fn spec_len_utf8(c: char) -> int {
    if (c as u32) < 0x80 {
        1
    } else if (c as u32) < 0x800 {
        2
    } else if (c as u32) < 0x10000 {
        3
    } else {
        4
    }
}

pub fn len_utf8(c: char) -> (n: u32)
    ensures
        n == spec_len_utf8(c),
{
    let u = c as u32;
    if u < 0x80 {
        1
    } else if u < 0x800 {
        2
    } else if u < 0x10000 {
        3
    } else {
        4
    }
}

impl Token {
    /// The text of the token as chars.
    pub open spec fn text(&self) -> Seq<char> {
        self.s@
    }

    pub fn new(s: &str, loc: Loc) -> (t: Token)
        ensures
            t@ == s@,
            t.loc == loc,
    {
        Token { s: string_of(s), loc }
    }

    pub fn from_static_str(s: &str, loc: Loc) -> (t: Token)
        ensures
            t@ == s@,
            t.loc == loc,
    {
        Token { s: string_of(s), loc }
    }

    /// A token made from an owned string.
    pub fn from_string(s: String, loc: Loc) -> (t: Token)
        ensures
            t@ == s@,
            t.loc == loc,
    {
        Token { s, loc }
    }

    /// A token with empty text at `loc`.
    pub fn from_loc(loc: Loc) -> (t: Token)
        ensures
            t@ == Seq::<char>::empty(),
            t.loc == loc,
    {
        Token { s: String::new(), loc }
    }

    /// Number of chars in the token.
    pub fn char_len(&self) -> (n: usize)
        ensures
            n == self@.len(),
    {
        self.s.as_str().unicode_len()
    }

    /// The token's chars.
    pub fn chars(&self) -> (v: Vec<char>)
        ensures
            v@ == self@,
    {
        chars_of(self.s.as_str())
    }

    /// Create a `Token` from the chars `start..end` of this one.
    pub fn subtoken(&self, start: usize, end: usize, loc: Loc) -> (t: Token)
        requires
            start <= end <= self@.len(),
        ensures
            t@ == self@.subrange(start as int, end as int),
            t.loc == loc,
    {
        let v = self.chars();
        Token { s: string_from_chars(v.as_slice(), start, end), loc }
    }

    /// Create a `Token` from the chars `start..end` of this one, stripping whitespace from both
    /// ends. The loc's column moves right by one for each whitespace char stripped at the start.
    /// A range that holds only whitespace gives an empty token, with the column moved past the
    /// whole range.
    pub fn subtoken_stripped(&self, start: usize, end: usize, loc: Loc) -> (t: Token)
        requires
            start <= end <= self@.len(),
            loc.column + (end - start) <= u32::MAX,
        ensures
            ({
                let r = self@.subrange(start as int, end as int);
                exists|n: int, e: int|
                    #![trigger leading_ws(r, n), trailing_ws_end(r, e)]
                    leading_ws(r, n) && trailing_ws_end(r, e) && t.loc == shifted(loc, n) && if n
                        == r.len() {
                        t@ == Seq::<char>::empty()
                    } else {
                        t@ == r.subrange(n, e)
                    }
            }),
    {
        let v = self.chars();
        let ghost r = v@.subrange(start as int, end as int);
        let mut i = start;
        while i < end && char_is_whitespace(v[i])
            invariant
                start <= i <= end <= v@.len(),
                forall|j: int| start <= j < i ==> unicode_whitespace(#[trigger] v@[j]),
            decreases end - i,
        {
            i = i + 1;
        }
        assert forall|j: int| 0 <= j < i - start implies unicode_whitespace(#[trigger] r[j]) by {
            assert(r[j] == v@[start + j]);
        }
        let ghost n = i - start;
        assert(leading_ws(r, n as int));
        let mut e = end;
        while e > i && char_is_whitespace(v[e - 1])
            invariant
                start <= i <= e <= end <= v@.len(),
                forall|j: int| e <= j < end ==> unicode_whitespace(#[trigger] v@[j]),
            decreases e - i,
        {
            e = e - 1;
        }
        let mut l = loc;
        l.column = loc.column + (i - start) as u32;
        if i == end {
            assert(trailing_ws_end(r, 0)) by {
                assert forall|j: int| 0 <= j < r.len() implies unicode_whitespace(#[trigger] r[j]) by {
                    assert(r[j] == v@[start + j]);
                }
            }
            Token { s: String::new(), loc: l }
        } else {
            assert(e > i) by {
                assert(!unicode_whitespace(v@[i as int]));
            }
            assert forall|j: int| e - start <= j < r.len() implies unicode_whitespace(#[trigger] r[j]) by {
                assert(r[j] == v@[start + j]);
            }
            assert(trailing_ws_end(r, e - start));
            assert(v@.subrange(i as int, e as int) =~= r.subrange(n as int, e - start));
            Token { s: string_from_chars(v.as_slice(), i, e), loc: l }
        }
    }

    pub fn as_str(&self) -> (s: &str)
        ensures
            s@ == self@,
    {
        self.s.as_str()
    }

    /// Whether the token's text is `s`.
    pub fn is(&self, s: &str) -> (b: bool)
        ensures
            b == (self@ == s@),
    {
        str_eq(self.s.as_str(), s)
    }

    /// Whether the Unicode lowercase form of the token's text is `s`.
    pub fn lowercase_is(&self, s: &str) -> (b: bool)
        ensures
            b == (unicode_lowercase(self@) == s@),
    {
        let l = str_to_lowercase(self.s.as_str());
        str_eq(l.as_str(), s)
    }

    pub fn starts_with(&self, s: &str) -> (b: bool)
        ensures
            b == spec_starts_with(self@, s@),
    {
        str_starts_with(self.s.as_str(), s)
    }

    /// Split the token into one or more subtokens, with `ch` as the delimiter.
    /// Each subtoken after the first starts just after a `ch`; its column is the token's column
    /// plus that position, and its line is the token's line plus the number of newlines before
    /// the delimiter.
    #[verifier::spinoff_prover]
    #[verifier::rlimit(30)]
    pub fn split(&self, ch: char) -> (r: Vec<Token>)
        requires
            self.loc.column + self@.len() + 1 <= u32::MAX,
            self.loc.line + self@.len() <= u32::MAX,
        ensures
            r@.len() == split_starts(self@, ch).len(),
            forall|k: int|
                0 <= k < r@.len() ==> #[trigger] r@[k]@ == self@.subrange(
                    split_starts(self@, ch)[k],
                    split_end(self@, ch, k),
                ) && r@[k].loc == split_loc(self@, ch, self.loc, k),
    {
        let v = self.chars();
        let ghost s = v@;
        let mut vec: Vec<Token> = Vec::new();
        let mut pos: usize = 0;
        let mut loc = self.loc;
        let mut lines: u32 = 0;
        let mut i: usize = 0;
        proof {
            lemma_count_newlines_bound(s);
            lemma_split_starts_props(s, ch);
            assert(s.take(0) =~= Seq::<char>::empty());
        }
        while i < v.len()
            invariant
                s == v@,
                s == self@,
                i <= s.len(),
                self.loc.column + s.len() + 1 <= u32::MAX,
                self.loc.line + s.len() <= u32::MAX,
                lines == count_newlines(s.take(i as int)),
                vec@.len() + 1 == split_starts(s.take(i as int), ch).len(),
                pos == split_starts(s.take(i as int), ch).last(),
                pos <= i,
                loc == split_loc(s, ch, self.loc, vec@.len() as int),
                forall|k: int| 0 <= k < vec@.len() ==> split_starts(s, ch)[k] == #[trigger] split_starts(s.take(i as int), ch)[k],
                vec@.len() < split_starts(s, ch).len(),
                forall|k: int|
                    0 <= k < vec@.len() ==> #[trigger] vec@[k]@ == s.subrange(
                        split_starts(s, ch)[k],
                        split_end(s, ch, k),
                    ) && vec@[k].loc == split_loc(s, ch, self.loc, k),
            decreases v.len() - i,
        {
            let ghost k = vec@.len() as int;
            proof {
                assert(s.take(i + 1).drop_last() =~= s.take(i as int));
                lemma_split_starts_prefix(s, ch, (i + 1) as int, s.len() as int);
                lemma_split_starts_prefix(s, ch, i as int, s.len() as int);
                lemma_count_newlines_bound(s.take(i as int));
                assert(s.take(s.len() as int) =~= s);
            }
            let ghost old_vec = vec@;
            if v[i] == ch {
                vec.push(Token { s: string_from_chars(v.as_slice(), pos, i), loc });
                pos = i + 1;
                loc.column = self.loc.column + (i as u32) + 1;
                loc.line = self.loc.line + lines;
                proof {
                    assert(split_starts(s.take(i + 1), ch)[k + 1] == i + 1);
                    assert(split_starts(s, ch)[k + 1] == i + 1);
                    assert(split_starts(s, ch)[k] == split_starts(s.take(i as int), ch)[k]);
                    assert(split_starts(s.take(i + 1), ch).len() == k + 2);
                    assert(split_end(s, ch, k) == i);
                    assert(vec@[k]@ == s.subrange(split_starts(s, ch)[k], split_end(s, ch, k)));
                    assert(vec@[k].loc == split_loc(s, ch, self.loc, k));
                    assert forall|kk: int| 0 <= kk < vec@.len() implies #[trigger] vec@[kk]@ == s.subrange(
                        split_starts(s, ch)[kk],
                        split_end(s, ch, kk),
                    ) && vec@[kk].loc == split_loc(s, ch, self.loc, kk) by {
                        if kk < k {
                            assert(vec@[kk] == old_vec[kk]);
                        }
                    }
                    assert forall|kk: int| 0 <= kk < vec@.len() implies split_starts(s, ch)[kk] == #[trigger] split_starts(s.take(i + 1), ch)[kk] by {
                        if kk < k {
                            assert(split_starts(s.take(i + 1), ch)[kk] == split_starts(s.take(i as int), ch)[kk]);
                        }
                    }
                }
            }
            else {
                proof {
                    assert(split_starts(s.take(i + 1), ch) == split_starts(s.take(i as int), ch));
                    assert forall|kk: int| 0 <= kk < vec@.len() implies #[trigger] vec@[kk]@ == s.subrange(
                        split_starts(s, ch)[kk],
                        split_end(s, ch, kk),
                    ) && vec@[kk].loc == split_loc(s, ch, self.loc, kk) by {
                        assert(vec@[kk] == old_vec[kk]);
                    }
                }
            }
            if v[i] == '\n' {
                lines = lines + 1;
            }
            i = i + 1;
        }
        proof {
            assert(s.take(s.len() as int) =~= s);
        }
        vec.push(Token { s: string_from_chars(v.as_slice(), pos, v.len()), loc });
        vec
    }

    pub fn strip_suffix(&self, sfx: &str) -> (r: Option<Token>)
        ensures
            match r {
                Some(t) => spec_ends_with(self@, sfx@) && t@ == self@.subrange(
                    0,
                    self@.len() - sfx@.len(),
                ) && t.loc == self.loc,
                None => !spec_ends_with(self@, sfx@),
            },
    {
        let v = self.chars();
        let p = chars_of(sfx);
        if p.len() <= v.len() && vec_starts_with_at(&v, &p, v.len() - p.len()) {
            Some(Token { s: string_from_chars(v.as_slice(), 0, v.len() - p.len()), loc: self.loc })
        } else {
            None
        }
    }

    pub fn strip_prefix(&self, pfx: &str) -> (r: Option<Token>)
        requires
            self.loc.column + self@.len() <= u32::MAX,
        ensures
            match r {
                Some(t) => spec_starts_with(self@, pfx@) && t@ == self@.subrange(
                    pfx@.len() as int,
                    self@.len() as int,
                ) && t.loc == shifted(self.loc, pfx@.len() as int),
                None => !spec_starts_with(self@, pfx@),
            },
    {
        let v = self.chars();
        let p = chars_of(pfx);
        if p.len() <= v.len() && vec_starts_with_at(&v, &p, 0) {
            let mut loc = self.loc;
            loc.column = loc.column + p.len() as u32;
            Some(Token { s: string_from_chars(v.as_slice(), p.len(), v.len()), loc })
        } else {
            None
        }
    }

    /// Split the token in two at the first `ch`, which belongs to neither part.
    pub fn split_once(&self, ch: char) -> (r: Option<(Token, Token)>)
        requires
            self.loc.column + self@.len() + 1 <= u32::MAX,
        ensures
            match r {
                Some((a, b)) => has_char(self@, ch) && a@ == self@.take(first_index(self@, ch))
                    && a.loc == self.loc && b@ == self@.skip(first_index(self@, ch) + 1) && b.loc
                    == shifted(self.loc, first_index(self@, ch) + 1),
                None => !has_char(self@, ch),
            },
    {
        let v = self.chars();
        let mut i: usize = 0;
        while i < v.len()
            invariant
                v@ == self@,
                i <= v@.len(),
                self.loc.column + self@.len() + 1 <= u32::MAX,
                forall|j: int| 0 <= j < i ==> v@[j] != ch,
            decreases v.len() - i,
        {
            if v[i] == ch {
                proof {
                    lemma_first_index(v@, ch, i as int);
                    assert(v@.take(i as int) =~= v@.subrange(0, i as int));
                    assert(v@.skip(i + 1) =~= v@.subrange(i + 1, v@.len() as int));
                }
                let a = Token { s: string_from_chars(v.as_slice(), 0, i), loc: self.loc };
                let mut loc = self.loc;
                loc.column = loc.column + i as u32 + 1;
                let b = Token { s: string_from_chars(v.as_slice(), i + 1, v.len()), loc };
                return Some((a, b));
            }
            i = i + 1;
        }
        None
    }

    /// Split the token in two at the first `ch`, which stays at the end of the first part.
    /// The second part's column moves right by the position of `ch` plus the number of bytes
    /// in the UTF-8 encoding of `ch`.
    pub fn split_after(&self, ch: char) -> (r: Option<(Token, Token)>)
        requires
            self.loc.column + self@.len() + 4 <= u32::MAX,
        ensures
            match r {
                Some((a, b)) => has_char(self@, ch) && a@ == self@.take(first_index(self@, ch) + 1)
                    && a.loc == self.loc && b@ == self@.skip(first_index(self@, ch) + 1) && b.loc
                    == shifted(self.loc, first_index(self@, ch) + spec_len_utf8(ch)),
                None => !has_char(self@, ch),
            },
    {
        let v = self.chars();
        let mut i: usize = 0;
        while i < v.len()
            invariant
                v@ == self@,
                i <= v@.len(),
                self.loc.column + self@.len() + 4 <= u32::MAX,
                forall|j: int| 0 <= j < i ==> v@[j] != ch,
            decreases v.len() - i,
        {
            if v[i] == ch {
                proof {
                    lemma_first_index(v@, ch, i as int);
                    assert(v@.take(i + 1) =~= v@.subrange(0, i + 1));
                    assert(v@.skip(i + 1) =~= v@.subrange(i + 1, v@.len() as int));
                }
                let a = Token { s: string_from_chars(v.as_slice(), 0, i + 1), loc: self.loc };
                let mut loc = self.loc;
                loc.column = loc.column + i as u32 + len_utf8(ch);
                let b = Token { s: string_from_chars(v.as_slice(), i + 1, v.len()), loc };
                return Some((a, b));
            }
            i = i + 1;
        }
        None
    }

    /// Append `c` and then the text of `other` to this token.
    pub fn combine(&mut self, other: &Token, c: char)
        ensures
            final(self)@ == old(self)@.push(c) + other@,
            final(self).loc == old(self).loc,
    {
        let mut s = self.s.clone();
        string_push(&mut s, c);
        self.s = s.concat(other.s.as_str());
    }

    /// A subtoken with the whitespace removed from both ends, with the column moved right past the
    /// leading whitespace. A token of only whitespace becomes an empty token at the same loc.
    pub fn trim(&self) -> (t: Token)
        requires
            self.loc.column + self@.len() <= u32::MAX,
        ensures
            exists|n: int, e: int|
                #![trigger leading_ws(self@, n), trailing_ws_end(self@, e)]
                leading_ws(self@, n) && trailing_ws_end(self@, e) && if n == self@.len() {
                    t@ == Seq::<char>::empty() && t.loc == self.loc
                } else {
                    t@ == self@.subrange(n, e) && t.loc == shifted(self.loc, n)
                },
    {
        let v = self.chars();
        let mut i: usize = 0;
        while i < v.len() && char_is_whitespace(v[i])
            invariant
                v@ == self@,
                i <= v@.len(),
                forall|j: int| 0 <= j < i ==> unicode_whitespace(#[trigger] v@[j]),
            decreases v.len() - i,
        {
            i = i + 1;
        }
        let mut e = v.len();
        while e > i && char_is_whitespace(v[e - 1])
            invariant
                v@ == self@,
                i <= e <= v@.len(),
                forall|j: int| e <= j < v@.len() ==> unicode_whitespace(#[trigger] v@[j]),
            decreases e,
        {
            e = e - 1;
        }
        assert(leading_ws(self@, i as int));
        if i == v.len() {
            assert(trailing_ws_end(self@, 0));
            Token { s: String::new(), loc: self.loc }
        } else {
            assert(!unicode_whitespace(v@[i as int]));
            assert(i < e);
            assert(trailing_ws_end(self@, e as int));
            let mut loc = self.loc;
            loc.column = loc.column + i as u32;
            Token { s: string_from_chars(v.as_slice(), i, e), loc }
        }
    }

    /// The token with its loc linked to the macro table entry `link_idx`.
    pub fn linked(self, link_idx: Option<u32>) -> (t: Self)
        ensures
            t@ == self@,
            t.loc == (Loc { link_idx, ..self.loc }),
    {
        let mut t = self;
        t.loc.link_idx = link_idx;
        t
    }
}


/// Number of bytes of the UTF-8 encoding of `s`.
pub open spec fn utf8_len(s: Seq<char>) -> int
    decreases s.len(),
{
    if s.len() == 0 {
        0
    } else {
        utf8_len(s.drop_last()) + spec_len_utf8(s.last())
    }
}

/// The report about a number with too many decimals, if `t` has one.
pub open spec fn decimals_reports(t: &Token) -> Seq<ReportView> {
    if has_char(t@, '.') && utf8_len(t@.skip(first_index(t@, '.'))) > 6 {
        seq![
            simple_report(
                ErrorKey::Validation,
                Severity::Error,
                Confidence::Reasonable,
                "only 5 decimals are supported"@,
                Some("if you give more decimals, you get an error and the number is read as 0"@),
                t.loc,
            ),
        ]
    } else {
        Seq::empty()
    }
}

/// The report about a token that was expected to hold `what`.
pub open spec fn expected_report(t: &Token, msg: Seq<char>) -> ReportView {
    simple_report(ErrorKey::Validation, Severity::Error, Confidence::Reasonable, msg, None, t.loc)
}

/// The reports about a token that was expected to be a number.
pub open spec fn number_reports(t: &Token, precise: bool) -> Seq<ReportView> {
    (if precise {
        Seq::empty()
    } else {
        decimals_reports(t)
    }) + if spec_float_syntax(t@) {
        Seq::empty()
    } else {
        seq![expected_report(t, "expected number"@)]
    }
}

/// The reports about a token that was expected to be an integer.
pub open spec fn integer_reports(t: &Token) -> Seq<ReportView> {
    if spec_parse_i64(t@) is Some {
        Seq::empty()
    } else {
        seq![expected_report(t, "expected integer"@)]
    }
}

impl Token {
    /// Whether the token is a number as the game reads them.
    pub fn is_number(&self) -> (b: bool)
        ensures
            b == spec_float_syntax(self@),
    {
        let v = self.chars();
        is_float_syntax(&v)
    }

    /// Warn if the token has more than 5 decimals, counted in bytes from the first `.`.
    pub fn check_number(&self, errors: &mut Errors)
        ensures
            final(errors).logged(old(errors), decimals_reports(self)),
    {
        let v = self.chars();
        let mut i: usize = 0;
        while i < v.len() && v[i] != '.'
            invariant
                v@ == self@,
                i <= v@.len(),
                forall|j: int| 0 <= j < i ==> v@[j] != '.',
            decreases v.len() - i,
        {
            i = i + 1;
        }
        if i == v.len() {
            return;
        }
        proof {
            lemma_first_index(v@, '.', i as int);
        }
        let mut bytes: usize = 0;
        let mut j = i;
        while j < v.len() && bytes <= 6
            invariant
                v@ == self@,
                i <= j <= v@.len(),
                bytes == utf8_len(v@.subrange(i as int, j as int)),
            decreases v.len() - j,
        {
            proof {
                assert(v@.subrange(i as int, j + 1).drop_last() =~= v@.subrange(i as int, j as int));
            }
            bytes = bytes + len_utf8(v[j]) as usize;
            j = j + 1;
        }
        proof {
            lemma_utf8_len_monotone(v@.skip(i as int), j - i);
            assert(v@.skip(i as int).take(j - i) =~= v@.subrange(i as int, j as int));
            if j == v.len() {
                assert(v@.skip(i as int) =~= v@.subrange(i as int, j as int));
            }
        }
        if bytes > 6 {
            err(ErrorKey::Validation).msg("only 5 decimals are supported").info(
                "if you give more decimals, you get an error and the number is read as 0",
            ).loc(self).push(errors);
            proof {
                reveal_strlit("if you give more decimals, you get an error and the number is read as 0");
            }
        }
    }

    /// Check that the token is a number with up to 5 decimals, and report otherwise.
    /// Returns whether it is a number.
    pub fn expect_number(&self, errors: &mut Errors) -> (b: bool)
        ensures
            b == spec_float_syntax(self@),
            final(errors).logged(old(errors), number_reports(self, false)),
    {
        self.check_number(errors);
        let ghost mid = *errors;
        let b = self.is_number();
        if !b {
            err(ErrorKey::Validation).msg("expected number").loc(self).push(errors);
        }
        proof {
            if b {
                assert(errors.logged(&mid, Seq::<ReportView>::empty()));
            }
            lemma_logged_trans(old(errors), &mid, errors, decimals_reports(self), if b { Seq::empty() } else { seq![expected_report(self, "expected number"@)] });
        }
        b
    }

    /// Check that the token is a number with any number of decimals, and report otherwise.
    /// Returns whether it is a number.
    pub fn expect_precise_number(&self, errors: &mut Errors) -> (b: bool)
        ensures
            b == spec_float_syntax(self@),
            final(errors).logged(old(errors), number_reports(self, true)),
    {
        let b = self.is_number();
        if !b {
            err(ErrorKey::Validation).msg("expected number").loc(self).push(errors);
        }
        proof {
            assert(Seq::<ReportView>::empty() + seq![expected_report(self, "expected number"@)] =~= seq![expected_report(self, "expected number"@)]);
            assert(Seq::<ReportView>::empty() + Seq::<ReportView>::empty() =~= Seq::<ReportView>::empty());
        }
        b
    }

    /// The token's value as an integer, reporting if it is not one.
    pub fn expect_integer(&self, errors: &mut Errors) -> (r: Option<i64>)
        ensures
            match r {
                Some(n) => spec_parse_i64(self@) == Some(n as int),
                None => spec_parse_i64(self@) is None,
            },
            final(errors).logged(old(errors), integer_reports(self)),
    {
        let r = self.get_integer();
        if r.is_none() {
            err(ErrorKey::Validation).msg("expected integer").loc(self).push(errors);
        }
        r
    }

    /// The token's value as an integer, if it is one.
    pub fn get_integer(&self) -> (r: Option<i64>)
        ensures
            match r {
                Some(n) => spec_parse_i64(self@) == Some(n as int),
                None => spec_parse_i64(self@) is None,
            },
    {
        let v = self.chars();
        parse_i64(&v)
    }

    /// Whether the token is an integer.
    pub fn is_integer(&self) -> (b: bool)
        ensures
            b == spec_parse_i64(self@) is Some,
    {
        self.get_integer().is_some()
    }
}

proof fn lemma_utf8_len_monotone(s: Seq<char>, k: int)
    requires
        0 <= k <= s.len(),
    ensures
        utf8_len(s.take(k)) <= utf8_len(s),
        utf8_len(s.take(k)) >= 0,
    decreases s.len() - k,
{
    if k < s.len() {
        lemma_utf8_len_monotone(s, k + 1);
        assert(s.take(k + 1).drop_last() =~= s.take(k));
    } else {
        assert(s.take(k) =~= s);
    }
    lemma_utf8_len_nonneg(s.take(k));
}

proof fn lemma_utf8_len_nonneg(s: Seq<char>)
    ensures
        utf8_len(s) >= 0,
    decreases s.len(),
{
    if s.len() > 0 {
        lemma_utf8_len_nonneg(s.drop_last());
    }
}

/// The pieces of `s` cut at every `ch`, as [`Token::split`] returns them.
pub open spec fn split_pieces(s: Seq<char>, ch: char) -> Seq<Seq<char>> {
    Seq::new(
        split_starts(s, ch).len(),
        |k: int| s.subrange(split_starts(s, ch)[k], split_end(s, ch, k)),
    )
}

proof fn lemma_join_extend_last(ps: Seq<Seq<char>>, sep: Seq<char>, c: char)
    requires
        ps.len() >= 1,
    ensures
        spec_join(ps.update(ps.len() - 1, ps.last().push(c)), sep) == spec_join(ps, sep).push(c),
{
    let qs = ps.update(ps.len() - 1, ps.last().push(c));
    if ps.len() == 1 {
        assert(qs[0] == ps[0].push(c));
    } else {
        assert(qs.drop_last() =~= ps.drop_last());
        assert(qs.last() == ps.last().push(c));
        assert(spec_join(qs, sep) =~= spec_join(ps, sep).push(c));
    }
}

#[verifier::spinoff_prover]
#[verifier::rlimit(30)]
proof fn lemma_rejoin_at_delimiter(s: Seq<char>, ch: char)
    requires
        s.len() > 0,
        s.last() == ch,
        spec_join(split_pieces(s.drop_last(), ch), seq![ch]) == s.drop_last(),
    ensures
        spec_join(split_pieces(s, ch), seq![ch]) == s,
{
    let t = s.drop_last();
    lemma_split_starts_props(t, ch);
    let st = split_starts(s, ch);
    let tt = split_starts(t, ch);
    let p = split_pieces(s, ch);
    let q = split_pieces(t, ch);
    let n = tt.len();
    assert(st == tt.push(s.len() as int));
    assert(p.len() == n + 1);
    assert forall|k: int| 0 <= k < n implies #[trigger] p[k] == q[k] by {
        if k + 1 < n {
            assert(split_end(s, ch, k) == tt[k + 1] - 1);
            assert(split_end(t, ch, k) == tt[k + 1] - 1);
        } else {
            assert(split_end(s, ch, k) == s.len() - 1);
            assert(split_end(t, ch, k) == t.len());
        }
        assert(p[k] =~= q[k]);
    }
    assert(p.drop_last() =~= q);
    assert(p.last() =~= Seq::<char>::empty());
    assert(spec_join(p, seq![ch]) == spec_join(q, seq![ch]) + seq![ch] + p.last());
    assert(spec_join(p, seq![ch]) =~= s);
}

proof fn lemma_rejoin_other(s: Seq<char>, ch: char)
    requires
        s.len() > 0,
        s.last() != ch,
        spec_join(split_pieces(s.drop_last(), ch), seq![ch]) == s.drop_last(),
    ensures
        spec_join(split_pieces(s, ch), seq![ch]) == s,
{
    let t = s.drop_last();
    lemma_split_starts_props(t, ch);
    let st = split_starts(s, ch);
    let tt = split_starts(t, ch);
    let p = split_pieces(s, ch);
    let q = split_pieces(t, ch);
    let n = tt.len();
    assert(st == tt);
    assert(p.len() == n);
    let r = q.update(n - 1, q.last().push(s.last()));
    assert forall|k: int| 0 <= k < n implies #[trigger] p[k] == r[k] by {
        if k + 1 < n {
            assert(split_end(s, ch, k) == tt[k + 1] - 1);
            assert(split_end(t, ch, k) == tt[k + 1] - 1);
            assert(p[k] =~= q[k]);
        } else {
            assert(split_end(s, ch, k) == s.len());
            assert(split_end(t, ch, k) == t.len());
            assert(p[k] =~= q[k].push(s.last()));
        }
    }
    assert(p =~= r);
    lemma_join_extend_last(q, seq![ch], s.last());
    assert(spec_join(p, seq![ch]) =~= s);
}

/// Joining the pieces of a split with the delimiter between each two gives back the text.
pub proof fn law_split_rejoins(s: Seq<char>, ch: char)
    ensures
        spec_join(split_pieces(s, ch), seq![ch]) == s,
    decreases s.len(),
{
    if s.len() == 0 {
        assert(split_pieces(s, ch).len() == 1);
        assert(split_pieces(s, ch)[0] =~= s);
    } else {
        law_split_rejoins(s.drop_last(), ch);
        if s.last() == ch {
            lemma_rejoin_at_delimiter(s, ch);
        } else {
            lemma_rejoin_other(s, ch);
        }
    }
}

} // verus!
