//! Comments of the form `tiger-ignore(...)`, which ask for reports to be left out.
//!
//! The grammar, with whitespace allowed between the tokens:
//!
//! ```text
//! comment = "tiger-ignore" ( "(" args ")" anything | whitespace anything | end )
//! args    = ( arg "," )* arg? 
//! arg     = "block" | "file" | "begin" | "end" | "key" "=" error-key | "text" "=" '"' chars '"'
//! ```
//!
//! Later arguments override earlier ones.
use vstd::prelude::*;

use crate::report::error_key::ErrorKey;
use crate::text::{
    char_is_whitespace, chars_of, occurs_at, spec_ascii_alphanumeric, spec_contains,
    str_contains, string_from_chars, unicode_whitespace, vec_starts_with_at,
};

verus! {

/// How much of the file a comment covers.
#[derive(Clone, Copy, Debug, PartialEq, Eq, Structural)]
pub enum IgnoreSize {
    /// The next line.
    Line,
    /// The next block.
    Block,
    /// The whole file.
    File,
    /// Everything up to the matching `End`.
    Begin,
    /// The end of a `Begin`.
    End,
}

/// Which reports a comment covers.
#[derive(Clone, Debug)]
pub struct IgnoreFilter {
    /// Only reports with this key, if given.
    pub key: Option<ErrorKey>,
    /// Only reports whose message contains this text, if given.
    pub text: Option<String>,
}

/// What a `tiger-ignore` comment asks for.
#[derive(Clone, Debug)]
pub struct IgnoreSpec {
    pub size: IgnoreSize,
    pub filter: IgnoreFilter,
}

/// A comment's request, with the key given by its name.
pub struct IgnoreView {
    pub size: IgnoreSize,
    pub key: Option<Seq<char>>,
    pub text: Option<Seq<char>>,
}

impl View for IgnoreSpec {
    type V = IgnoreView;

    open spec fn view(&self) -> IgnoreView {
        IgnoreView {
            size: self.size,
            key: match self.filter.key {
                Some(k) => Some(k.spec_name()),
                None => None,
            },
            text: match self.filter.text {
                Some(t) => Some(t@),
                None => None,
            },
        }
    }
}

/// One argument of a comment.
pub enum ArgView {
    Size(IgnoreSize),
    Key(Seq<char>),
    Text(Seq<char>),
}

/// A bare `tiger-ignore`: the next line, every report.
pub open spec fn default_view() -> IgnoreView {
    IgnoreView { size: IgnoreSize::Line, key: None, text: None }
}

/// The first position at or after `i` that does not hold whitespace.
pub open spec fn skip_ws(s: Seq<char>, i: int) -> int
    decreases s.len() - i,
{
    if 0 <= i < s.len() && unicode_whitespace(s[i]) {
        skip_ws(s, i + 1)
    } else {
        i
    }
}

/// The chars that words of the grammar are made of.
pub open spec fn is_word_char(c: char) -> bool {
    spec_ascii_alphanumeric(c) || c == '-' || c == '_'
}

/// The end of the word that starts at `i`.
pub open spec fn word_end(s: Seq<char>, i: int) -> int
    decreases s.len() - i,
{
    if 0 <= i < s.len() && is_word_char(s[i]) {
        word_end(s, i + 1)
    } else {
        i
    }
}

/// The first `"` at or after `i`, or the end of `s`.
pub open spec fn quote_end(s: Seq<char>, i: int) -> int
    decreases s.len() - i,
{
    if 0 <= i < s.len() && s[i] != '"' {
        quote_end(s, i + 1)
    } else {
        i
    }
}

/// The size that a word names.
pub open spec fn size_word(w: Seq<char>) -> Option<IgnoreSize> {
    if w == "block"@ {
        Some(IgnoreSize::Block)
    } else if w == "file"@ {
        Some(IgnoreSize::File)
    } else if w == "begin"@ {
        Some(IgnoreSize::Begin)
    } else if w == "end"@ {
        Some(IgnoreSize::End)
    } else {
        None
    }
}

/// Whether some error key has the name `w`.
pub open spec fn is_key_name(w: Seq<char>) -> bool {
    exists|k: ErrorKey| k.spec_name() == w
}

/// The argument that starts at `k`, and where it ends.
pub open spec fn spec_parse_arg(s: Seq<char>, k: int) -> Option<(ArgView, int)> {
    let we = word_end(s, k);
    let w = s.subrange(k, we);
    match size_word(w) {
        Some(sz) => Some((ArgView::Size(sz), we)),
        None => {
            let m = skip_ws(s, we);
            let n = skip_ws(s, m + 1);
            if !(m < s.len() && s[m] == '=') {
                None
            } else if w == "key"@ {
                let e = word_end(s, n);
                if is_key_name(s.subrange(n, e)) {
                    Some((ArgView::Key(s.subrange(n, e)), e))
                } else {
                    None
                }
            } else if w == "text"@ {
                if n < s.len() && s[n] == '"' {
                    let q = quote_end(s, n + 1);
                    if q < s.len() {
                        Some((ArgView::Text(s.subrange(n + 1, q)), q + 1))
                    } else {
                        None
                    }
                } else {
                    None
                }
            } else {
                None
            }
        },
    }
}

/// The request after one more argument.
pub open spec fn merge_arg(acc: IgnoreView, a: ArgView) -> IgnoreView {
    match a {
        ArgView::Size(sz) => IgnoreView { size: sz, ..acc },
        ArgView::Key(k) => IgnoreView { key: Some(k), ..acc },
        ArgView::Text(t) => IgnoreView { text: Some(t), ..acc },
    }
}

/// The request after the arguments from `i` up to the closing `)`, starting from `acc`.
pub open spec fn spec_parse_args(s: Seq<char>, i: int, acc: IgnoreView) -> Option<IgnoreView>
    decreases s.len() - i,
{
    let k = skip_ws(s, i);
    if !(i <= k < s.len()) {
        None
    } else if s[k] == ')' {
        Some(acc)
    } else {
        match spec_parse_arg(s, k) {
            Some((a, e)) => {
                let m = skip_ws(s, e);
                if !(i <= m < s.len()) {
                    None
                } else if s[m] == ',' {
                    spec_parse_args(s, m + 1, merge_arg(acc, a))
                } else if s[m] == ')' {
                    Some(merge_arg(acc, a))
                } else {
                    None
                }
            },
            None => None,
        }
    }
}

/// What the comment `s` asks for, if it is a `tiger-ignore` comment.
pub open spec fn spec_parse_comment(s: Seq<char>) -> Option<IgnoreView> {
    let i = skip_ws(s, 0);
    let j = i + 12;
    if !(j <= s.len() && s.subrange(i, j) == "tiger-ignore"@) {
        None
    } else {
        let k = skip_ws(s, j);
        if k < s.len() && s[k] == '(' {
            spec_parse_args(s, k + 1, default_view())
        } else if j == s.len() || unicode_whitespace(s[j]) {
            Some(default_view())
        } else {
            None
        }
    }
}

proof fn lemma_skip_ws(s: Seq<char>, i: int)
    requires
        0 <= i <= s.len(),
    ensures
        i <= skip_ws(s, i) <= s.len(),
    decreases s.len() - i,
{
    if i < s.len() && unicode_whitespace(s[i]) {
        lemma_skip_ws(s, i + 1);
    }
}

proof fn lemma_word_end(s: Seq<char>, i: int)
    requires
        0 <= i <= s.len(),
    ensures
        i <= word_end(s, i) <= s.len(),
    decreases s.len() - i,
{
    if i < s.len() && is_word_char(s[i]) {
        lemma_word_end(s, i + 1);
    }
}

proof fn lemma_quote_end(s: Seq<char>, i: int)
    requires
        0 <= i <= s.len(),
    ensures
        i <= quote_end(s, i) <= s.len(),
    decreases s.len() - i,
{
    if i < s.len() && s[i] != '"' {
        lemma_quote_end(s, i + 1);
    }
}

/// The first position at or after `i` that does not hold whitespace.
fn skip_ws_from(v: &Vec<char>, i: usize) -> (r: usize)
    requires
        i <= v@.len(),
    ensures
        r == skip_ws(v@, i as int),
        i <= r <= v@.len(),
{
    let mut j = i;
    while j < v.len() && char_is_whitespace(v[j])
        invariant
            i <= j <= v@.len(),
            skip_ws(v@, i as int) == skip_ws(v@, j as int),
        decreases v.len() - j,
    {
        j = j + 1;
    }
    j
}

/// The end of the word that starts at `i`.
fn word_end_from(v: &Vec<char>, i: usize) -> (r: usize)
    requires
        i <= v@.len(),
    ensures
        r == word_end(v@, i as int),
        i <= r <= v@.len(),
{
    let mut j = i;
    while j < v.len() && (('a' <= v[j] && v[j] <= 'z') || ('A' <= v[j] && v[j] <= 'Z') || ('0' <= v[j] && v[j] <= '9') || v[j] == '-' || v[j] == '_')
        invariant
            i <= j <= v@.len(),
            word_end(v@, i as int) == word_end(v@, j as int),
        decreases v.len() - j,
    {
        j = j + 1;
    }
    j
}

/// The first `"` at or after `i`, or the end.
fn quote_end_from(v: &Vec<char>, i: usize) -> (r: usize)
    requires
        i <= v@.len(),
    ensures
        r == quote_end(v@, i as int),
        i <= r <= v@.len(),
{
    let mut j = i;
    while j < v.len() && v[j] != '"'
        invariant
            i <= j <= v@.len(),
            quote_end(v@, i as int) == quote_end(v@, j as int),
        decreases v.len() - j,
    {
        j = j + 1;
    }
    j
}

/// Whether the chars of `v` from `i` up to `j` are `lit`.
fn span_is(v: &Vec<char>, i: usize, j: usize, lit: &str) -> (b: bool)
    requires
        i <= j <= v@.len(),
    ensures
        b == (v@.subrange(i as int, j as int) == lit@),
{
    let p = chars_of(lit);
    if p.len() != j - i {
        return false;
    }
    let r = vec_starts_with_at(v, &p, i);
    assert(r == (v@.subrange(i as int, j as int) =~= p@));
    r
}

/// One argument of a comment.
enum Arg {
    Size(IgnoreSize),
    Key(ErrorKey),
    Text(String),
}

/// The view of an argument.
spec fn arg_view(a: Arg) -> ArgView {
    match a {
        Arg::Size(sz) => ArgView::Size(sz),
        Arg::Key(k) => ArgView::Key(k.spec_name()),
        Arg::Text(t) => ArgView::Text(t@),
    }
}

/// The argument that starts at `k`, and where it ends.
fn parse_arg(v: &Vec<char>, k: usize) -> (r: Option<(Arg, usize)>)
    requires
        k <= v@.len(),
    ensures
        match r {
            Some((a, e)) => spec_parse_arg(v@, k as int) == Some((arg_view(a), e as int)) && k <= e
                <= v@.len(),
            None => spec_parse_arg(v@, k as int) is None,
        },
{
    let we = word_end_from(v, k);
    if span_is(v, k, we, "block") {
        return Some((Arg::Size(IgnoreSize::Block), we));
    }
    if span_is(v, k, we, "file") {
        return Some((Arg::Size(IgnoreSize::File), we));
    }
    if span_is(v, k, we, "begin") {
        return Some((Arg::Size(IgnoreSize::Begin), we));
    }
    if span_is(v, k, we, "end") {
        return Some((Arg::Size(IgnoreSize::End), we));
    }
    let m = skip_ws_from(v, we);
    if !(m < v.len() && v[m] == '=') {
        return None;
    }
    let n = skip_ws_from(v, m + 1);
    if span_is(v, k, we, "key") {
        let e = word_end_from(v, n);
        let name = string_from_chars(v.as_slice(), n, e);
        match ErrorKey::from_name(name.as_str()) {
            Some(key) => Some((Arg::Key(key), e)),
            None => None,
        }
    } else if span_is(v, k, we, "text") {
        if n < v.len() && v[n] == '"' {
            let q = quote_end_from(v, n + 1);
            if q < v.len() {
                let t = string_from_chars(v.as_slice(), n + 1, q);
                Some((Arg::Text(t), q + 1))
            } else {
                None
            }
        } else {
            None
        }
    } else {
        None
    }
}

/// Parse a comment, and return what it asks for if it is a `tiger-ignore` comment.
pub fn parse_comment(comment: &str) -> (r: Option<IgnoreSpec>)
    ensures
        match r {
            Some(spec) => spec_parse_comment(comment@) == Some(spec@),
            None => spec_parse_comment(comment@) is None,
        },
{
    let v = chars_of(comment);
    let i = skip_ws_from(&v, 0);
    if !(v.len() - i >= 12 && span_is(&v, i, i + 12, "tiger-ignore")) {
        return None;
    }
    let j = i + 12;
    let k = skip_ws_from(&v, j);
    let mut acc = IgnoreSpec { size: IgnoreSize::Line, filter: IgnoreFilter { key: None, text: None } };
    if !(k < v.len() && v[k] == '(') {
        if j == v.len() || char_is_whitespace(v[j]) {
            return Some(acc);
        } else {
            return None;
        }
    }
    let mut p = k + 1;
    loop
        invariant
            j <= k < p <= v@.len(),
            spec_parse_comment(comment@) == spec_parse_args(v@, p as int, acc@),
            v@ == comment@,
        decreases v.len() - p,
    {
        let q = skip_ws_from(&v, p);
        if q >= v.len() {
            return None;
        }
        if v[q] == ')' {
            return Some(acc);
        }
        match parse_arg(&v, q) {
            Some((a, e)) => {
                proof {
                    lemma_word_end(v@, q as int);
                }
                let m = skip_ws_from(&v, e);
                if m >= v.len() {
                    return None;
                }
                let ghost acc0 = acc@;
                let ghost av = arg_view(a);
                match a {
                    Arg::Size(sz) => {
                        acc.size = sz;
                    },
                    Arg::Key(key) => {
                        acc.filter.key = Some(key);
                    },
                    Arg::Text(t) => {
                        acc.filter.text = Some(t);
                    },
                }
                assert(acc@ == merge_arg(acc0, av));
                if v[m] == ',' {
                    p = m + 1;
                } else if v[m] == ')' {
                    return Some(acc);
                } else {
                    return None;
                }
            },
            None => {
                return None;
            },
        }
    }
}

impl IgnoreFilter {
    /// Whether a report with key `other_key` and message `other_text` is covered.
    pub fn matches(&self, other_key: ErrorKey, other_text: &str) -> (b: bool)
        ensures
            b == ((self.key is None || self.key == Some(other_key)) && match self.text {
                Some(t) => spec_contains(other_text@, t@),
                None => true,
            }),
    {
        if let Some(key) = self.key {
            if key != other_key {
                return false;
            }
        }
        if let Some(text) = &self.text {
            if !str_contains(other_text, text.as_str()) {
                return false;
            }
        }
        true
    }
}

} // verus!
