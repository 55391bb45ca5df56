//! Reading suppressions from the text output of an earlier run: each report is its title line,
//! the file and source lines of its pointers, an optional info line and a blank line. Terminal
//! color codes in the output are skipped.
use vstd::prelude::*;

use crate::number::spec_parse_int;
use crate::report::error_key::ErrorKey;
use crate::report::report_struct::Severity;
use crate::report::suppress::{LocationView, SuppressedView, SuppressionLocation, SuppressionReport};
use crate::text::{spec_ascii_alphabetic, spec_ascii_digit};

verus! {

/// The position after `t`, if `t` is at `i` in `s`.
pub open spec fn lit(s: Seq<char>, i: int, t: Seq<char>) -> Option<int> {
    if 0 <= i && i + t.len() <= s.len() && s.subrange(i, i + t.len()) == t {
        Some(i + t.len())
    } else {
        None
    }
}

/// Where the chars from `i` on that `p` holds of end.
pub open spec fn scan_while(s: Seq<char>, i: int, p: spec_fn(char) -> bool) -> int
    decreases s.len() - i,
{
    if 0 <= i < s.len() && p(s[i]) {
        scan_while(s, i + 1, p)
    } else {
        i
    }
}

/// At least one char that `p` holds of, from `i`.
pub open spec fn take_while1(s: Seq<char>, i: int, p: spec_fn(char) -> bool) -> Option<int> {
    let j = scan_while(s, i, p);
    if j > i {
        Some(j)
    } else {
        None
    }
}

/// The kinds of runs of chars in the output.
#[derive(Clone, Copy, Debug, PartialEq, Eq, Structural)]
pub enum Class {
    Digit,
    /// Spaces and tabs.
    Space,
    Alpha,
    /// Lowercase letters and `-`, as in error keys.
    KeyChar,
    /// Anything but a terminal escape or a line end.
    LineChar,
    /// Anything but `]`.
    NotBracket,
    Caret,
}

/// The chars of a class.
pub open spec fn class(k: Class) -> spec_fn(char) -> bool {
    match k {
        Class::Digit => |c: char| spec_ascii_digit(c),
        Class::Space => |c: char| c == ' ' || c == '\t',
        Class::Alpha => |c: char| spec_ascii_alphabetic(c),
        Class::KeyChar => |c: char| ('a' <= c && c <= 'z') || c == '-',
        Class::LineChar => |c: char| c != '\x1b' && c != '\r' && c != '\n',
        Class::NotBracket => |c: char| c != ']',
        Class::Caret => |c: char| c == '^',
    }
}

/// A terminal color code: ESC `[`, digits, optionally `;` and digits, then `m`.
pub open spec fn colorcode(s: Seq<char>, i: int) -> Option<int> {
    match lit(s, i, "\x1b["@) {
        Some(a) => match take_while1(s, a, class(Class::Digit)) {
            Some(b) => {
                let c = match lit(s, b, ";"@) {
                    Some(b1) => match take_while1(s, b1, class(Class::Digit)) {
                        Some(b2) => b2,
                        None => b,
                    },
                    None => b,
                };
                lit(s, c, "m"@)
            },
            None => None,
        },
        None => None,
    }
}

/// An optional color code.
pub open spec fn opt_colorcode(s: Seq<char>, i: int) -> int {
    match colorcode(s, i) {
        Some(j) => j,
        None => i,
    }
}

/// Skipping spaces, tabs and color codes.
pub open spec fn ws(s: Seq<char>, i: int) -> int
    decreases s.len() - i,
{
    match colorcode(s, i) {
        Some(j) => if i < j <= s.len() {
            ws(s, j)
        } else {
            i
        },
        None => match take_while1(s, i, class(Class::Space)) {
            Some(j) => if i < j <= s.len() {
                ws(s, j)
            } else {
                i
            },
            None => i,
        },
    }
}

/// A line end: `\n` or `\r\n`.
pub open spec fn line_ending(s: Seq<char>, i: int) -> Option<int> {
    match lit(s, i, "\n"@) {
        Some(j) => Some(j),
        None => lit(s, i, "\r\n"@),
    }
}

/// The rest of a line: at least one char, then maybe a color code, then a line end.
pub open spec fn restofline(s: Seq<char>, i: int) -> Option<(Seq<char>, int)> {
    match take_while1(s, i, class(Class::LineChar)) {
        Some(j) => match line_ending(s, opt_colorcode(s, j)) {
            Some(e) => Some((s.subrange(i, j), e)),
            None => None,
        },
        None => None,
    }
}

/// The severity named `t`.
pub open spec fn severity_named(t: Seq<char>) -> Option<Severity> {
    if t == "tips"@ {
        Some(Severity::Tips)
    } else if t == "untidy"@ {
        Some(Severity::Untidy)
    } else if t == "warning"@ {
        Some(Severity::Warning)
    } else if t == "error"@ {
        Some(Severity::Error)
    } else if t == "fatal"@ {
        Some(Severity::Fatal)
    } else {
        None
    }
}

/// The title line: severity, `(key)`, `:` and the message.
pub open spec fn top_line(s: Seq<char>, i: int) -> Option<(Severity, ErrorKey, Seq<char>, int)> {
    let a = ws(s, i);
    match take_while1(s, a, class(Class::Alpha)) {
        Some(b) => match severity_named(s.subrange(a, b)) {
            Some(sev) => match lit(s, b, "("@) {
                Some(c) => match take_while1(s, c, class(Class::KeyChar)) {
                    Some(d) => match ErrorKey::spec_from_name(s.subrange(c, d)) {
                        Some(key) => match lit(s, d, ")"@) {
                            Some(e) => match lit(s, opt_colorcode(s, e), ":"@) {
                                Some(f) => match restofline(s, ws(s, f)) {
                                    Some((msg, h)) => Some((sev, key, msg, h)),
                                    None => None,
                                },
                                None => None,
                            },
                            None => None,
                        },
                        None => None,
                    },
                    None => None,
                },
                None => None,
            },
            None => None,
        },
        None => None,
    }
}

/// The file line of a pointer: `-->`, the file kind in brackets, and the path.
pub open spec fn file_loc_line(s: Seq<char>, i: int) -> Option<(Seq<char>, int)> {
    match lit(s, ws(s, i), "-->"@) {
        Some(b) => {
            let d = ws(s, ws(s, b));
            match lit(s, d, "["@) {
                Some(d1) => match take_while1(s, d1, class(Class::NotBracket)) {
                    Some(d2) => match lit(s, d2, "]"@) {
                        Some(e) => restofline(s, ws(s, e)),
                        None => None,
                    },
                    None => None,
                },
                None => None,
            }
        },
        None => None,
    }
}

/// The source line of a pointer: its number, `|` and the line.
pub open spec fn line_contents_line(s: Seq<char>, i: int) -> Option<(Seq<char>, int)> {
    let a = ws(s, i);
    match take_while1(s, a, class(Class::Digit)) {
        Some(b) => if spec_parse_int(s.subrange(a, b), 0, 0xFFFF_FFFF) is Some {
            match lit(s, ws(s, b), "|"@) {
                Some(d) => restofline(s, ws(s, d)),
                None => None,
            }
        } else {
            None
        },
        None => None,
    }
}

/// The start of a caret line: `|` and the carets.
pub open spec fn caret_line_start(s: Seq<char>, i: int) -> Option<int> {
    match lit(s, ws(s, i), "|"@) {
        Some(b) => match take_while1(s, ws(s, b), class(Class::Caret)) {
            Some(d) => Some(ws(s, d)),
            None => None,
        },
        None => None,
    }
}

/// A caret line, with the pointer's message after `<--` if it has one.
pub open spec fn caret_tag_line(s: Seq<char>, i: int) -> Option<(Option<Seq<char>>, int)> {
    match caret_line_start(s, i) {
        Some(a) => {
            let tagged = match lit(s, a, "<--"@) {
                Some(b) => restofline(s, ws(s, b)),
                None => None,
            };
            match tagged {
                Some((t, e)) => Some((Some(t), e)),
                None => match line_ending(s, a) {
                    Some(e) => Some((None, e)),
                    None => None,
                },
            }
        },
        None => None,
    }
}

/// The info line.
pub open spec fn info_line(s: Seq<char>, i: int) -> Option<int> {
    match lit(s, ws(s, i), "="@) {
        Some(b) => match lit(s, ws(s, b), "Info:"@) {
            Some(d) => match restofline(s, ws(s, d)) {
                Some((_, e)) => Some(e),
                None => None,
            },
            None => None,
        },
        None => None,
    }
}

/// Where a report pointed: its file, and its source line and message if both lines follow.
pub open spec fn suppression_location(s: Seq<char>, i: int) -> Option<(LocationView, int)> {
    match file_loc_line(s, i) {
        Some((path, a)) => {
            let with_line = match line_contents_line(s, a) {
                Some((line, b)) => match caret_tag_line(s, b) {
                    Some((tag, c)) => Some((LocationView { path, line: Some(line), tag }, c)),
                    None => None,
                },
                None => None,
            };
            match with_line {
                Some(r) => Some(r),
                None => Some((LocationView { path, line: None, tag: None }, a)),
            }
        },
        None => None,
    }
}

/// As many locations as follow, from `i`.
pub open spec fn locations(s: Seq<char>, i: int) -> (Seq<LocationView>, int)
    decreases s.len() - i,
{
    match suppression_location(s, i) {
        Some((l, j)) => if i < j <= s.len() {
            let (rest, k) = locations(s, j);
            (seq![l] + rest, k)
        } else {
            (seq![l], j)
        },
        None => (Seq::empty(), i),
    }
}

/// A whole report: the title line, at least one location, maybe an info line, and a blank line.
pub open spec fn report(s: Seq<char>, i: int) -> Option<(SuppressedView, int)> {
    match top_line(s, i) {
        Some((_, key, message, a)) => {
            let (locs, b) = locations(s, a);
            if locs.len() == 0 {
                None
            } else {
                let c = match info_line(s, b) {
                    Some(c) => c,
                    None => b,
                };
                match line_ending(s, c) {
                    Some(e) => Some((SuppressedView { key, message, locations: locs }, e)),
                    None => None,
                }
            }
        },
        None => None,
    }
}

/// As many reports as follow, from `i`.
pub open spec fn reports(s: Seq<char>, i: int) -> (Seq<SuppressedView>, int)
    decreases s.len() - i,
{
    match report(s, i) {
        Some((r, j)) => if i < j <= s.len() {
            let (rest, k) = reports(s, j);
            (seq![r] + rest, k)
        } else {
            (seq![r], j)
        },
        None => (Seq::empty(), i),
    }
}

/// The reports in the output `s`, if the whole of it is reports.
pub open spec fn spec_parse_suppressions(s: Seq<char>) -> Option<Seq<SuppressedView>> {
    let (rs, k) = reports(s, 0);
    if k == s.len() {
        Some(rs)
    } else {
        None
    }
}

/// The contents of locations.
pub open spec fn locs_view(v: Seq<SuppressionLocation>) -> Seq<LocationView> {
    v.map_values(|l: SuppressionLocation| l@)
}

/// The contents of reports.
pub open spec fn reps_view(v: Seq<SuppressionReport>) -> Seq<SuppressedView> {
    v.map_values(|x: SuppressionReport| x@)
}

proof fn lemma_locs_push(v: Seq<SuppressionLocation>, l: SuppressionLocation)
    ensures
        locs_view(v.push(l)) == locs_view(v).push(l@),
{
    assert(locs_view(v.push(l)) =~= locs_view(v).push(l@));
}

proof fn lemma_reps_push(v: Seq<SuppressionReport>, r: SuppressionReport)
    ensures
        reps_view(v.push(r)) == reps_view(v).push(r@),
{
    assert(reps_view(v.push(r)) =~= reps_view(v).push(r@));
}

/// Where a location is found, the locations from there are it and the ones after it.
proof fn lemma_locations_step(s: Seq<char>, i: int)
    requires
        suppression_location(s, i) matches Some((l, j)) && i < j <= s.len(),
    ensures
        ({
            let (l, j) = suppression_location(s, i)->0;
            &&& locations(s, i).0 == seq![l] + locations(s, j).0
            &&& locations(s, i).1 == locations(s, j).1
            &&& forall|pre: Seq<LocationView>| #![auto] pre.push(l) + locations(s, j).0 == pre + locations(s, i).0
        }),
{
    let (l, j) = suppression_location(s, i)->0;
    assert forall|pre: Seq<LocationView>| #![auto] pre.push(l) + locations(s, j).0 == pre + locations(s, i).0 by {
        assert(pre.push(l) + locations(s, j).0 =~= pre + (seq![l] + locations(s, j).0));
    }
}

/// Where a report is found, the reports from there are it and the ones after it.
#[verifier::spinoff_prover]
proof fn lemma_reports_step(s: Seq<char>, i: int, r: SuppressedView, j: int)
    requires
        report(s, i) == Some((r, j)),
        i < j <= s.len(),
    ensures
        reports(s, i).1 == reports(s, j).1,
        forall|pre: Seq<SuppressedView>| #![auto] pre.push(r) + reports(s, j).0 == pre + reports(s, i).0,
{
    let rest = reports(s, j);
    assert(reports(s, i) == (seq![r] + rest.0, rest.1));
    assert forall|pre: Seq<SuppressedView>| #![auto] pre.push(r) + reports(s, j).0 == pre + reports(s, i).0 by {
        assert(pre.push(r) + rest.0 =~= pre + (seq![r] + rest.0));
    }
}

fn in_class(k: Class, c: char) -> (b: bool)
    ensures
        b == class(k)(c),
{
    match k {
        Class::Digit => crate::text::is_ascii_digit(c),
        Class::Space => c == ' ' || c == '\t',
        Class::Alpha => crate::text::is_ascii_alphabetic(c),
        Class::KeyChar => ('a' <= c && c <= 'z') || c == '-',
        Class::LineChar => c != '\x1b' && c != '\r' && c != '\n',
        Class::NotBracket => c != ']',
        Class::Caret => c == '^',
    }
}

fn scan_class(s: &Vec<char>, i: usize, k: Class) -> (j: usize)
    requires
        i <= s@.len(),
    ensures
        j == scan_while(s@, i as int, class(k)),
        i <= j <= s@.len(),
{
    let mut j = i;
    while j < s.len() && in_class(k, s[j])
        invariant
            i <= j <= s@.len(),
            scan_while(s@, j as int, class(k)) == scan_while(s@, i as int, class(k)),
        decreases s.len() - j,
    {
        j = j + 1;
    }
    j
}

fn take1(s: &Vec<char>, i: usize, k: Class) -> (r: Option<usize>)
    requires
        i <= s@.len(),
    ensures
        match r {
            Some(j) => take_while1(s@, i as int, class(k)) == Some(j as int) && i < j <= s@.len(),
            None => take_while1(s@, i as int, class(k)) is None,
        },
{
    let j = scan_class(s, i, k);
    if j > i {
        Some(j)
    } else {
        None
    }
}

fn lit_at(s: &Vec<char>, i: usize, t: &str) -> (r: Option<usize>)
    requires
        i <= s@.len(),
    ensures
        match r {
            Some(j) => lit(s@, i as int, t@) == Some(j as int) && i <= j <= s@.len(),
            None => lit(s@, i as int, t@) is None,
        },
{
    let tv = crate::text::chars_of(t);
    if crate::text::vec_starts_with_at(s, &tv, i) {
        let n = tv.len();
        if n <= s.len() - i {
            Some(i + n)
        } else {
            None
        }
    } else {
        None
    }
}

fn colorcode_at(s: &Vec<char>, i: usize) -> (r: Option<usize>)
    requires
        i <= s@.len(),
    ensures
        match r {
            Some(j) => colorcode(s@, i as int) == Some(j as int) && i < j <= s@.len(),
            None => colorcode(s@, i as int) is None,
        },
{
    let a = lit_at(s, i, "\x1b[")?;
    let b = take1(s, a, Class::Digit)?;
    let c = match lit_at(s, b, ";") {
        Some(b1) => match take1(s, b1, Class::Digit) {
            Some(b2) => b2,
            None => b,
        },
        None => b,
    };
    lit_at(s, c, "m")
}

fn opt_colorcode_at(s: &Vec<char>, i: usize) -> (j: usize)
    requires
        i <= s@.len(),
    ensures
        j == opt_colorcode(s@, i as int),
        i <= j <= s@.len(),
{
    match colorcode_at(s, i) {
        Some(j) => j,
        None => i,
    }
}

fn ws_at(s: &Vec<char>, i: usize) -> (j: usize)
    requires
        i <= s@.len(),
    ensures
        j == ws(s@, i as int),
        i <= j <= s@.len(),
{
    let mut j = i;
    loop
        invariant
            i <= j <= s@.len(),
            ws(s@, j as int) == ws(s@, i as int),
        decreases s@.len() - j,
    {
        match colorcode_at(s, j) {
            Some(k) => {
                j = k;
            },
            None => match take1(s, j, Class::Space) {
                Some(k) => {
                    j = k;
                },
                None => {
                    return j;
                },
            },
        }
    }
}

fn line_ending_at(s: &Vec<char>, i: usize) -> (r: Option<usize>)
    requires
        i <= s@.len(),
    ensures
        match r {
            Some(j) => line_ending(s@, i as int) == Some(j as int) && i < j <= s@.len(),
            None => line_ending(s@, i as int) is None,
        },
{
    proof {
        reveal_strlit("\n");
        reveal_strlit("\r\n");
    }
    match lit_at(s, i, "\n") {
        Some(j) => Some(j),
        None => lit_at(s, i, "\r\n"),
    }
}

fn restofline_at(s: &Vec<char>, i: usize) -> (r: Option<(String, usize)>)
    requires
        i <= s@.len(),
    ensures
        match r {
            Some((t, e)) => restofline(s@, i as int) == Some((t@, e as int)) && i < e <= s@.len(),
            None => restofline(s@, i as int) is None,
        },
{
    let j = take1(s, i, Class::LineChar)?;
    let e = line_ending_at(s, opt_colorcode_at(s, j))?;
    Some((crate::text::string_from_chars(s.as_slice(), i, j), e))
}

fn severity_at(s: &Vec<char>, a: usize, b: usize) -> (r: Option<Severity>)
    requires
        a <= b <= s@.len(),
    ensures
        r == severity_named(s@.subrange(a as int, b as int)),
{
    let t = crate::text::string_from_chars(s.as_slice(), a, b);
    if crate::text::str_eq(t.as_str(), "tips") {
        Some(Severity::Tips)
    } else if crate::text::str_eq(t.as_str(), "untidy") {
        Some(Severity::Untidy)
    } else if crate::text::str_eq(t.as_str(), "warning") {
        Some(Severity::Warning)
    } else if crate::text::str_eq(t.as_str(), "error") {
        Some(Severity::Error)
    } else if crate::text::str_eq(t.as_str(), "fatal") {
        Some(Severity::Fatal)
    } else {
        None
    }
}

fn top_line_at(s: &Vec<char>, i: usize) -> (r: Option<(ErrorKey, String, usize)>)
    requires
        i <= s@.len(),
    ensures
        match r {
            Some((key, msg, h)) => top_line(s@, i as int) matches Some((_, k2, m2, h2)) && key == k2 && msg@ == m2
                && h as int == h2 && i < h <= s@.len(),
            None => top_line(s@, i as int) is None,
        },
{
    let a = ws_at(s, i);
    let b = take1(s, a, Class::Alpha)?;
    let _sev = severity_at(s, a, b)?;
    let c = lit_at(s, b, "(")?;
    let d = take1(s, c, Class::KeyChar)?;
    let name = crate::text::string_from_chars(s.as_slice(), c, d);
    let key = ErrorKey::from_name(name.as_str())?;
    let e = lit_at(s, d, ")")?;
    let f = lit_at(s, opt_colorcode_at(s, e), ":")?;
    let (msg, h) = restofline_at(s, ws_at(s, f))?;
    Some((key, msg, h))
}

fn file_loc_line_at(s: &Vec<char>, i: usize) -> (r: Option<(String, usize)>)
    requires
        i <= s@.len(),
    ensures
        match r {
            Some((p, e)) => file_loc_line(s@, i as int) == Some((p@, e as int)) && i < e <= s@.len(),
            None => file_loc_line(s@, i as int) is None,
        },
{
    let b = lit_at(s, ws_at(s, i), "-->")?;
    let d = ws_at(s, ws_at(s, b));
    let d1 = lit_at(s, d, "[")?;
    let d2 = take1(s, d1, Class::NotBracket)?;
    let e = lit_at(s, d2, "]")?;
    restofline_at(s, ws_at(s, e))
}

fn line_contents_line_at(s: &Vec<char>, i: usize) -> (r: Option<(String, usize)>)
    requires
        i <= s@.len(),
    ensures
        match r {
            Some((l, e)) => line_contents_line(s@, i as int) == Some((l@, e as int)) && i < e <= s@.len(),
            None => line_contents_line(s@, i as int) is None,
        },
{
    let a = ws_at(s, i);
    let b = take1(s, a, Class::Digit)?;
    let digits = slice(s, a, b);
    let _n = crate::number::parse_int(&digits, 0, 0xFFFF_FFFF)?;
    let d = lit_at(s, ws_at(s, b), "|")?;
    restofline_at(s, ws_at(s, d))
}

/// The chars of `s` from `a` to `b`.
fn slice(s: &Vec<char>, a: usize, b: usize) -> (v: Vec<char>)
    requires
        a <= b <= s@.len(),
    ensures
        v@ == s@.subrange(a as int, b as int),
{
    let mut v: Vec<char> = Vec::new();
    let mut i = a;
    while i < b
        invariant
            a <= i <= b <= s@.len(),
            v@ == s@.subrange(a as int, i as int),
        decreases b - i,
    {
        v.push(s[i]);
        i = i + 1;
        proof {
            assert(v@ =~= s@.subrange(a as int, i as int));
        }
    }
    v
}

fn caret_line_start_at(s: &Vec<char>, i: usize) -> (r: Option<usize>)
    requires
        i <= s@.len(),
    ensures
        match r {
            Some(j) => caret_line_start(s@, i as int) == Some(j as int) && i <= j <= s@.len(),
            None => caret_line_start(s@, i as int) is None,
        },
{
    let b = lit_at(s, ws_at(s, i), "|")?;
    let d = take1(s, ws_at(s, b), Class::Caret)?;
    Some(ws_at(s, d))
}

fn caret_tag_line_at(s: &Vec<char>, i: usize) -> (r: Option<(Option<String>, usize)>)
    requires
        i <= s@.len(),
    ensures
        match r {
            Some((t, e)) => caret_tag_line(s@, i as int) == Some((opt_string_view(t), e as int)) && i < e <= s@.len(),
            None => caret_tag_line(s@, i as int) is None,
        },
{
    let a = caret_line_start_at(s, i)?;
    let tagged = match lit_at(s, a, "<--") {
        Some(b) => restofline_at(s, ws_at(s, b)),
        None => None,
    };
    match tagged {
        Some((t, e)) => Some((Some(t), e)),
        None => match line_ending_at(s, a) {
            Some(e) => Some((None, e)),
            None => None,
        },
    }
}

/// The content of an optional string.
pub open spec fn opt_string_view(o: Option<String>) -> Option<Seq<char>> {
    crate::report::suppress::opt_chars(o)
}

fn info_line_at(s: &Vec<char>, i: usize) -> (r: Option<usize>)
    requires
        i <= s@.len(),
    ensures
        match r {
            Some(e) => info_line(s@, i as int) == Some(e as int) && i < e <= s@.len(),
            None => info_line(s@, i as int) is None,
        },
{
    let b = lit_at(s, ws_at(s, i), "=")?;
    let d = lit_at(s, ws_at(s, b), "Info:")?;
    let (_, e) = restofline_at(s, ws_at(s, d))?;
    Some(e)
}

fn location_at(s: &Vec<char>, i: usize) -> (r: Option<(SuppressionLocation, usize)>)
    requires
        i <= s@.len(),
    ensures
        match r {
            Some((l, e)) => suppression_location(s@, i as int) == Some((l@, e as int)) && i < e <= s@.len(),
            None => suppression_location(s@, i as int) is None,
        },
{
    let (path, a) = file_loc_line_at(s, i)?;
    if let Some((line, b)) = line_contents_line_at(s, a) {
        if let Some((tag, c)) = caret_tag_line_at(s, b) {
            return Some((SuppressionLocation { path, line: Some(line), tag }, c));
        }
    }
    Some((SuppressionLocation { path, line: None, tag: None }, a))
}

#[verifier::spinoff_prover]
#[verifier::rlimit(60)]
fn report_at(s: &Vec<char>, i: usize) -> (r: Option<(SuppressionReport, usize)>)
    requires
        i <= s@.len(),
    ensures
        match r {
            Some((rep, e)) => report(s@, i as int) == Some((rep@, e as int)) && i < e <= s@.len(),
            None => report(s@, i as int) is None,
        },
{
    let (key, message, a) = top_line_at(s, i)?;
    let mut locs: Vec<SuppressionLocation> = Vec::new();
    let mut b = a;
    let ghost goal = locations(s@, a as int);
    proof {
        assert(locs_view(locs@) + locations(s@, b as int).0 =~= goal.0);
    }
    loop
        invariant_except_break
            a <= b <= s@.len(),
            locs_view(locs@) + locations(s@, b as int).0 == goal.0,
            locations(s@, b as int).1 == goal.1,
        ensures
            a <= b <= s@.len(),
            locs_view(locs@) == goal.0,
            b == goal.1,
        decreases s@.len() - b,
    {
        match location_at(s, b) {
            Some((l, e)) => {
                proof {
                    lemma_locations_step(s@, b as int);
                    lemma_locs_push(locs@, l);
                }
                locs.push(l);
                b = e;
            },
            None => {
                proof {
                    assert(locations(s@, b as int).0 =~= Seq::<LocationView>::empty());
                    assert(locs_view(locs@) + Seq::<LocationView>::empty() =~= locs_view(locs@));
                }
                break;
            },
        }
    }
    if locs.len() == 0 {
        return None;
    }
    let c = match info_line_at(s, b) {
        Some(c) => c,
        None => b,
    };
    let e = line_ending_at(s, c)?;
    Some((SuppressionReport { key, message, locations: locs }, e))
}

/// The reports in the text output `text` of an earlier run, or `None` if it is not all reports.
#[verifier::spinoff_prover]
#[verifier::rlimit(60)]
pub fn parse_suppressions(text: &str) -> (r: Option<Vec<SuppressionReport>>)
    ensures
        match r {
            Some(v) => spec_parse_suppressions(text@) == Some(v@.map_values(|x: SuppressionReport| x@)),
            None => spec_parse_suppressions(text@) is None,
        },
{
    let s = crate::text::chars_of(text);
    let mut v: Vec<SuppressionReport> = Vec::new();
    let mut i: usize = 0;
    let ghost goal = reports(s@, 0);
    proof {
        assert(reps_view(v@) + reports(s@, 0).0 =~= goal.0);
    }
    loop
        invariant_except_break
            i <= s@.len(),
            s@ == text@,
            reps_view(v@) + reports(s@, i as int).0 == goal.0,
            reports(s@, i as int).1 == goal.1,
        ensures
            i <= s@.len(),
            s@ == text@,
            reps_view(v@) == goal.0,
            i == goal.1,
        decreases s@.len() - i,
    {
        match report_at(&s, i) {
            Some((rep, e)) => {
                proof {
                    lemma_reports_step(s@, i as int, rep@, e as int);
                    lemma_reps_push(v@, rep);
                }
                v.push(rep);
                i = e;
            },
            None => {
                proof {
                    assert(reports(s@, i as int).0 =~= Seq::<SuppressedView>::empty());
                    assert(reps_view(v@) + Seq::<SuppressedView>::empty() =~= reps_view(v@));
                }
                break;
            },
        }
    }
    if i == s.len() {
        Some(v)
    } else {
        None
    }
}

} // verus!
