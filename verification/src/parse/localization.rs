//! Parsing localization files (`key: "value"` lines) and localization values (text with
//! `[code]`, `#markup`, `@icons!` and `\` escapes).
use vstd::prelude::*;

use crate::datatype::{
    args_view, chain_view, codes_view, lemma_args_view_push, lemma_codes_view_push, tv, ArgView, ChainView, Code,
    CodeArg, CodeChain, CodeView,
};
use crate::localization::{entry_view, LocaEntry, MacroValue, MacroValueView, macros_view, lemma_values_view_len, lemma_values_view_push, value_view, values_view, LocaValue, LocaValueView};
use crate::report::builder::{simple_report, warn};
use crate::report::error_key::ErrorKey;
use crate::report::errors::{log_reports, Errors};
use crate::report::report_struct::{Confidence, LogReport, ReportView, Severity};
use crate::text::{is_ascii_digit, spec_ascii_digit, chars_of, seq_eq, spec_ascii_lowercase, string_from_chars, vec_ascii_lowercase, char_is_alphanumeric, char_is_whitespace, concat_str, string_of, string_push, unicode_alphanumeric, unicode_whitespace};
use crate::token::{shifted, split_end, split_loc, split_starts, Loc, Token};
use crate::trigger::TokenView;
use crate::variables::Game;

verus! {

/// Chars that can be part of a localization key.
pub open spec fn key_char(c: char) -> bool {
    unicode_alphanumeric(c) || c == '-' || c == '_' || c == '.' || c == '\''
}

/// Chars that can be part of the name of a data function.
pub open spec fn code_char(c: char) -> bool {
    unicode_alphanumeric(c) || c == '_' || c == '\''
}

fn is_key_char(c: char) -> (b: bool)
    ensures
        b == key_char(c),
{
    char_is_alphanumeric(c) || c == '-' || c == '_' || c == '.' || c == '\''
}

fn is_code_char(c: char) -> (b: bool)
    ensures
        b == code_char(c),
{
    char_is_alphanumeric(c) || c == '_' || c == '\''
}

/// What a value parser reads: the texts of its tokens, their locations, and the game.
pub struct VCtx {
    pub toks: Seq<Seq<char>>,
    pub locs: Seq<Loc>,
    pub game: Game,
}

/// Where a value parser is (token `idx`, char `off` in it), what it has parsed so far and what
/// it has reported.
pub struct VS {
    pub idx: int,
    pub off: int,
    pub value: Seq<LocaValueView>,
    pub reports: Seq<ReportView>,
}

/// The number of chars in tokens `i` and after.
pub open spec fn suffix_len(t: Seq<Seq<char>>, i: int) -> int
    decreases t.len() - i,
{
    if i < 0 || i >= t.len() {
        0
    } else {
        t[i].len() + suffix_len(t, i + 1)
    }
}

/// The number of chars left to read.
pub open spec fn rem(c: VCtx, s: VS) -> int {
    suffix_len(c.toks, s.idx) - s.off
}

/// A position inside the tokens.
pub open spec fn valid(c: VCtx, s: VS) -> bool {
    0 <= s.idx < c.toks.len() && 0 <= s.off <= c.toks[s.idx].len()
}

/// The position after moving past used-up tokens, as long as one follows.
pub open spec fn norm(c: VCtx, i: int, o: int) -> (int, int)
    decreases c.toks.len() - i,
{
    if i < 0 || i + 1 >= c.toks.len() || o < c.toks[i].len() {
        (i, o)
    } else {
        norm(c, i + 1, 0)
    }
}

/// Looking at the next char: the state moves past used-up tokens first.
pub open spec fn sp_peek(c: VCtx, s: VS) -> (VS, Option<char>) {
    let (i, o) = norm(c, s.idx, s.off);
    (VS { idx: i, off: o, ..s }, if 0 <= i < c.toks.len() && 0 <= o < c.toks[i].len() {
        Some(c.toks[i][o])
    } else {
        None
    })
}

/// Moving past the next char, if there is one.
pub open spec fn sp_next(c: VCtx, s: VS) -> VS {
    let (s1, ch) = sp_peek(c, s);
    if ch is Some {
        VS { off: s1.off + 1, ..s1 }
    } else {
        s1
    }
}

/// The location of the position: the token's location, moved by the chars read in it.
pub open spec fn loc_of(c: VCtx, s: VS) -> Loc {
    shifted(c.locs[s.idx], s.off)
}

/// The state with one more report.
pub open spec fn with_report(s: VS, r: ReportView) -> VS {
    VS { reports: s.reports.push(r), ..s }
}

/// The state with one more parsed value.
pub open spec fn with_value(s: VS, v: LocaValueView) -> VS {
    VS { value: s.value.push(v), ..s }
}

/// A warning at `loc`.
pub open spec fn vwarn(key: ErrorKey, msg: Seq<char>, loc: Loc) -> ReportView {
    simple_report(key, Severity::Warning, Confidence::Reasonable, msg, None, loc)
}

/// The message about an unexpected char `x` where `expected` was expected.
pub open spec fn unexpected_msg(x: char, expected: Seq<char>) -> Seq<char> {
    "Unexpected character `"@ + seq![x] + "`, "@ + expected
}

/// Reporting the next char (a space at the end) as unexpected.
pub open spec fn sp_unexpected(c: VCtx, s: VS, expected: Seq<char>, key: ErrorKey) -> VS {
    let (s1, ch) = sp_peek(c, s);
    let x = match ch {
        Some(x) => x,
        None => ' ',
    };
    with_report(s1, vwarn(key, unexpected_msg(x, expected), loc_of(c, s1)))
}

/// Reading chars into `text` up to the first one that `stop` holds of, or the end.
pub open spec fn sp_scan(c: VCtx, s: VS, stop: spec_fn(char) -> bool, text: Seq<char>) -> (VS, Seq<char>)
    decreases rem(c, s),
{
    let (s1, ch) = sp_peek(c, s);
    match ch {
        Some(x) => {
            if stop(x) {
                (s1, text)
            } else {
                let s2 = sp_next(c, s1);
                if 0 <= rem(c, s2) < rem(c, s) {
                    sp_scan(c, s2, stop, text.push(x))
                } else {
                    (s2, text.push(x))
                }
            }
        },
        None => (s1, text),
    }
}

/// The kinds of runs of chars that the value parser reads.
#[derive(Clone, Copy, Debug, PartialEq, Eq, Structural)]
pub enum Run {
    /// Whitespace.
    Space,
    /// A localization key.
    Key,
    /// The name of a data function.
    CodeName,
    /// A `|format`, which ends at `$` or `]`.
    Format,
    /// Plain text, which ends at `[`, `#`, `@` or `\`.
    Text,
}

/// The chars that end a run of the kind.
pub open spec fn run_stop(k: Run) -> spec_fn(char) -> bool {
    match k {
        Run::Space => |x: char| !unicode_whitespace(x),
        Run::Key => |x: char| !key_char(x),
        Run::CodeName => |x: char| !code_char(x),
        Run::Format => |x: char| x == '$' || x == ']',
        Run::Text => |x: char| x == '[' || x == '#' || x == '@' || x == '\\',
    }
}

fn stops_run(k: Run, x: char) -> (b: bool)
    ensures
        b == run_stop(k)(x),
{
    match k {
        Run::Space => !char_is_whitespace(x),
        Run::Key => !is_key_char(x),
        Run::CodeName => !is_code_char(x),
        Run::Format => x == '$' || x == ']',
        Run::Text => x == '[' || x == '#' || x == '@' || x == '\\',
    }
}

/// Reading a run of the kind, at the position's location.
pub open spec fn sp_run(c: VCtx, s: VS, k: Run) -> (VS, TokenView) {
    let r = sp_scan(c, s, run_stop(k), Seq::empty());
    (r.0, (r.1, loc_of(c, s)))
}

/// Skipping whitespace.
pub open spec fn sp_skip_ws(c: VCtx, s: VS) -> VS {
    sp_run(c, s, Run::Space).0
}

/// Reading an optional `|format` that ends at `$` or `]`.
pub open spec fn sp_format(c: VCtx, s: VS) -> (VS, Option<TokenView>) {
    let (s1, ch) = sp_peek(c, s);
    if ch == Some('|') {
        let r = sp_run(c, sp_next(c, s1), Run::Format);
        (r.0, Some(r.1))
    } else {
        (s1, None)
    }
}

proof fn lemma_suffix_nonneg(t: Seq<Seq<char>>, i: int)
    ensures
        suffix_len(t, i) >= 0,
    decreases t.len() - i,
{
    if 0 <= i < t.len() {
        lemma_suffix_nonneg(t, i + 1);
    }
}

/// Looking keeps the position valid and the chars left; a char is there exactly when some
/// are left, and moving past it leaves one fewer.
proof fn lemma_peek(c: VCtx, s: VS)
    requires
        valid(c, s),
    ensures
        valid(c, sp_peek(c, s).0),
        rem(c, sp_peek(c, s).0) == rem(c, s),
        rem(c, s) >= 0,
        sp_peek(c, s).1 is Some <==> rem(c, s) > 0,
        sp_peek(c, s).0.value == s.value,
        sp_peek(c, s).0.reports == s.reports,
        sp_peek(c, s).0.idx >= s.idx,
        valid(c, sp_next(c, s)),
        rem(c, sp_next(c, s)) == if rem(c, s) > 0 { rem(c, s) - 1 } else { rem(c, s) },
        sp_next(c, s).value == s.value,
        sp_next(c, s).reports == s.reports,
        sp_peek(c, sp_peek(c, s).0) == sp_peek(c, s),
    decreases c.toks.len() - s.idx,
{
    lemma_suffix_nonneg(c.toks, s.idx + 1);
    if s.idx + 1 >= c.toks.len() || s.off < c.toks[s.idx].len() {
        if s.idx + 1 >= c.toks.len() {
            assert(suffix_len(c.toks, s.idx + 1) == 0);
        }
    } else {
        let s2 = VS { idx: s.idx + 1, off: 0, ..s };
        lemma_peek(c, s2);
        assert(sp_peek(c, s) == sp_peek(c, s2));
    }
}

/// A warning with an info text.
pub open spec fn vwarn_info(key: ErrorKey, msg: Seq<char>, info: Seq<char>, loc: Loc) -> ReportView {
    simple_report(key, Severity::Warning, Confidence::Reasonable, msg, Some(info), loc)
}

/// The warning about a literal argument that may not be terminated.
pub open spec fn unterminated_msg() -> Seq<char> {
    "possible unterminated argument string"@
}

/// Reading the text of a quoted literal argument up to its closing `'`, keeping count of the
/// parentheses in it and warning about `]`, a `)` that closes nothing, and a BOM (at `l`, where
/// the literal starts).
pub open spec fn sp_lit(c: VCtx, s: VS, parens: int, text: Seq<char>, l: Loc) -> (VS, Seq<char>)
    decreases rem(c, s),
{
    let (s1, ch) = sp_peek(c, s);
    match ch {
        Some(x) => {
            if x == '\'' {
                (s1, text)
            } else {
                let here = loc_of(c, s1);
                let s2 = if x == ']' {
                    with_report(
                        s1,
                        vwarn_info(
                            ErrorKey::Localization,
                            unterminated_msg(),
                            "Using [ ] inside argument strings does not work"@,
                            here,
                        ),
                    )
                } else if x == ')' && parens == 0 {
                    with_report(s1, vwarn(ErrorKey::Localization, unterminated_msg(), here))
                } else if x == '\u{feff}' {
                    with_report(
                        s1,
                        simple_report(
                            ErrorKey::ParseError,
                            Severity::Warning,
                            Confidence::Strong,
                            "found unicode BOM in middle of file"@,
                            None,
                            l,
                        ),
                    )
                } else {
                    s1
                };
                let p2 = if x == '(' {
                    parens + 1
                } else if x == ')' && parens != 0 {
                    parens - 1
                } else {
                    parens
                };
                let s3 = sp_next(c, s2);
                if 0 <= rem(c, s3) < rem(c, s) {
                    sp_lit(c, s3, p2, text.push(x), l)
                } else {
                    (s3, text.push(x))
                }
            }
        },
        None => (s1, text),
    }
}

/// Parsing the arguments of a call from just after `(` (or a `,`), while fewer than `bound`
/// chars are left: the state, the arguments, and whether no literal argument was left open.
pub open spec fn sp_args_loop(c: VCtx, s: VS, v: Seq<ArgView>, bound: int) -> (VS, Seq<ArgView>, bool)
    decreases bound, 1int,
{
    if !(0 <= rem(c, s) < bound) {
        (s, v, false)
    } else {
        let s1 = sp_skip_ws(c, s);
        let (s2, ch) = sp_peek(c, s1);
        let (s5, v2, ok) = if ch == Some('\'') {
            let s3 = sp_next(c, s2);
            let l = loc_of(c, s3);
            let (s4, text) = sp_lit(c, s3, 0, Seq::empty(), l);
            let (s5, ch2) = sp_peek(c, s4);
            if ch2 != Some('\'') {
                (with_value(s5, LocaValueView::Error), v, false)
            } else {
                (sp_next(c, s5), v.push(ArgView::Literal((text, l))), true)
            }
        } else if ch == Some(')') {
            (s2, v, true)
        } else if 0 <= rem(c, s2) < bound {
            let (s3, codes) = sp_inner(c, s2, Seq::empty());
            (s3, v.push(ArgView::Chain(ChainView { codes })), true)
        } else {
            (s2, v, false)
        };
        if !ok {
            (s5, Seq::empty(), false)
        } else {
            let s6 = sp_skip_ws(c, s5);
            let (s7, ch3) = sp_peek(c, s6);
            if ch3 != Some(',') {
                (s7, v2, true)
            } else if 0 <= rem(c, s7) < bound {
                sp_args_loop(c, sp_next(c, s7), v2, rem(c, s7))
            } else {
                (s7, v2, false)
            }
        }
    }
}

/// Parsing the arguments of a call, from its `(`; after an open literal, no arguments.
pub open spec fn sp_args(c: VCtx, s: VS) -> (VS, Seq<ArgView>)
    decreases rem(c, s), 2int,
{
    let s1 = sp_next(c, s);
    let (s2, v, ok) = sp_args_loop(c, s1, Seq::empty(), rem(c, s));
    if !ok {
        (s2, Seq::empty())
    } else {
        let (s3, ch) = sp_peek(c, s2);
        if ch == Some(')') {
            (sp_next(c, s3), v)
        } else {
            (sp_unexpected(c, s3, "expected `)`"@, ErrorKey::Datafunctions), v)
        }
    }
}

/// Parsing one call: its name, and its arguments if a `(` follows.
pub open spec fn sp_code(c: VCtx, s: VS) -> (VS, CodeView)
    decreases rem(c, s), 3int,
{
    let (s1, name) = sp_run(c, s, Run::CodeName);
    let (s2, ch) = sp_peek(c, s1);
    if ch == Some('(') && 0 <= rem(c, s2) <= rem(c, s) {
        let (s3, args) = sp_args(c, s2);
        (s3, CodeView { name, arguments: args })
    } else {
        (s2, CodeView { name, arguments: Seq::empty() })
    }
}

/// Parsing a chain of calls separated by `.`, after the calls `v`.
pub open spec fn sp_inner(c: VCtx, s: VS, v: Seq<CodeView>) -> (VS, Seq<CodeView>)
    decreases rem(c, s), 4int,
{
    let (s1, cv) = sp_code(c, s);
    let v2 = v.push(cv);
    let (s2, ch) = sp_peek(c, s1);
    if ch == Some('.') {
        let s3 = sp_next(c, s2);
        if 0 <= rem(c, s3) < rem(c, s) {
            sp_inner(c, s3, v2)
        } else {
            (s3, v2)
        }
    } else {
        (s2, v2)
    }
}

/// An untidy-level report.
pub open spec fn vuntidy(key: ErrorKey, msg: Seq<char>, loc: Loc) -> ReportView {
    simple_report(key, Severity::Untidy, Confidence::Reasonable, msg, None, loc)
}

/// Skipping the surplus `)` before a `]`, with one report for the first.
pub open spec fn sp_parens(c: VCtx, s: VS, warned: bool) -> VS
    decreases rem(c, s),
{
    let (s1, ch) = sp_peek(c, s);
    if ch == Some(')') {
        let s2 = if !warned {
            with_report(s1, vuntidy(ErrorKey::Datafunctions, "too many `)`"@, loc_of(c, s1)))
        } else {
            s1
        };
        let s3 = sp_skip_ws(c, sp_next(c, s2));
        if 0 <= rem(c, s3) < rem(c, s) {
            sp_parens(c, s3, true)
        } else {
            s3
        }
    } else {
        s1
    }
}

/// Parsing a `[code]` block, from its `[`.
pub open spec fn sp_parse_code(c: VCtx, s: VS) -> VS {
    let s1 = sp_next(c, s);
    let s2 = sp_skip_ws(c, s1);
    let (s3, codes) = sp_inner(c, s2, Seq::empty());
    let s4 = sp_skip_ws(c, s3);
    let s5 = sp_parens(c, s4, false);
    let (s6, fmt) = sp_format(c, s5);
    let (s7, ch) = sp_peek(c, s6);
    if ch == Some(']') {
        with_value(sp_next(c, s7), LocaValueView::Code(ChainView { codes }, fmt))
    } else {
        with_value(sp_unexpected(c, s7, "expected `]`"@, ErrorKey::Datafunctions), LocaValueView::Error)
    }
}

/// Whether a markup key is `tooltip`, in any ASCII case.
pub open spec fn tooltip_key(k: Seq<char>) -> bool {
    spec_ascii_lowercase(k) == "tooltip"@
}

/// A `#tooltip` markup with value `value` at `l`: a tag and a key if the value has a comma
/// (the first two pieces of the value cut at commas), else a key.
pub open spec fn sp_tooltip(s: VS, value: Seq<char>, l: Loc) -> VS {
    if value.contains(',') {
        let a = (value.subrange(split_starts(value, ',')[0], split_end(value, ',', 0)), split_loc(value, ',', l, 0));
        let b = (value.subrange(split_starts(value, ',')[1], split_end(value, ',', 1)), split_loc(value, ',', l, 1));
        with_value(s, LocaValueView::ComplexTooltip(a, b))
    } else {
        with_value(s, LocaValueView::Tooltip((value, l)))
    }
}

/// Where a markup is: in its key, or in a value (with its key, the value so far, where the
/// value starts and how many braces are open).
pub enum MState {
    InKey(Seq<char>),
    InValue(Seq<char>, Seq<char>, Loc, int),
}

/// The message about unbalanced braces.
pub open spec fn braces_msg() -> Seq<char> {
    "mismatched braces in markup"@
}

/// One char `x` of a markup in state `m`: the parser's state, the markup's state, whether the
/// markup ends before `x`, and whether `x` was read already (by a `[code]` block).
pub open spec fn markup_step(c: VCtx, s1: VS, m: MState, x: char) -> (VS, MState, bool, bool) {
    match m {
        MState::InKey(k) => {
            if x == ':' || x == ';' {
                let s2 = if k.len() == 0 {
                    sp_unexpected(c, s1, "expected markup key"@, ErrorKey::Markup)
                } else {
                    s1
                };
                if x == ':' {
                    (s2, MState::InValue(k, Seq::empty(), loc_of(c, s1), 0), false, false)
                } else {
                    (s2, MState::InKey(Seq::empty()), false, false)
                }
            } else if unicode_alphanumeric(x) || x == '_' {
                (s1, MState::InKey(k.push(x)), false, false)
            } else {
                (s1, m, true, false)
            }
        },
        MState::InValue(k, v, l, bc) => {
            if x == ':' {
                (sp_unexpected(c, s1, "expected `;`"@, ErrorKey::Markup), MState::InValue(k, v.push(x), l, bc), false, false)
            } else if x == ';' {
                (if tooltip_key(k) {
                    sp_tooltip(s1, v, l)
                } else {
                    s1
                }, MState::InKey(Seq::empty()), false, false)
            } else if x == '{' {
                (s1, MState::InValue(k, v, l, bc + 1), false, false)
            } else if x == '}' {
                if bc > 0 {
                    (s1, MState::InValue(k, v, l, bc - 1), false, false)
                } else {
                    (
                        with_value(
                            with_report(s1, vwarn(ErrorKey::Markup, braces_msg(), loc_of(c, s1))),
                            LocaValueView::Error,
                        ),
                        m,
                        false,
                        false,
                    )
                }
            } else if x == '.' || x == ',' || unicode_alphanumeric(x) || x == '_' {
                (s1, MState::InValue(k, v.push(x), l, bc), false, false)
            } else if x == '[' {
                (sp_parse_code(c, s1), m, false, true)
            } else {
                (s1, m, true, false)
            }
        },
    }
}

/// Reading the body of a markup up to whitespace or a char that cannot be part of it.
pub open spec fn sp_markup_loop(c: VCtx, s: VS, m: MState) -> (VS, MState)
    decreases rem(c, s),
{
    let (s1, ch) = sp_peek(c, s);
    match ch {
        None => (s1, m),
        Some(x) => {
            if unicode_whitespace(x) {
                (s1, m)
            } else {
                let (s2, m2, stop, consumed) = markup_step(c, s1, m, x);
                if stop {
                    (s2, m2)
                } else {
                    let s3 = if consumed {
                        s2
                    } else {
                        sp_next(c, s2)
                    };
                    if 0 <= rem(c, s3) < rem(c, s) {
                        sp_markup_loop(c, s3, m2)
                    } else {
                        (s3, m2)
                    }
                }
            }
        },
    }
}

/// Parsing a `#markup`, from its `#`: `##` is a literal `#`, `#!` ends a markup, and
/// otherwise the markup's key and values are read, and it must be followed by whitespace.
pub open spec fn sp_markup(c: VCtx, s: VS) -> VS {
    let l0 = loc_of(c, s);
    let s1 = sp_next(c, s);
    let (s2, ch) = sp_peek(c, s1);
    if ch == Some('#') {
        with_value(sp_next(c, s2), LocaValueView::Text(("#"@, l0)))
    } else if ch == Some('!') {
        with_value(sp_next(c, s2), LocaValueView::MarkupEnd)
    } else {
        let (s3, m) = sp_markup_loop(c, s2, MState::InKey(Seq::empty()));
        let s4 = match m {
            MState::InKey(_) => with_value(s3, LocaValueView::Markup),
            MState::InValue(k, v, l, bc) => {
                let t = if tooltip_key(k) {
                    sp_tooltip(s3, v, l)
                } else {
                    s3
                };
                if bc > 0 {
                    with_value(
                        with_report(t, vwarn(ErrorKey::Markup, braces_msg(), loc_of(c, t))),
                        LocaValueView::Error,
                    )
                } else {
                    with_value(t, LocaValueView::Markup)
                }
            },
        };
        let (s5, ch2) = sp_peek(c, s4);
        match ch2 {
            Some(x) => {
                if unicode_whitespace(x) {
                    sp_next(c, s5)
                } else {
                    with_value(
                        with_report(
                            s5,
                            vwarn(ErrorKey::Markup, "#markup should be followed by a space"@, loc_of(c, s5)),
                        ),
                        LocaValueView::Error,
                    )
                }
            },
            None => sp_next(c, s5),
        }
    }
}

/// Parsing an `@icon!`, from its `@`. Imperator also allows `@[code]`, whose code is parsed
/// next.
pub open spec fn sp_icon(c: VCtx, s: VS) -> VS {
    let s1 = sp_next(c, s);
    let (s2, ch) = sp_peek(c, s1);
    match ch {
        Some(x) => {
            if c.game == Game::Imperator && x == '[' {
                s2
            } else if key_char(x) {
                let (s3, key) = sp_run(c, s2, Run::Key);
                let s4 = with_value(s3, LocaValueView::Icon(key));
                let (s5, ch2) = sp_peek(c, s4);
                if ch2 == Some('!') {
                    sp_next(c, s5)
                } else {
                    with_value(sp_unexpected(c, s5, "expected `!`"@, ErrorKey::Localization), LocaValueView::Error)
                }
            } else {
                with_value(sp_unexpected(c, s2, "expected icon name"@, ErrorKey::Localization), LocaValueView::Error)
            }
        },
        None => with_value(sp_unexpected(c, s2, "expected icon name"@, ErrorKey::Localization), LocaValueView::Error),
    }
}

/// Parsing a `\` escape: `\n` is a newline, and any other char stands for itself.
pub open spec fn sp_escape(c: VCtx, s: VS) -> VS {
    let l = loc_of(c, s);
    let s1 = sp_next(c, s);
    let (s2, ch) = sp_peek(c, s1);
    match ch {
        Some(x) => with_value(sp_next(c, s2), LocaValueView::Text((if x == 'n' {
            seq!['\n']
        } else {
            seq![x]
        }, l))),
        None => with_value(s2, LocaValueView::Error),
    }
}

/// Parsing plain text.
pub open spec fn sp_text(c: VCtx, s: VS) -> VS {
    let (s1, t) = sp_run(c, s, Run::Text);
    with_value(s1, LocaValueView::Text(t))
}

/// Parsing the piece of the value that starts with `x`.
pub open spec fn sp_piece(c: VCtx, s: VS, x: char) -> VS {
    if x == '[' {
        sp_parse_code(c, s)
    } else if x == '#' {
        sp_markup(c, s)
    } else if x == '@' {
        sp_icon(c, s)
    } else if x == '\\' {
        sp_escape(c, s)
    } else {
        sp_text(c, s)
    }
}

/// Whether the last parsed piece is an error.
pub open spec fn ends_in_error(s: VS) -> bool {
    s.value.len() > 0 && s.value.last() == LocaValueView::Error
}

/// Parsing the pieces of the value to the end; as soon as a piece ends in an error, the whole
/// value is that one error.
pub open spec fn sp_vec(c: VCtx, s: VS) -> VS
    decreases rem(c, s),
{
    let (s1, ch) = sp_peek(c, s);
    match ch {
        None => s1,
        Some(x) => {
            let s2 = sp_piece(c, s1, x);
            if ends_in_error(s2) {
                VS { value: seq![LocaValueView::Error], ..s2 }
            } else if 0 <= rem(c, s2) < rem(c, s) {
                sp_vec(c, s2)
            } else {
                s2
            }
        },
    }
}

/// A parsed value: its one piece, or all its pieces in a row.
pub open spec fn single_or_concat(v: Seq<LocaValueView>) -> LocaValueView {
    if v.len() == 1 {
        v[0]
    } else {
        LocaValueView::Concat(v)
    }
}


/// Reading a run keeps the position valid and never adds chars left; it reads at least the
/// next char if that does not stop it.
proof fn lemma_scan_rem(c: VCtx, s: VS, stop: spec_fn(char) -> bool, text: Seq<char>)
    requires
        valid(c, s),
    ensures
        valid(c, sp_scan(c, s, stop, text).0),
        rem(c, sp_scan(c, s, stop, text).0) <= rem(c, s),
        (sp_peek(c, s).1 matches Some(x) && !stop(x)) ==> rem(c, sp_scan(c, s, stop, text).0) < rem(c, s),
    decreases rem(c, s),
{
    lemma_peek(c, s);
    let (s1, ch) = sp_peek(c, s);
    if let Some(x) = ch {
        if !stop(x) {
            lemma_peek(c, s1);
            let s2 = sp_next(c, s1);
            if 0 <= rem(c, s2) < rem(c, s) {
                lemma_scan_rem(c, s2, stop, text.push(x));
            }
        }
    }
}

// ---------------------------------------------------------------------------------------------
// Localization files
// ---------------------------------------------------------------------------------------------

/// What a file parser reads: the file's chars, the language it is for, and the game.
pub struct LCtx {
    pub content: Seq<char>,
    pub language: Seq<char>,
    pub game: Game,
}

/// Where a file parser is (a char position and its location), whether it still expects the
/// language header, where the current value ends, the value parsed so far and the reports.
pub struct LS {
    pub pos: int,
    pub loc: Loc,
    pub expecting: bool,
    pub loca_end: int,
    pub value: Seq<LocaValueView>,
    pub reports: Seq<ReportView>,
}

/// The char at the position, if any.
pub open spec fn lpeek(c: LCtx, s: LS) -> Option<char> {
    if 0 <= s.pos < c.content.len() {
        Some(c.content[s.pos])
    } else {
        None
    }
}

/// Moving past the char at the position: a newline starts a new line.
pub open spec fn lnext(c: LCtx, s: LS) -> LS {
    if 0 <= s.pos < c.content.len() {
        let loc = if c.content[s.pos] == '\n' {
            Loc { line: (s.loc.line + 1) as u32, column: 1, ..s.loc }
        } else {
            Loc { column: (s.loc.column + 1) as u32, ..s.loc }
        };
        LS { pos: s.pos + 1, loc, ..s }
    } else {
        s
    }
}

/// Moving past chars up to the first that `stop` holds of, or the end.
pub open spec fn lscan(c: LCtx, s: LS, stop: spec_fn(char) -> bool) -> LS
    decreases c.content.len() - s.pos,
{
    if 0 <= s.pos < c.content.len() && !stop(c.content[s.pos]) {
        lscan(c, lnext(c, s), stop)
    } else {
        s
    }
}

/// The kinds of runs of chars that the file parser moves past.
#[derive(Clone, Copy, Debug, PartialEq, Eq, Structural)]
pub enum LRun {
    /// Whitespace, newlines included.
    Space,
    /// Whitespace on the line.
    LineSpace,
    /// The rest of the line.
    Line,
    /// A localization key.
    Key,
    /// Digits.
    Digits,
    /// A `|format`, which ends at `$`, `]` or the end of the line.
    Format,
}

/// The chars that end a run of the kind.
pub open spec fn lrun_stop(k: LRun) -> spec_fn(char) -> bool {
    match k {
        LRun::Space => |x: char| !unicode_whitespace(x),
        LRun::LineSpace => |x: char| !unicode_whitespace(x) || x == '\n',
        LRun::Line => |x: char| x == '\n',
        LRun::Key => |x: char| !key_char(x),
        LRun::Digits => |x: char| !spec_ascii_digit(x),
        LRun::Format => |x: char| x == '$' || x == ']' || x == '\n',
    }
}

fn stops_lrun(k: LRun, x: char) -> (b: bool)
    ensures
        b == lrun_stop(k)(x),
{
    match k {
        LRun::Space => !char_is_whitespace(x),
        LRun::LineSpace => !char_is_whitespace(x) || x == '\n',
        LRun::Line => x == '\n',
        LRun::Key => !is_key_char(x),
        LRun::Digits => !is_ascii_digit(x),
        LRun::Format => x == '$' || x == ']' || x == '\n',
    }
}

/// The state with one more report.
pub open spec fn lreport(s: LS, r: ReportView) -> LS {
    LS { reports: s.reports.push(r), ..s }
}

/// The state with one more parsed value.
pub open spec fn lvalue(s: LS, v: LocaValueView) -> LS {
    LS { value: s.value.push(v), ..s }
}

/// Moving past the rest of the line and its newline.
pub open spec fn lskip_line(c: LCtx, s: LS) -> LS {
    lnext(c, lscan(c, s, lrun_stop(LRun::Line)))
}

/// Reading a key: its text and where it starts.
pub open spec fn lget_key(c: LCtx, s: LS) -> (LS, TokenView) {
    let s1 = lscan(c, s, lrun_stop(LRun::Key));
    (s1, (c.content.subrange(s.pos, s1.pos), s.loc))
}

/// Reporting the char at the position as unexpected, or the end of the file.
pub open spec fn lunexpected(c: LCtx, s: LS, expected: Seq<char>) -> LS {
    match lpeek(c, s) {
        None => lreport(s, vwarn(ErrorKey::Localization, "Unexpected end of file, "@ + expected, s.loc)),
        Some(x) => lreport(s, vwarn(ErrorKey::Localization, unexpected_msg(x, expected), s.loc)),
    }
}

/// The position of the last `"` from `i` to the end of the line, after `acc`.
pub open spec fn last_dquote(t: Seq<char>, i: int, acc: Option<int>) -> Option<int>
    decreases t.len() - i,
{
    if i < 0 || i >= t.len() {
        acc
    } else if t[i] == '"' {
        last_dquote(t, i + 1, Some(i))
    } else if t[i] == '\n' {
        acc
    } else {
        last_dquote(t, i + 1, acc)
    }
}

/// Whether a `$` comes before the end of the line, from `i`.
pub open spec fn line_has_macros(t: Seq<char>, i: int) -> bool
    decreases t.len() - i,
{
    if i < 0 || i >= t.len() || t[i] == '\n' {
        false
    } else if t[i] == '$' {
        true
    } else {
        line_has_macros(t, i + 1)
    }
}

/// A localization value ends at the last `"` on its line: the `"` found is on the line, and
/// any later `"` is on a later line.
pub proof fn law_value_ends_at_last_quote(t: Seq<char>, i: int, e: int)
    requires
        0 <= i,
        last_dquote(t, i, None) == Some(e),
    ensures
        i <= e < t.len(),
        t[e] == '"',
        forall|j: int| i <= j < e ==> t[j] != '\n',
        forall|j: int|
            e < j < t.len() && #[trigger] t[j] == '"' ==> exists|k: int| e < k < j && t[k] == '\n',
{
    lemma_last_dquote_props(t, i, None);
}

proof fn lemma_last_dquote_props(t: Seq<char>, i: int, acc: Option<int>)
    requires
        0 <= i,
        acc matches Some(a) ==> 0 <= a < i && a < t.len() && t[a] == '"',
        acc matches Some(a) ==> forall|j: int| a < j < i ==> t[j] != '"' && t[j] != '\n',
        last_dquote(t, i, acc) is Some,
    ensures
        ({
            let e = last_dquote(t, i, acc)->0;
            &&& (acc matches Some(a) ==> a <= e)
            &&& e < t.len()
            &&& t[e] == '"'
            &&& (acc is None ==> i <= e)
            &&& forall|j: int| i <= j < e ==> t[j] != '\n'
            &&& forall|j: int|
                e < j < t.len() && #[trigger] t[j] == '"' ==> exists|k: int| e < k < j && t[k] == '\n'
        }),
    decreases t.len() - i,
{
    let e = last_dquote(t, i, acc)->0;
    if i < t.len() {
        if t[i] == '"' {
            lemma_last_dquote_props(t, i + 1, Some(i));
        } else if t[i] == '\n' {
            let a = acc->0;
            assert forall|j: int| e < j < t.len() && #[trigger] t[j] == '"' implies exists|k: int|
                e < k < j && t[k] == '\n' by {
                if j > i {
                    assert(e < i < j && t[i] == '\n');
                } else {
                    assert(t[j] != '"');
                }
            }
        } else {
            lemma_last_dquote_props(t, i + 1, acc);
        }
    } else {
        let a = acc->0;
        assert forall|j: int| e < j < t.len() && #[trigger] t[j] == '"' implies exists|k: int|
            e < k < j && t[k] == '\n' by {
            assert(t[j] != '"');
        }
    }
}

/// Moving past an optional `|format`.
pub open spec fn lformat(c: LCtx, s: LS) -> LS {
    if lpeek(c, s) == Some('|') {
        lscan(c, lnext(c, s), lrun_stop(LRun::Format))
    } else {
        s
    }
}

/// A `$keyword$` in a value with macros, from its first `$`.
pub open spec fn lkeyword(c: LCtx, s: LS) -> (LS, Option<MacroValueView>) {
    let s1 = lnext(c, s);
    let (s2, key) = lget_key(c, s1);
    let s3 = lformat(c, s2);
    if lpeek(c, s3) != Some('$') {
        (
            lreport(
                s3,
                simple_report(
                    ErrorKey::Localization,
                    Severity::Warning,
                    Confidence::Weak,
                    "didn't recognize a key between $"@,
                    None,
                    key.1,
                ),
            ),
            None,
        )
    } else {
        (lnext(c, s3), Some(MacroValueView::Keyword(key)))
    }
}

/// The text from `start` to the position.
pub open spec fn text_from(c: LCtx, start: int, l: Loc, s: LS) -> MacroValueView {
    MacroValueView::Text((c.content.subrange(start, s.pos), l))
}

/// Reading a value with macros into pieces `v`; the current text piece starts at `start`.
pub open spec fn lmacros(c: LCtx, s: LS, v: Seq<MacroValueView>, start: int, l: Loc) -> LS
    decreases c.content.len() - s.pos,
{
    match lpeek(c, s) {
        Some(x) => {
            if x == '$' {
                let v2 = v.push(text_from(c, start, l, s));
                let (s2, kw) = lkeyword(c, s);
                match kw {
                    None => lvalue(s2, LocaValueView::Error),
                    Some(k) => {
                        if s2.pos > s.pos {
                            lmacros(c, s2, v2.push(k), s2.pos, s2.loc)
                        } else {
                            s2
                        }
                    },
                }
            } else if x == '"' && s.pos == s.loca_end {
                lvalue(lnext(c, s), LocaValueView::Macro(v.push(text_from(c, start, l, s))))
            } else {
                lmacros(c, lnext(c, s), v, start, l)
            }
        },
        None => lvalue(s, LocaValueView::Macro(v.push(text_from(c, start, l, s)))),
    }
}

/// Moving past comments, blank lines and lines that do not start with a key.
pub open spec fn lskip_until_key(c: LCtx, s: LS) -> LS
    decreases c.content.len() - s.pos,
{
    let s1 = lscan(c, s, lrun_stop(LRun::Space));
    match lpeek(c, s1) {
        Some(x) => {
            if x != '#' && key_char(x) {
                s1
            } else {
                let s2 = if x == '#' {
                    lskip_line(c, s1)
                } else {
                    lskip_line(c, lunexpected(c, s1, "expected localization key"@))
                };
                if s.pos < s2.pos <= c.content.len() {
                    lskip_until_key(c, s2)
                } else {
                    s2
                }
            }
        },
        None => s1,
    }
}

/// Moving past the chars up to and including position `end`.
pub open spec fn lskip_to(c: LCtx, s: LS, end: int) -> LS
    decreases c.content.len() - s.pos,
{
    if 0 <= s.pos <= end && s.pos < c.content.len() {
        lskip_to(c, lnext(c, s), end)
    } else {
        s
    }
}

/// The content of an entry.
pub type EntryView = (TokenView, LocaValueView, Option<TokenView>);

/// An entry whose line could not be parsed: the rest of the line is skipped.
pub open spec fn lerror_line(c: LCtx, s: LS, key: TokenView) -> (LS, Option<EntryView>) {
    (lskip_line(c, s), Some((key, LocaValueView::Error, None)))
}

/// The context of the value parser for one token.
pub open spec fn token_ctx(t: TokenView, game: Game) -> VCtx {
    VCtx { toks: seq![t.0], locs: seq![t.1], game }
}

/// The language header.
pub open spec fn header(c: LCtx) -> Seq<char> {
    "l_"@ + c.language
}

/// The value of an entry, from where its opening `"` was passed and its closing `"` is at `e`:
/// with macros, it is read as pieces to substitute; else the value parser reads it.
pub open spec fn lvalue_part(c: LCtx, s: LS, e: int, key: TokenView) -> (LS, Option<EntryView>) {
    let s9 = LS { loca_end: e, value: Seq::empty(), ..s };
    let token = (c.content.subrange(s9.pos, e), s9.loc);
    let (s10, failed) = if line_has_macros(c.content, s9.pos) {
        let t = lmacros(c, s9, Seq::empty(), s9.pos, s9.loc);
        (t, t.value.len() > 0 && t.value.last() == LocaValueView::Error)
    } else {
        let r = sp_vec(token_ctx(token, c.game), vs_start());
        (LS { value: r.value, reports: s9.reports + r.reports, ..lskip_to(c, s9, e) }, false)
    };
    if failed {
        lerror_line(c, s10, key)
    } else {
        let s11 = lscan(c, s10, lrun_stop(LRun::LineSpace));
        let s12 = match lpeek(c, s11) {
            Some(x) => {
                if x == '#' || x == '\n' {
                    s11
                } else {
                    lreport(
                        s11,
                        simple_report(
                            ErrorKey::Localization,
                            Severity::Warning,
                            Confidence::Strong,
                            "content after final `\"` on line"@,
                            None,
                            s11.loc,
                        ),
                    )
                }
            },
            None => s11,
        };
        let s13 = lskip_line(c, s12);
        (LS { value: Seq::empty(), ..s13 }, Some((key, single_or_concat(s13.value), Some(token))))
    }
}

/// The next entry of the file, if any, from where the parser is. A line with a key and no
/// value is the language header where one is expected.
pub open spec fn lentry(c: LCtx, s: LS) -> (LS, Option<EntryView>)
    decreases if s.expecting {
        1int
    } else {
        0int
    },
{
    let s1 = lskip_until_key(c, s);
    if lpeek(c, s1) is None {
        (s1, None)
    } else {
        let (s2, key) = lget_key(c, s1);
        let s3 = lscan(c, s2, lrun_stop(LRun::LineSpace));
        if lpeek(c, s3) != Some(':') {
            lerror_line(c, lunexpected(c, s3, "expected `:`"@), key)
        } else {
            let s5 = lscan(c, lnext(c, s3), lrun_stop(LRun::Digits));
            let s6 = lscan(c, s5, lrun_stop(LRun::LineSpace));
            let ch = lpeek(c, s6);
            if ch is None || ch == Some('#') || ch == Some('\n') {
                if s6.expecting {
                    let s7 = if key.0 != header(c) {
                        lreport(
                            s6,
                            vwarn(
                                ErrorKey::Localization,
                                "wrong language header, should be `"@ + header(c) + ":`"@,
                                key.1,
                            ),
                        )
                    } else {
                        s6
                    };
                    let s8 = lskip_line(c, LS { expecting: false, ..s7 });
                    if !s8.expecting && s.expecting {
                        lentry(c, s8)
                    } else {
                        (s8, None)
                    }
                } else {
                    lerror_line(c, lreport(s6, vwarn(ErrorKey::Localization, "key with no value"@, key.1)), key)
                }
            } else {
                let s7 = if s6.expecting {
                    LS {
                        expecting: false,
                        ..lreport(
                            s6,
                            vwarn(ErrorKey::Localization, "expected language header `"@ + header(c) + ":`"@, key.1),
                        )
                    }
                } else {
                    s6
                };
                if lpeek(c, s7) != Some('"') {
                    lerror_line(c, lunexpected(c, s7, "expected `\"`"@), key)
                } else {
                    let s8 = lnext(c, s7);
                    match last_dquote(c.content, s8.pos, None) {
                        None => lerror_line(
                            c,
                            lreport(s8, vwarn(ErrorKey::Localization, "localization entry without ending quote"@, s8.loc)),
                            key,
                        ),
                        Some(e) => lvalue_part(c, s8, e, key),
                    }
                }
            }
        }
    }
}

/// The chars that the key law below speaks of: alphanumerics, `-`, `_`, `.` and `'`.
pub open spec fn key_law_char(x: char) -> bool {
    unicode_alphanumeric(x) || x == '-' || x == '_' || x == '.' || x == '\''
}

proof fn lemma_key_scan(c: LCtx, s: LS, n: int)
    requires
        0 <= s.pos,
        0 <= n,
        s.pos + n < c.content.len(),
        forall|i: int| s.pos <= i < s.pos + n ==> key_law_char(#[trigger] c.content[i]),
        !key_char(c.content[s.pos + n]),
    ensures
        lscan(c, s, lrun_stop(LRun::Key)).pos == s.pos + n,
        lscan(c, s, lrun_stop(LRun::Key)).expecting == s.expecting,
    decreases n,
{
    let stop = lrun_stop(LRun::Key);
    if n > 0 {
        assert(key_law_char(c.content[s.pos]));
        assert(!stop(c.content[s.pos]));
        lemma_key_scan(c, lnext(c, s), n - 1);
    } else {
        assert(stop(c.content[s.pos]));
    }
}

/// A key is read whole. Where the parser, not expecting the language header, stands at a run
/// of alphanumerics, `-`, `_`, `.` and `'` that is followed by `:`, the next entry is keyed by
/// exactly that run, at the parser's location. The conditions on the first char and on `:` are
/// facts of Unicode: no alphanumeric char is whitespace, and neither `#` nor `:` is
/// alphanumeric.
pub proof fn law_key_read_whole(c: LCtx, s: LS, n: int)
    requires
        !s.expecting,
        0 <= s.pos,
        n > 0,
        s.pos + n < c.content.len(),
        forall|i: int| s.pos <= i < s.pos + n ==> key_law_char(#[trigger] c.content[i]),
        !unicode_whitespace(c.content[s.pos]),
        c.content[s.pos] != '#',
        c.content[s.pos + n] == ':',
        !unicode_alphanumeric(':'),
    ensures
        lget_key(c, s).1 == (c.content.subrange(s.pos, s.pos + n), s.loc),
        lentry(c, s).1 matches Some(e) && e.0 == (c.content.subrange(s.pos, s.pos + n), s.loc),
{
    lemma_key_scan(c, s, n);
    let space = lrun_stop(LRun::Space);
    assert(!space(c.content[s.pos]) == false);
    assert(lscan(c, s, space) == s);
    assert(key_law_char(c.content[s.pos]));
    assert(lskip_until_key(c, s) == s);
    let (s2, key) = lget_key(c, s);
    let line_space = lrun_stop(LRun::LineSpace);
    assert(!unicode_whitespace(':'));
    assert(line_space(c.content[s2.pos]));
    assert(lscan(c, s2, line_space) == s2);
    assert(key == (c.content.subrange(s.pos, s.pos + n), s.loc));
    assert(lpeek(c, s2) == Some(':'));
    let s5 = lscan(c, lnext(c, s2), lrun_stop(LRun::Digits));
    lemma_lscan_expecting(c, lnext(c, s2), lrun_stop(LRun::Digits));
    let s6 = lscan(c, s5, line_space);
    lemma_lscan_expecting(c, s5, line_space);
    assert(!s6.expecting);
    let ch = lpeek(c, s6);
    if ch is None || ch == Some('#') || ch == Some('\n') {
        assert(lentry(c, s).1 == lerror_line(c, lreport(s6, vwarn(ErrorKey::Localization, "key with no value"@, key.1)), key).1);
    } else if lpeek(c, s6) != Some('"') {
        assert(lentry(c, s).1 == lerror_line(c, lunexpected(c, s6, "expected `\"`"@), key).1);
    } else {
        let s8 = lnext(c, s6);
        match last_dquote(c.content, s8.pos, None) {
            None => {},
            Some(e) => {
                assert(lentry(c, s) == lvalue_part(c, s8, e, key));
            },
        }
    }
}

/// Scanning keeps whether the header is expected.
proof fn lemma_lscan_expecting(c: LCtx, s: LS, stop: spec_fn(char) -> bool)
    ensures
        lscan(c, s, stop).expecting == s.expecting,
    decreases c.content.len() - s.pos,
{
    if 0 <= s.pos < c.content.len() && !stop(c.content[s.pos]) {
        lemma_lscan_expecting(c, lnext(c, s), stop);
    }
}

/// Where a new file parser starts: past a BOM (warning about a second one), or warning that
/// the BOM is missing.
pub open spec fn lstart(c: LCtx, loc: Loc) -> LS {
    let s0 = LS { pos: 0, loc, expecting: true, loca_end: 0, value: Seq::empty(), reports: Seq::empty() };
    if c.content.len() > 0 && c.content[0] == '\u{feff}' {
        let s1 = LS { pos: 1, loc: shifted(loc, 1), ..s0 };
        if c.content.len() > 1 && c.content[1] == '\u{feff}' {
            LS {
                pos: 2,
                loc: shifted(loc, 2),
                ..lreport(
                    s1,
                    simple_report(
                        ErrorKey::Encoding,
                        Severity::Warning,
                        Confidence::Strong,
                        "double BOM in localization file"@,
                        Some("This will make the game engine skip the whole file."@),
                        s1.loc,
                    ),
                )
            }
        } else {
            s1
        }
    } else {
        lreport(s0, vwarn(ErrorKey::Encoding, "Expected UTF-8 BOM encoding"@, loc))
    }
}

/// Small enough that no position, line or column can overflow.
pub open spec fn lbounded(c: LCtx, s: LS) -> bool {
    &&& c.content.len() <= 0x5555_5550
    &&& 0 <= s.pos <= c.content.len()
    &&& 1 <= s.loc.line <= s.pos + 1
    &&& 1 <= s.loc.column <= s.pos + 1
}

proof fn lemma_lnext(c: LCtx, s: LS)
    requires
        lbounded(c, s),
    ensures
        lbounded(c, lnext(c, s)),
        lnext(c, s).pos == if s.pos < c.content.len() { s.pos + 1 } else { s.pos },
        lnext(c, s).expecting == s.expecting,
        lnext(c, s).loca_end == s.loca_end,
        lnext(c, s).value == s.value,
        lnext(c, s).reports == s.reports,
{
}

proof fn lemma_lscan(c: LCtx, s: LS, stop: spec_fn(char) -> bool)
    requires
        lbounded(c, s),
    ensures
        lbounded(c, lscan(c, s, stop)),
        s.pos <= lscan(c, s, stop).pos,
        lscan(c, s, stop).expecting == s.expecting,
        lscan(c, s, stop).loca_end == s.loca_end,
        lscan(c, s, stop).value == s.value,
        lscan(c, s, stop).reports == s.reports,
    decreases c.content.len() - s.pos,
{
    if 0 <= s.pos < c.content.len() && !stop(c.content[s.pos]) {
        lemma_lnext(c, s);
        lemma_lscan(c, lnext(c, s), stop);
    }
}

/// Moving past the rest of a line moves past at least one char where there is one, and keeps
/// the rest of the state.
proof fn lemma_lskip_line(c: LCtx, s: LS)
    requires
        lbounded(c, s),
        lpeek(c, s) is Some,
    ensures
        s.pos < lskip_line(c, s).pos <= c.content.len(),
{
    lemma_lscan(c, s, lrun_stop(LRun::Line));
    lemma_lnext(c, lscan(c, s, lrun_stop(LRun::Line)));
}

proof fn lemma_lskip_line_fields(c: LCtx, s: LS)
    requires
        lbounded(c, s),
    ensures
        lskip_line(c, s).expecting == s.expecting,
{
    lemma_lscan(c, s, lrun_stop(LRun::Line));
    lemma_lnext(c, lscan(c, s, lrun_stop(LRun::Line)));
}

proof fn lemma_lskip_until_key(c: LCtx, s: LS)
    requires
        lbounded(c, s),
    ensures
        lskip_until_key(c, s).expecting == s.expecting,
    decreases c.content.len() - s.pos,
{
    lemma_lscan(c, s, lrun_stop(LRun::Space));
    let s1 = lscan(c, s, lrun_stop(LRun::Space));
    if let Some(x) = lpeek(c, s1) {
        if !(x != '#' && key_char(x)) {
            let s2 = if x == '#' {
                lskip_line(c, s1)
            } else {
                lskip_line(c, lunexpected(c, s1, "expected localization key"@))
            };
            let t = if x == '#' { s1 } else { lunexpected(c, s1, "expected localization key"@) };
            lemma_lskip_line_fields(c, t);
            lemma_lskip_line(c, t);
            if s.pos < s2.pos <= c.content.len() {
                lemma_lscan(c, t, lrun_stop(LRun::Line));
                lemma_lnext(c, lscan(c, t, lrun_stop(LRun::Line)));
                lemma_lskip_until_key(c, s2);
            }
        }
    }
}

/// The last `"` found is a `"` at or after `i`.
proof fn lemma_last_dquote(t: Seq<char>, i: int, acc: Option<int>)
    requires
        0 <= i,
        acc matches Some(e) ==> 0 <= e < i && e < t.len(),
    ensures
        last_dquote(t, i, acc) matches Some(e) ==> (acc == Some(e) || (i <= e < t.len() && t[e] == '"')),
    decreases t.len() - i,
{
    if 0 <= i < t.len() {
        if t[i] == '"' {
            lemma_last_dquote(t, i + 1, Some(i));
        } else if t[i] != '\n' {
            lemma_last_dquote(t, i + 1, acc);
        }
    }
}

/// The content of an optional entry.
pub open spec fn opt_entry_view(r: Option<LocaEntry>) -> Option<EntryView> {
    match r {
        Some(e) => Some(entry_view(e)),
        None => None,
    }
}

/// Moving to a position depends only on where the parser is, and keeps the rest of the state.
proof fn lemma_lskip_to(c: LCtx, s: LS, t: LS, end: int)
    requires
        lbounded(c, s),
        t.pos == s.pos,
        t.loc == s.loc,
    ensures
        lskip_to(c, t, end) == (LS {
            pos: lskip_to(c, s, end).pos,
            loc: lskip_to(c, s, end).loc,
            ..t
        }),
    decreases c.content.len() - s.pos,
{
    if 0 <= s.pos <= end && s.pos < c.content.len() {
        lemma_lnext(c, s);
        lemma_lskip_to(c, lnext(c, s), lnext(c, t), end);
    }
}

/// The parser of a localization file.
struct LocaParser {
    content: Vec<char>,
    language: Vec<char>,
    game: Game,
    pos: usize,
    loc: Loc,
    expecting: bool,
    loca_end: usize,
    value: Vec<LocaValue>,
    reports: Vec<LogReport>,
}

impl LocaParser {
    closed spec fn ctx(&self) -> LCtx {
        LCtx { content: self.content@, language: self.language@, game: self.game }
    }

    closed spec fn st(&self) -> LS {
        LS {
            pos: self.pos as int,
            loc: self.loc,
            expecting: self.expecting,
            loca_end: self.loca_end as int,
            value: values_view(self.value@),
            reports: self.reports@.map_values(|r: LogReport| r@),
        }
    }

    closed spec fn wf(&self) -> bool {
        lbounded(self.ctx(), self.st())
    }

    fn peek(&self) -> (ch: Option<char>)
        requires
            self.wf(),
        ensures
            ch == lpeek(self.ctx(), self.st()),
    {
        if self.pos < self.content.len() {
            Some(self.content[self.pos])
        } else {
            None
        }
    }

    fn next_char(&mut self)
        requires
            old(self).wf(),
        ensures
            final(self).wf(),
            final(self).ctx() == old(self).ctx(),
            final(self).st() == lnext(old(self).ctx(), old(self).st()),
    {
        if self.pos < self.content.len() {
            if self.content[self.pos] == '\n' {
                self.loc.line = self.loc.line + 1;
                self.loc.column = 1;
            } else {
                self.loc.column = self.loc.column + 1;
            }
            self.pos = self.pos + 1;
        }
    }

    fn scan(&mut self, k: LRun)
        requires
            old(self).wf(),
        ensures
            final(self).wf(),
            final(self).ctx() == old(self).ctx(),
            final(self).st() == lscan(old(self).ctx(), old(self).st(), lrun_stop(k)),
    {
        let ghost c = self.ctx();
        let ghost s0 = self.st();
        while self.pos < self.content.len() && !stops_lrun(k, self.content[self.pos])
            invariant
                self.wf(),
                self.ctx() == c,
                lscan(c, self.st(), lrun_stop(k)) == lscan(c, s0, lrun_stop(k)),
            decreases self.content@.len() - self.pos,
        {
            self.next_char();
        }
    }

    fn skip_line(&mut self)
        requires
            old(self).wf(),
        ensures
            final(self).wf(),
            final(self).ctx() == old(self).ctx(),
            final(self).st() == lskip_line(old(self).ctx(), old(self).st()),
    {
        self.scan(LRun::Line);
        self.next_char();
    }

    fn add_report(&mut self, r: LogReport)
        requires
            old(self).wf(),
        ensures
            final(self).wf(),
            final(self).ctx() == old(self).ctx(),
            final(self).st() == lreport(old(self).st(), r@),
    {
        let ghost before = self.reports@;
        self.reports.push(r);
        proof {
            assert(self.reports@.map_values(|r: LogReport| r@) =~= before.map_values(|r: LogReport| r@).push(r@));
        }
    }

    fn add_value(&mut self, v: LocaValue)
        requires
            old(self).wf(),
        ensures
            final(self).wf(),
            final(self).ctx() == old(self).ctx(),
            final(self).st() == lvalue(old(self).st(), value_view(v)),
    {
        proof {
            lemma_values_view_push(self.value@, v);
        }
        self.value.push(v);
    }

    fn get_key(&mut self) -> (t: Token)
        requires
            old(self).wf(),
        ensures
            final(self).wf(),
            final(self).ctx() == old(self).ctx(),
            (final(self).st(), tv(t)) == lget_key(old(self).ctx(), old(self).st()),
    {
        let start = self.pos;
        let loc = self.loc;
        proof {
            lemma_lscan(self.ctx(), self.st(), lrun_stop(LRun::Key));
        }
        self.scan(LRun::Key);
        let s = string_from_chars(self.content.as_slice(), start, self.pos);
        Token::from_string(s, loc)
    }

    fn unexpected_char(&mut self, expected: &str)
        requires
            old(self).wf(),
        ensures
            final(self).wf(),
            final(self).ctx() == old(self).ctx(),
            final(self).st() == lunexpected(old(self).ctx(), old(self).st(), expected@),
    {
        let loc = self.loc;
        match self.peek() {
            None => {
                let msg = concat_str("Unexpected end of file, ", expected);
                let r = warn(ErrorKey::Localization).msg(msg.as_str()).loc(loc).build();
                self.add_report(r);
            },
            Some(x) => {
                let mut msg = string_of("Unexpected character `");
                string_push(&mut msg, x);
                let msg = concat_str(msg.as_str(), "`, ");
                let msg = concat_str(msg.as_str(), expected);
                proof {
                    assert(msg@ =~= unexpected_msg(x, expected@));
                }
                let r = warn(ErrorKey::Localization).msg(msg.as_str()).loc(loc).build();
                self.add_report(r);
            },
        }
    }

    fn find_dquote(&self) -> (r: Option<usize>)
        requires
            self.wf(),
        ensures
            r matches Some(e) ==> last_dquote(self.content@, self.pos as int, None) == Some(e as int),
            r is None ==> last_dquote(self.content@, self.pos as int, None) is None,
    {
        let mut i = self.pos;
        let mut acc: Option<usize> = None;
        while i < self.content.len()
            invariant
                self.wf(),
                self.pos <= i <= self.content@.len(),
                acc matches Some(e) ==> e < self.content@.len(),
                last_dquote(self.content@, i as int, match acc {
                    Some(e) => Some(e as int),
                    None => None,
                }) == last_dquote(self.content@, self.pos as int, None),
            decreases self.content@.len() - i,
        {
            if self.content[i] == '"' {
                acc = Some(i);
            } else if self.content[i] == '\n' {
                return acc;
            }
            i = i + 1;
        }
        acc
    }

    fn line_has_macros(&self) -> (b: bool)
        requires
            self.wf(),
        ensures
            b == line_has_macros(self.content@, self.pos as int),
    {
        let mut i = self.pos;
        while i < self.content.len()
            invariant
                self.wf(),
                self.pos <= i <= self.content@.len(),
                line_has_macros(self.content@, i as int) == line_has_macros(self.content@, self.pos as int),
            decreases self.content@.len() - i,
        {
            if self.content[i] == '\n' {
                return false;
            } else if self.content[i] == '$' {
                return true;
            }
            i = i + 1;
        }
        false
    }

    fn skip_format(&mut self)
        requires
            old(self).wf(),
        ensures
            final(self).wf(),
            final(self).ctx() == old(self).ctx(),
            final(self).st() == lformat(old(self).ctx(), old(self).st()),
    {
        if is_char(self.peek(), '|') {
            self.next_char();
            self.scan(LRun::Format);
        }
    }

    fn parse_keyword(&mut self) -> (r: Option<MacroValue>)
        requires
            old(self).wf(),
        ensures
            final(self).wf(),
            final(self).ctx() == old(self).ctx(),
            final(self).st() == lkeyword(old(self).ctx(), old(self).st()).0,
            lkeyword(old(self).ctx(), old(self).st()).1 == match r {
                Some(m) => Some(crate::localization::macro_view(m)),
                None => None,
            },
    {
        self.next_char();
        let key = self.get_key();
        self.skip_format();
        if !is_char(self.peek(), '$') {
            let r = warn(ErrorKey::Localization).weak().msg("didn't recognize a key between $").loc(key.loc).build();
            self.add_report(r);
            return None;
        }
        self.next_char();
        Some(MacroValue::Keyword(key))
    }

    fn text_piece(&self, start: usize, l: Loc) -> (m: MacroValue)
        requires
            self.wf(),
            start <= self.pos,
        ensures
            crate::localization::macro_view(m) == text_from(self.ctx(), start as int, l, self.st()),
    {
        let s = string_from_chars(self.content.as_slice(), start, self.pos);
        MacroValue::Text(Token::from_string(s, l))
    }


    fn skip_until_key(&mut self)
        requires
            old(self).wf(),
        ensures
            final(self).wf(),
            final(self).ctx() == old(self).ctx(),
            final(self).st() == lskip_until_key(old(self).ctx(), old(self).st()),
    {
        let ghost c = self.ctx();
        let ghost s0 = self.st();
        loop
            invariant_except_break
                self.wf(),
                self.ctx() == c,
                lskip_until_key(c, self.st()) == lskip_until_key(c, s0),
            ensures
                self.wf(),
                self.ctx() == c,
                self.st() == lskip_until_key(c, s0),
            decreases self.content@.len() - self.pos,
        {
            let ghost cur = self.st();
            proof {
                lemma_lscan(c, cur, lrun_stop(LRun::Space));
            }
            self.scan(LRun::Space);
            match self.peek() {
                Some(x) => {
                    if x != '#' && is_key_char(x) {
                        break;
                    }
                    if x != '#' {
                        self.unexpected_char("expected localization key");
                    }
                    proof {
                        lemma_lskip_line(c, self.st());
                    }
                    self.skip_line();
                },
                None => {
                    break;
                },
            }
        }
    }

    fn skip_to(&mut self, end: usize)
        requires
            old(self).wf(),
        ensures
            final(self).wf(),
            final(self).ctx() == old(self).ctx(),
            final(self).st() == lskip_to(old(self).ctx(), old(self).st(), end as int),
    {
        let ghost c = self.ctx();
        let ghost s0 = self.st();
        while self.pos <= end && self.pos < self.content.len()
            invariant
                self.wf(),
                self.ctx() == c,
                lskip_to(c, self.st(), end as int) == lskip_to(c, s0, end as int),
            decreases self.content@.len() - self.pos,
        {
            self.next_char();
        }
    }

    /// `"l_"` and the language, as a string.
    fn header(&self) -> (h: String)
        ensures
            h@ == header(self.ctx()),
    {
        let lang = string_from_chars(self.language.as_slice(), 0, self.language.len());
        proof {
            assert(self.language@.subrange(0, self.language@.len() as int) =~= self.language@);
        }
        concat_str("l_", lang.as_str())
    }

    /// Report `msg` at `loc`, with `header` and `:` between its two parts.
    fn header_report(&mut self, before: &str, loc: Loc)
        requires
            old(self).wf(),
        ensures
            final(self).wf(),
            final(self).ctx() == old(self).ctx(),
            final(self).st() == lreport(
                old(self).st(),
                vwarn(ErrorKey::Localization, before@ + header(old(self).ctx()) + ":`"@, loc),
            ),
    {
        let h = self.header();
        let msg = concat_str(before, h.as_str());
        let msg = concat_str(msg.as_str(), ":`");
        let r = warn(ErrorKey::Localization).msg(msg.as_str()).loc(loc).build();
        self.add_report(r);
    }

    /// Skip the rest of the line after a key whose line could not be parsed.
    fn error_line(&mut self, key: Token) -> (r: Option<LocaEntry>)
        requires
            old(self).wf(),
        ensures
            final(self).wf(),
            final(self).ctx() == old(self).ctx(),
            (final(self).st(), opt_entry_view(r)) == lerror_line(old(self).ctx(), old(self).st(), tv(key)),
    {
        self.skip_line();
        Some(LocaEntry::new(key, LocaValue::Error, None))
    }

    /// The value of an entry whose closing `"` is at `e`.
    fn value_part(&mut self, e: usize, key: Token) -> (r: Option<LocaEntry>)
        requires
            old(self).wf(),
            old(self).pos <= e < old(self).content@.len(),
        ensures
            final(self).wf(),
            final(self).ctx() == old(self).ctx(),
            (final(self).st(), opt_entry_view(r)) == lvalue_part(old(self).ctx(), old(self).st(), e as int, tv(key)),
    {
        let ghost c = self.ctx();
        self.loca_end = e;
        self.value = Vec::new();
        proof {
            assert(values_view(self.value@) =~= Seq::<LocaValueView>::empty());
        }
        let ghost s9 = self.st();
        let text = string_from_chars(self.content.as_slice(), self.pos, e);
        let token = Token::from_string(text, self.loc);
        if self.line_has_macros() {
            self.parse_macros();
            let n = self.value.len();
            proof {
                lemma_values_view_len(self.value@);
            }
            if n > 0 && matches!(self.value[n - 1], LocaValue::Error) {
                return self.error_line(key);
            }
        } else {
            let mut content: Vec<&Token> = Vec::new();
            content.push(&token);
            proof {
                let vc = vctx_of(content@, self.game);
                assert(vc.toks =~= seq![token@]);
                assert(vc.locs =~= seq![token.loc]);
                assert(suffix_len(vc.toks, 1) == 0);
                assert(total(vc) == token@.len());
            }
            let vp = ValueParser::new(content, self.game);
            let (vals, reps) = vp.parse_vec_and_reports();
            self.value = vals;
            let mut i: usize = 0;
            let ghost base = self.st();
            while i < reps.len()
                invariant
                    self.wf(),
                    self.ctx() == c,
                    i <= reps@.len(),
                    self.st() == (LS {
                        reports: base.reports + reps@.take(i as int).map_values(|x: LogReport| x@),
                        ..base
                    }),
                decreases reps.len() - i,
            {
                let r = reps[i].copy();
                self.add_report(r);
                proof {
                    assert(reps@.take(i + 1).map_values(|x: LogReport| x@) =~= reps@.take(i as int).map_values(
                        |x: LogReport| x@,
                    ).push(r@));
                }
                i = i + 1;
            }
            proof {
                assert(reps@.take(reps@.len() as int) =~= reps@);
                assert(token_ctx((token@, token.loc), c.game) == vctx_of(content@, c.game));
                lemma_lskip_to(c, s9, self.st(), e as int);
                lemma_lskip_to(c, s9, s9, e as int);
            }
            self.skip_to(e);
        }
        proof {
            let tokv = (c.content.subrange(s9.pos, e as int), s9.loc);
            assert(tokv == (token@, token.loc));
            if !line_has_macros(c.content, s9.pos) {
                let r = sp_vec(token_ctx(tokv, c.game), vs_start());
                assert(self.st() == (LS { value: r.value, reports: s9.reports + r.reports, ..lskip_to(c, s9, e as int) }));
            } else {
                assert(self.st() == lmacros(c, s9, Seq::empty(), s9.pos, s9.loc));
            }
        }
        self.scan(LRun::LineSpace);
        match self.peek() {
            Some(x) => {
                if x != '#' && x != '\n' {
                    let loc = self.loc;
                    let r = warn(ErrorKey::Localization).strong().msg("content after final `\"` on line").loc(loc).build();
                    self.add_report(r);
                }
            },
            None => {},
        }
        self.skip_line();
        proof {
            lemma_values_view_len(self.value@);
        }
        let value = if self.value.len() == 1 {
            let ghost all = self.value@;
            let v = self.value.remove(0);
            proof {
                assert(values_view(all)[0] == value_view(v));
                assert(values_view(self.value@) =~= Seq::<LocaValueView>::empty());
            }
            v
        } else {
            let mut v: Vec<LocaValue> = Vec::new();
            std::mem::swap(&mut v, &mut self.value);
            proof {
                assert(values_view(self.value@) =~= Seq::<LocaValueView>::empty());
            }
            LocaValue::Concat(v)
        };
        Some(LocaEntry::new(key, value, Some(token)))
    }

    /// The next entry of the file, if any.
    fn parse_loca(&mut self) -> (r: Option<LocaEntry>)
        requires
            old(self).wf(),
        ensures
            final(self).wf(),
            final(self).ctx() == old(self).ctx(),
            (final(self).st(), opt_entry_view(r)) == lentry(old(self).ctx(), old(self).st()),
    {
        let ghost c = self.ctx();
        let ghost s0 = self.st();
        let mut result: Option<LocaEntry> = None;
        loop
            invariant_except_break
                self.wf(),
                self.ctx() == c,
                lentry(c, self.st()) == lentry(c, s0),
            ensures
                self.wf(),
                self.ctx() == c,
                (self.st(), opt_entry_view(result)) == lentry(c, s0),
            decreases if self.expecting {
                1int
            } else {
                0int
            },
        {
            let ghost cur = self.st();
            proof {
                lemma_lskip_until_key(c, cur);
            }
            self.skip_until_key();
            if self.peek().is_none() {
                result = None;
                break;
            }
            let ghost s1 = self.st();
            proof {
                lemma_lscan(c, s1, lrun_stop(LRun::Key));
            }
            let key = self.get_key();
            proof {
                lemma_lscan(c, self.st(), lrun_stop(LRun::LineSpace));
            }
            self.scan(LRun::LineSpace);
            if !is_char(self.peek(), ':') {
                self.unexpected_char("expected `:`");
                result = self.error_line(key);
                break;
            }
            proof {
                lemma_lnext(c, self.st());
            }
            self.next_char();
            proof {
                lemma_lscan(c, self.st(), lrun_stop(LRun::Digits));
            }
            self.scan(LRun::Digits);
            proof {
                lemma_lscan(c, self.st(), lrun_stop(LRun::LineSpace));
            }
            self.scan(LRun::LineSpace);
            let ch = self.peek();
            if ch.is_none() || is_char(ch, '#') || is_char(ch, '\n') {
                if self.expecting {
                    let h = self.header();
                    if !crate::text::str_eq(key.as_str(), h.as_str()) {
                        self.header_report("wrong language header, should be `", key.loc);
                    }
                    self.expecting = false;
                    proof {
                        lemma_lskip_line_fields(c, self.st());
                    }
                    self.skip_line();
                    continue;
                }
                let r = warn(ErrorKey::Localization).msg("key with no value").loc(key.loc).build();
                self.add_report(r);
                result = self.error_line(key);
                break;
            } else if self.expecting {
                self.header_report("expected language header `", key.loc);
                self.expecting = false;
            }
            if !is_char(self.peek(), '"') {
                self.unexpected_char("expected `\"`");
                result = self.error_line(key);
                break;
            }
            self.next_char();
            match self.find_dquote() {
                None => {
                    let loc = self.loc;
                    let r = warn(ErrorKey::Localization).msg("localization entry without ending quote").loc(loc).build();
                    self.add_report(r);
                    result = self.error_line(key);
                    break;
                },
                Some(e) => {
                    proof {
                        lemma_last_dquote(self.content@, self.pos as int, None);
                    }
                    result = self.value_part(e, key);
                    break;
                },
            }
        }
        result
    }

    fn parse_macros(&mut self)
        requires
            old(self).wf(),
        ensures
            final(self).wf(),
            final(self).ctx() == old(self).ctx(),
            final(self).st() == lmacros(old(self).ctx(), old(self).st(), Seq::empty(), old(self).pos as int, old(self).loc),
    {
        let ghost c = self.ctx();
        let ghost s0 = self.st();
        let mut v: Vec<MacroValue> = Vec::new();
        let mut start = self.pos;
        let mut l = self.loc;
        proof {
            assert(macros_view(v@) =~= Seq::<MacroValueView>::empty());
        }
        loop
            invariant_except_break
                self.wf(),
                self.ctx() == c,
                start <= self.pos,
                lmacros(c, self.st(), macros_view(v@), start as int, l) == lmacros(c, s0, Seq::empty(), s0.pos, s0.loc),
            ensures
                self.wf(),
                self.ctx() == c,
                self.st() == lmacros(c, s0, Seq::empty(), s0.pos, s0.loc),
            decreases self.content@.len() - self.pos,
        {
            match self.peek() {
                Some(x) => {
                    if x == '$' {
                        let t = self.text_piece(start, l);
                        proof {
                            assert(macros_view(v@.push(t)) =~= macros_view(v@).push(crate::localization::macro_view(t)));
                        }
                        v.push(t);
                        let ghost before = self.st();
                        match self.parse_keyword() {
                            None => {
                                self.add_value(LocaValue::Error);
                                break;
                            },
                            Some(k) => {
                                proof {
                                    lemma_lnext(c, before);
                                    let s1 = lnext(c, before);
                                    lemma_lscan(c, s1, lrun_stop(LRun::Key));
                                    let s2 = lscan(c, s1, lrun_stop(LRun::Key));
                                    if lpeek(c, s2) == Some('|') {
                                        lemma_lnext(c, s2);
                                        lemma_lscan(c, lnext(c, s2), lrun_stop(LRun::Format));
                                    }
                                    assert(macros_view(v@.push(k)) =~= macros_view(v@).push(crate::localization::macro_view(k)));
                                }
                                v.push(k);
                                start = self.pos;
                                l = self.loc;
                            },
                        }
                    } else if x == '"' && self.pos == self.loca_end {
                        let t = self.text_piece(start, l);
                        proof {
                            assert(macros_view(v@.push(t)) =~= macros_view(v@).push(crate::localization::macro_view(t)));
                        }
                        v.push(t);
                        self.add_value(LocaValue::Macro(v));
                        self.next_char();
                        break;
                    } else {
                        self.next_char();
                    }
                },
                None => {
                    let t = self.text_piece(start, l);
                    proof {
                        assert(macros_view(v@.push(t)) =~= macros_view(v@).push(crate::localization::macro_view(t)));
                    }
                    v.push(t);
                    self.add_value(LocaValue::Macro(v));
                    break;
                },
            }
        }
    }
}

/// Reads the entries of a localization file one by one.
pub struct LocaReader {
    parser: LocaParser,
}

impl LocaReader {
    /// What the reader reads.
    pub closed spec fn ctx(&self) -> LCtx {
        self.parser.ctx()
    }

    /// Where the reader is.
    pub closed spec fn st(&self) -> LS {
        self.parser.st()
    }

    /// The reader's invariant: its reports have all been logged.
    pub closed spec fn wf(&self) -> bool {
        self.parser.wf() && self.parser.reports@.len() == 0
    }

    /// The next entry of the file, if there is one; what was found wrong on the way is logged.
    pub fn next_entry(&mut self, errors: &mut Errors) -> (r: Option<LocaEntry>)
        requires
            old(self).wf(),
        ensures
            final(self).wf(),
            final(self).ctx() == old(self).ctx(),
            final(self).st() == (LS { reports: Seq::empty(), ..lentry(old(self).ctx(), old(self).st()).0 }),
            opt_entry_view(r) == lentry(old(self).ctx(), old(self).st()).1,
            final(errors).logged(old(errors), lentry(old(self).ctx(), old(self).st()).0.reports),
    {
        proof {
            assert(self.parser.st().reports =~= Seq::<ReportView>::empty());
        }
        let r = self.parser.parse_loca();
        proof {
            assert(self.parser.st().reports =~= Seq::<ReportView>::empty() + self.parser.reports@.map_values(
                |x: LogReport| x@,
            ));
        }
        log_reports(&self.parser.reports, errors);
        self.parser.reports = Vec::new();
        proof {
            assert(self.parser.reports@.map_values(|x: LogReport| x@) =~= Seq::<ReportView>::empty());
        }
        r
    }
}

/// The context of a file parser.
pub open spec fn lctx_of(content: Seq<char>, language: Seq<char>, game: Game) -> LCtx {
    LCtx { content, language, game }
}

/// Start reading the localization file `content` for `language` (such as `english`), whose
/// location is `loc`. A missing BOM, or a second one, is logged.
pub fn parse_loca(loc: Loc, content: &str, language: &str, game: Game, errors: &mut Errors) -> (r: LocaReader)
    requires
        content@.len() <= 0x5555_5550,
    ensures
        r.wf(),
        r.ctx() == lctx_of(content@, language@, game),
        r.st() == (LS {
            reports: Seq::empty(),
            ..lstart(lctx_of(content@, language@, game), Loc { line: 1, column: 1, ..loc })
        }),
        final(errors).logged(
            old(errors),
            lstart(lctx_of(content@, language@, game), Loc { line: 1, column: 1, ..loc }).reports,
        ),
{
    let mut loc = loc;
    loc.line = 1;
    loc.column = 1;
    let chars = chars_of(content);
    let lang = chars_of(language);
    let mut reports: Vec<LogReport> = Vec::new();
    let mut pos: usize = 0;
    if chars.len() > 0 && chars[0] == '\u{feff}' {
        pos = 1;
        loc.column = loc.column + 1;
        if chars.len() > 1 && chars[1] == '\u{feff}' {
            proof {
                reveal_strlit("This will make the game engine skip the whole file.");
            }
            let r = warn(ErrorKey::Encoding).strong().msg("double BOM in localization file").info(
                "This will make the game engine skip the whole file.",
            ).loc(loc).build();
            reports.push(r);
            pos = 2;
            loc.column = loc.column + 1;
        }
    } else {
        let r = warn(ErrorKey::Encoding).msg("Expected UTF-8 BOM encoding").loc(loc).build();
        reports.push(r);
    }
    log_reports(&reports, errors);
    let parser = LocaParser {
        content: chars,
        language: lang,
        game,
        pos,
        loc,
        expecting: true,
        loca_end: 0,
        value: Vec::new(),
        reports: Vec::new(),
    };
    proof {
        assert(values_view(parser.value@) =~= Seq::<LocaValueView>::empty());
        assert(parser.reports@.map_values(|x: LogReport| x@) =~= Seq::<ReportView>::empty());
        let c = lctx_of(content@, language@, game);
        assert(reports@.map_values(|x: LogReport| x@) =~= lstart(c, Loc { line: 1, column: 1, ..loc }).reports);
    }
    LocaReader { parser }
}

/// The number of chars in all the tokens.
pub open spec fn total(c: VCtx) -> int {
    suffix_len(c.toks, 0)
}

/// Small enough that no count or column can overflow.
pub open spec fn bounded(c: VCtx) -> bool {
    forall|k: int|
        0 <= k < c.locs.len() ==> #[trigger] c.locs[k].column + 2 * total(c) + 2 <= u32::MAX && c.locs[k].line
            + total(c) <= u32::MAX
}

/// What a value parser reads when it is made of `content`.
pub open spec fn vctx_of(content: Seq<&Token>, game: Game) -> VCtx {
    VCtx { toks: content.map_values(|t: &Token| t@), locs: content.map_values(|t: &Token| t.loc), game }
}

/// The state of a new parser.
pub open spec fn vs_start() -> VS {
    VS { idx: 0, off: 0, value: Seq::empty(), reports: Seq::empty() }
}

proof fn lemma_suffix_covers(t: Seq<Seq<char>>, i: int, k: int)
    requires
        0 <= i <= k < t.len(),
    ensures
        t[k].len() <= suffix_len(t, i),
        suffix_len(t, k) <= suffix_len(t, i),
    decreases k - i,
{
    lemma_suffix_nonneg(t, k + 1);
    if i < k {
        lemma_suffix_covers(t, i + 1, k);
        lemma_suffix_nonneg(t, i + 1);
    }
}

/// Whether the looked-at char is `x`.
fn is_char(ch: Option<char>, x: char) -> (b: bool)
    ensures
        b == (ch == Some(x)),
{
    match ch {
        Some(y) => y == x,
        None => false,
    }
}

/// The content of an optional token.
pub open spec fn opt_tv(t: Option<Token>) -> Option<TokenView> {
    crate::localization::opt_tv(t)
}

/// A location where a piece of the value can start without its columns or lines overflowing.
pub open spec fn loc_ok(c: VCtx, l: Loc) -> bool {
    l.column + total(c) + 2 <= u32::MAX && l.line + total(c) <= u32::MAX
}

/// A markup state whose value is at most `n` chars and whose braces are at most `n`.
pub open spec fn mstate_ok(c: VCtx, m: MState, n: int) -> bool {
    match m {
        MState::InKey(_) => true,
        MState::InValue(_, v, l, bc) => loc_ok(c, l) && v.len() <= n && 0 <= bc <= n,
    }
}

/// A text that has a `ch` is cut in at least two pieces.
proof fn lemma_split_two(s: Seq<char>, ch: char)
    ensures
        split_starts(s, ch).len() >= 1,
        s.contains(ch) ==> split_starts(s, ch).len() >= 2,
    decreases s.len(),
{
    if s.len() > 0 {
        lemma_split_two(s.drop_last(), ch);
        if s.contains(ch) && s.last() != ch {
            let i = choose|i: int| 0 <= i < s.len() && s[i] == ch;
            assert(s.drop_last()[i] == ch);
        }
    }
}

/// Whether `v` has the char `x`.
fn vec_has(v: &Vec<char>, x: char) -> (b: bool)
    ensures
        b == v@.contains(x),
{
    let mut i: usize = 0;
    while i < v.len()
        invariant
            i <= v@.len(),
            forall|j: int| 0 <= j < i ==> v@[j] != x,
        decreases v.len() - i,
    {
        if v[i] == x {
            return true;
        }
        i = i + 1;
    }
    false
}

/// The exec form of a markup state.
enum MExec {
    InKey(Vec<char>),
    InValue(Vec<char>, Vec<char>, Loc, usize),
}

spec fn mview(m: MExec) -> MState {
    match m {
        MExec::InKey(k) => MState::InKey(k@),
        MExec::InValue(k, v, l, bc) => MState::InValue(k@, v@, l, bc as int),
    }
}

/// Whether a markup key is `tooltip`, in any ASCII case.
fn is_tooltip_key(k: &Vec<char>) -> (b: bool)
    ensures
        b == tooltip_key(k@),
{
    let lower = vec_ascii_lowercase(k);
    let t = chars_of("tooltip");
    seq_eq(&lower, &t)
}

/// A parser for localization values, which may run over several tokens.
pub struct ValueParser {
    toks: Vec<Vec<char>>,
    locs: Vec<Loc>,
    game: Game,
    idx: usize,
    off: usize,
    loc: Loc,
    value: Vec<LocaValue>,
    reports: Vec<LogReport>,
}

impl ValueParser {
    /// What the parser reads.
    pub closed spec fn ctx(&self) -> VCtx {
        VCtx { toks: self.toks@.map_values(|v: Vec<char>| v@), locs: self.locs@, game: self.game }
    }

    /// Where the parser is, and what it has parsed and reported.
    pub closed spec fn st(&self) -> VS {
        VS {
            idx: self.idx as int,
            off: self.off as int,
            value: values_view(self.value@),
            reports: self.reports@.map_values(|r: LogReport| r@),
        }
    }

    /// The parser's invariant.
    pub closed spec fn wf(&self) -> bool {
        &&& self.toks@.len() == self.locs@.len()
        &&& self.toks@.len() > 0
        &&& valid(self.ctx(), self.st())
        &&& self.loc == loc_of(self.ctx(), self.st())
        &&& bounded(self.ctx())
    }

    /// A parser for the text of the tokens in `content`, in order.
    pub fn new(content: Vec<&Token>, game: Game) -> (p: Self)
        requires
            content@.len() > 0,
            bounded(vctx_of(content@, game)),
        ensures
            p.wf(),
            p.ctx() == vctx_of(content@, game),
            p.st() == vs_start(),
    {
        let mut toks: Vec<Vec<char>> = Vec::new();
        let mut locs: Vec<Loc> = Vec::new();
        let mut i: usize = 0;
        while i < content.len()
            invariant
                i <= content@.len(),
                toks@.len() == i,
                locs@.len() == i,
                forall|k: int| 0 <= k < i ==> #[trigger] toks@[k]@ == content@[k]@,
                forall|k: int| 0 <= k < i ==> #[trigger] locs@[k] == content@[k].loc,
            decreases content@.len() - i,
        {
            toks.push(content[i].chars());
            locs.push(content[i].loc);
            i = i + 1;
        }
        let loc = locs[0];
        let p = ValueParser { toks, locs, game, idx: 0, off: 0, loc, value: Vec::new(), reports: Vec::new() };
        proof {
            assert(p.ctx().toks =~= vctx_of(content@, game).toks);
            assert forall|k: int| 0 <= k < p.ctx().locs.len() implies p.ctx().locs[k] == vctx_of(content@, game).locs[k] by {
                assert(locs@[k] == content@[k].loc);
            }
            assert(p.ctx().locs =~= vctx_of(content@, game).locs);
            assert(p.st().reports =~= Seq::<ReportView>::empty());
            assert(p.st().value =~= Seq::<LocaValueView>::empty());
        }
        p
    }

    proof fn lemma_wf(&self)
        requires
            self.wf(),
        ensures
            self.ctx().toks.len() == self.toks@.len(),
            self.ctx().locs.len() == self.toks@.len(),
            forall|k: int| 0 <= k < self.toks@.len() ==> #[trigger] self.ctx().toks[k] == self.toks@[k]@,
            self.idx < self.toks@.len(),
            self.toks@[self.idx as int]@.len() <= total(self.ctx()),
    {
        lemma_suffix_covers(self.ctx().toks, 0, self.idx as int);
    }

    proof fn lemma_rem_bound(&self)
        requires
            self.wf(),
        ensures
            rem(self.ctx(), self.st()) <= 0x7fff_fffe,
    {
        lemma_suffix_covers(self.ctx().toks, 0, self.idx as int);
        assert(self.ctx().locs[0].column + 2 * total(self.ctx()) + 2 <= u32::MAX);
    }

    fn peek(&mut self) -> (ch: Option<char>)
        requires
            old(self).wf(),
        ensures
            final(self).wf(),
            final(self).ctx() == old(self).ctx(),
            (final(self).st(), ch) == sp_peek(old(self).ctx(), old(self).st()),
    {
        let ghost c = self.ctx();
        let ghost s0 = self.st();
        proof {
            self.lemma_wf();
        }
        let mut result: Option<char> = None;
        loop
            invariant_except_break
                self.wf(),
                self.ctx() == c,
                self.st().value == s0.value,
                self.st().reports == s0.reports,
                norm(c, self.idx as int, self.off as int) == norm(c, s0.idx, s0.off),
            ensures
                self.wf(),
                self.ctx() == c,
                (self.st(), result) == sp_peek(c, s0),
            decreases self.toks@.len() - self.idx,
        {
            proof {
                self.lemma_wf();
            }
            if self.off < self.toks[self.idx].len() {
                result = Some(self.toks[self.idx][self.off]);
                break;
            }
            if self.idx == self.toks.len() - 1 {
                result = None;
                break;
            }
            self.idx = self.idx + 1;
            self.off = 0;
            self.loc = self.locs[self.idx];
        }
        result
    }

    fn next_char(&mut self)
        requires
            old(self).wf(),
        ensures
            final(self).wf(),
            final(self).ctx() == old(self).ctx(),
            final(self).st() == sp_next(old(self).ctx(), old(self).st()),
    {
        if self.peek().is_some() {
            proof {
                self.lemma_wf();
                let k = self.idx as int;
                assert(self.ctx().locs[k].column + total(self.ctx()) + 2 <= u32::MAX);
            }
            self.off = self.off + 1;
            self.loc.column = self.loc.column + 1;
        }
    }

    fn add_report(&mut self, r: LogReport)
        requires
            old(self).wf(),
        ensures
            final(self).wf(),
            final(self).ctx() == old(self).ctx(),
            final(self).st() == with_report(old(self).st(), r@),
    {
        let ghost before = self.reports@;
        self.reports.push(r);
        proof {
            assert(self.reports@.map_values(|r: LogReport| r@) =~= before.map_values(|r: LogReport| r@).push(r@));
        }
    }

    fn add_value(&mut self, v: LocaValue)
        requires
            old(self).wf(),
        ensures
            final(self).wf(),
            final(self).ctx() == old(self).ctx(),
            final(self).st() == with_value(old(self).st(), crate::localization::value_view(v)),
    {
        let ghost before = self.value@;
        proof {
            lemma_values_view_push(before, v);
        }
        self.value.push(v);
    }

    fn warn_at(&mut self, key: ErrorKey, msg: &str, loc: Loc)
        requires
            old(self).wf(),
        ensures
            final(self).wf(),
            final(self).ctx() == old(self).ctx(),
            final(self).st() == with_report(old(self).st(), vwarn(key, msg@, loc)),
    {
        let r = warn(key).msg(msg).loc(loc).build();
        self.add_report(r);
    }

    fn unexpected_char(&mut self, expected: &str, key: ErrorKey)
        requires
            old(self).wf(),
        ensures
            final(self).wf(),
            final(self).ctx() == old(self).ctx(),
            final(self).st() == sp_unexpected(old(self).ctx(), old(self).st(), expected@, key),
    {
        let ch = self.peek();
        let x = match ch {
            Some(x) => x,
            None => ' ',
        };
        let mut msg = string_of("Unexpected character `");
        string_push(&mut msg, x);
        let msg = concat_str(msg.as_str(), "`, ");
        let msg = concat_str(msg.as_str(), expected);
        proof {
            assert(msg@ =~= unexpected_msg(x, expected@));
        }
        let loc = self.loc;
        self.warn_at(key, msg.as_str(), loc);
    }

    /// Read a run of chars of the kind.
    fn run(&mut self, k: Run) -> (t: Token)
        requires
            old(self).wf(),
        ensures
            final(self).wf(),
            final(self).ctx() == old(self).ctx(),
            (final(self).st(), tv(t)) == sp_run(old(self).ctx(), old(self).st(), k),
            rem(old(self).ctx(), final(self).st()) <= rem(old(self).ctx(), old(self).st()),
    {
        let ghost c = self.ctx();
        let ghost s0 = self.st();
        let loc = self.loc;
        let mut text = String::new();
        proof {
            assert(text@ =~= Seq::<char>::empty());
        }
        loop
            invariant_except_break
                self.wf(),
                self.ctx() == c,
                sp_scan(c, self.st(), run_stop(k), text@) == sp_scan(c, s0, run_stop(k), Seq::empty()),
                rem(c, self.st()) <= rem(c, s0),
            ensures
                self.wf(),
                self.ctx() == c,
                (self.st(), text@) == sp_scan(c, s0, run_stop(k), Seq::empty()),
                rem(c, self.st()) <= rem(c, s0),
            decreases rem(self.ctx(), self.st()),
        {
            let ghost before = self.st();
            proof {
                lemma_peek(c, before);
            }
            let ch = self.peek();
            match ch {
                Some(x) => {
                    if stops_run(k, x) {
                        break;
                    }
                    string_push(&mut text, x);
                    proof {
                        lemma_peek(c, self.st());
                    }
                    self.next_char();
                },
                None => {
                    break;
                },
            }
        }
        Token::from_string(text, loc)
    }

    /// Skip whitespace.
    fn skip_whitespace(&mut self)
        requires
            old(self).wf(),
        ensures
            final(self).wf(),
            final(self).ctx() == old(self).ctx(),
            final(self).st() == sp_skip_ws(old(self).ctx(), old(self).st()),
            rem(old(self).ctx(), final(self).st()) <= rem(old(self).ctx(), old(self).st()),
    {
        let _ = self.run(Run::Space);
    }

    fn parse_format(&mut self) -> (f: Option<Token>)
        requires
            old(self).wf(),
        ensures
            final(self).wf(),
            final(self).ctx() == old(self).ctx(),
            (final(self).st(), opt_tv(f)) == sp_format(old(self).ctx(), old(self).st()),
            rem(old(self).ctx(), final(self).st()) <= rem(old(self).ctx(), old(self).st()),
    {
        proof {
            lemma_peek(self.ctx(), self.st());
        }
        let ch = self.peek();
        if is_char(ch, '|') {
            proof {
                lemma_peek(self.ctx(), self.st());
            }
            self.next_char();
            Some(self.run(Run::Format))
        } else {
            None
        }
    }

    /// The text of a quoted literal argument, from just after its opening `'`.
    fn literal(&mut self, l: Loc) -> (text: String)
        requires
            old(self).wf(),
        ensures
            final(self).wf(),
            final(self).ctx() == old(self).ctx(),
            (final(self).st(), text@) == sp_lit(old(self).ctx(), old(self).st(), 0, Seq::empty(), l),
            rem(old(self).ctx(), final(self).st()) <= rem(old(self).ctx(), old(self).st()),
    {
        let ghost c = self.ctx();
        let ghost s0 = self.st();
        proof {
            lemma_peek(c, s0);
            lemma_suffix_covers(c.toks, 0, s0.idx);
        }
        let mut parens: isize = 0;
        let mut text = String::new();
        proof {
            assert(text@ =~= Seq::<char>::empty());
        }
        loop
            invariant_except_break
                self.wf(),
                self.ctx() == c,
                sp_lit(c, self.st(), parens as int, text@, l) == sp_lit(c, s0, 0, Seq::empty(), l),
                0 <= rem(c, self.st()) <= rem(c, s0) <= total(c),
                -(rem(c, s0) - rem(c, self.st())) <= parens <= rem(c, s0) - rem(c, self.st()),
            ensures
                self.wf(),
                self.ctx() == c,
                (self.st(), text@) == sp_lit(c, s0, 0, Seq::empty(), l),
                rem(c, self.st()) <= rem(c, s0),
            decreases rem(self.ctx(), self.st()),
        {
            proof {
                lemma_peek(c, self.st());
            }
            let ch = self.peek();
            match ch {
                Some(x) => {
                    if x == '\'' {
                        break;
                    }
                    let here = self.loc;
                    if x == ']' {
                        proof {
                            reveal_strlit("Using [ ] inside argument strings does not work");
                        }
                        let r = warn(ErrorKey::Localization).msg("possible unterminated argument string").info(
                            "Using [ ] inside argument strings does not work",
                        ).loc(here).build();
                        self.add_report(r);
                    } else if x == ')' && parens == 0 {
                        self.warn_at(ErrorKey::Localization, "possible unterminated argument string", here);
                    } else if x == '\u{feff}' {
                        let r = warn(ErrorKey::ParseError).strong().msg("found unicode BOM in middle of file").loc(
                            l,
                        ).build();
                        self.add_report(r);
                    }
                    if x == '(' {
                        parens = parens + 1;
                    } else if x == ')' && parens != 0 {
                        parens = parens - 1;
                    }
                    string_push(&mut text, x);
                    proof {
                        lemma_peek(c, self.st());
                    }
                    self.next_char();
                },
                None => {
                    break;
                },
            }
        }
        text
    }

    /// Parse the arguments of a call, from its `(`.
    fn parse_code_args(&mut self, limit: usize) -> (v: Vec<CodeArg>)
        requires
            old(self).wf(),
            sp_peek(old(self).ctx(), old(self).st()).1 == Some('('),
            rem(old(self).ctx(), old(self).st()) <= limit,
        ensures
            final(self).wf(),
            final(self).ctx() == old(self).ctx(),
            (final(self).st(), args_view(v@)) == sp_args(old(self).ctx(), old(self).st()),
            rem(old(self).ctx(), final(self).st()) < rem(old(self).ctx(), old(self).st()),
        decreases limit, 2int,
    {
        let ghost c = self.ctx();
        let ghost s0 = self.st();
        proof {
            lemma_peek(c, s0);
        }
        self.next_char();
        let ghost s1 = self.st();
        let mut v: Vec<CodeArg> = Vec::new();
        let ghost mut bound: int = rem(c, s0);
        let mut ok = true;
        proof {
            assert(args_view(v@) =~= Seq::<ArgView>::empty());
        }
        loop
            invariant_except_break
                self.wf(),
                self.ctx() == c,
                ok,
                rem(c, s0) <= limit,
                0 <= rem(c, self.st()) < bound <= rem(c, s0),
                sp_args_loop(c, self.st(), args_view(v@), bound) == sp_args_loop(c, s1, Seq::empty(), rem(c, s0)),
            ensures
                self.wf(),
                self.ctx() == c,
                rem(c, self.st()) < rem(c, s0),
                (self.st(), if ok {
                    args_view(v@)
                } else {
                    Seq::empty()
                }, ok) == sp_args_loop(c, s1, Seq::empty(), rem(c, s0)),
            decreases rem(self.ctx(), self.st()),
        {
            let ghost cur = self.st();
            let ghost vcur = args_view(v@);
            self.skip_whitespace();
            proof {
                lemma_peek(c, self.st());
            }
            let ch = self.peek();
            let ghost s2 = self.st();
            if is_char(ch, '\'') {
                self.next_char();
                let l = self.loc;
                let text = self.literal(l);
                proof {
                    lemma_peek(c, self.st());
                }
                let ch2 = self.peek();
                if !is_char(ch2, '\'') {
                    self.add_value(LocaValue::Error);
                    ok = false;
                    break;
                }
                self.next_char();
                let t = Token::from_string(text, l);
                proof {
                    lemma_args_view_push(v@, CodeArg::Literal(t));
                }
                v.push(CodeArg::Literal(t));
            } else if is_char(ch, ')') {
            } else {
                assert(rem(self.ctx(), self.st()) < rem(c, s0));
                let codes = self.parse_code_inner(limit - 1);
                let arg = CodeArg::Chain(CodeChain { codes });
                proof {
                    lemma_args_view_push(v@, arg);
                }
                v.push(arg);
            }
            self.skip_whitespace();
            proof {
                lemma_peek(c, self.st());
            }
            let ch3 = self.peek();
            if !is_char(ch3, ',') {
                break;
            }
            proof {
                bound = rem(c, self.st());
            }
            self.next_char();
        }
        if !ok {
            return Vec::new();
        }
        proof {
            lemma_peek(c, self.st());
        }
        let ch = self.peek();
        if is_char(ch, ')') {
            self.next_char();
        } else {
            self.unexpected_char("expected `)`", ErrorKey::Datafunctions);
        }
        v
    }

    /// Parse one call.
    fn parse_code_code(&mut self, limit: usize) -> (code: Code)
        requires
            old(self).wf(),
            rem(old(self).ctx(), old(self).st()) <= limit,
        ensures
            final(self).wf(),
            final(self).ctx() == old(self).ctx(),
            (final(self).st(), crate::datatype::code_view(code)) == sp_code(old(self).ctx(), old(self).st()),
            rem(old(self).ctx(), final(self).st()) <= rem(old(self).ctx(), old(self).st()),
        decreases limit, 3int,
    {
        let ghost c = self.ctx();
        let name = self.run(Run::CodeName);
        proof {
            lemma_peek(c, self.st());
        }
        let ch = self.peek();
        if is_char(ch, '(') {
            let arguments = self.parse_code_args(limit);
            Code { name, arguments }
        } else {
            let arguments: Vec<CodeArg> = Vec::new();
            proof {
                assert(args_view(arguments@) =~= Seq::<ArgView>::empty());
            }
            Code { name, arguments }
        }
    }

    /// Parse a chain of calls separated by `.`.
    fn parse_code_inner(&mut self, limit: usize) -> (codes: Vec<Code>)
        requires
            old(self).wf(),
            rem(old(self).ctx(), old(self).st()) <= limit,
        ensures
            final(self).wf(),
            final(self).ctx() == old(self).ctx(),
            (final(self).st(), codes_view(codes@)) == sp_inner(old(self).ctx(), old(self).st(), Seq::empty()),
            rem(old(self).ctx(), final(self).st()) <= rem(old(self).ctx(), old(self).st()),
        decreases limit, 4int,
    {
        let ghost c = self.ctx();
        let ghost s0 = self.st();
        let mut v: Vec<Code> = Vec::new();
        proof {
            lemma_peek(c, s0);
            assert(codes_view(v@) =~= Seq::<CodeView>::empty());
        }
        loop
            invariant_except_break
                self.wf(),
                self.ctx() == c,
                0 <= rem(c, self.st()) <= rem(c, s0),
                rem(c, s0) <= limit,
                sp_inner(c, self.st(), codes_view(v@)) == sp_inner(c, s0, Seq::empty()),
            ensures
                self.wf(),
                self.ctx() == c,
                rem(c, self.st()) <= rem(c, s0),
                (self.st(), codes_view(v@)) == sp_inner(c, s0, Seq::empty()),
            decreases rem(self.ctx(), self.st()),
        {
            proof {
                lemma_peek(c, self.st());
            }
            assert(rem(self.ctx(), self.st()) <= rem(c, s0));
            let code = self.parse_code_code(limit);
            proof {
                lemma_codes_view_push(v@, code);
            }
            v.push(code);
            proof {
                lemma_peek(c, self.st());
            }
            let ch = self.peek();
            if !is_char(ch, '.') {
                break;
            }
            proof {
                lemma_peek(c, self.st());
            }
            self.next_char();
        }
        v
    }

    /// Skip surplus `)`, reporting the first.
    fn skip_parens(&mut self)
        requires
            old(self).wf(),
        ensures
            final(self).wf(),
            final(self).ctx() == old(self).ctx(),
            final(self).st() == sp_parens(old(self).ctx(), old(self).st(), false),
            rem(old(self).ctx(), final(self).st()) <= rem(old(self).ctx(), old(self).st()),
    {
        let ghost c = self.ctx();
        let ghost s0 = self.st();
        let mut warned = false;
        proof {
            lemma_peek(c, s0);
        }
        loop
            invariant_except_break
                self.wf(),
                self.ctx() == c,
                0 <= rem(c, self.st()) <= rem(c, s0),
                sp_parens(c, self.st(), warned) == sp_parens(c, s0, false),
            ensures
                self.wf(),
                self.ctx() == c,
                rem(c, self.st()) <= rem(c, s0),
                self.st() == sp_parens(c, s0, false),
            decreases rem(self.ctx(), self.st()),
        {
            proof {
                lemma_peek(c, self.st());
            }
            let ch = self.peek();
            if !is_char(ch, ')') {
                break;
            }
            let ghost cur = self.st();
            if !warned {
                let r = crate::report::builder::untidy(ErrorKey::Datafunctions).msg("too many `)`").loc(self.loc).build();
                self.add_report(r);
                warned = true;
            }
            let ghost s2 = self.st();
            assert(rem(c, s2) == rem(c, cur));
            proof {
                lemma_peek(c, self.st());
            }
            self.next_char();
            assert(rem(c, self.st()) < rem(c, cur));
            self.skip_whitespace();
            proof {
                lemma_peek(c, self.st());
            }
        }
    }


    proof fn lemma_loc_ok(&self)
        requires
            self.wf(),
        ensures
            loc_ok(self.ctx(), loc_of(self.ctx(), self.st())),
            rem(self.ctx(), self.st()) <= total(self.ctx()),
            total(self.ctx()) <= 0x7fff_fffe,
    {
        assert(self.ctx().locs[0].column + 2 * total(self.ctx()) + 2 <= u32::MAX);
        lemma_suffix_covers(self.ctx().toks, 0, self.idx as int);
        let k = self.idx as int;
        assert(self.ctx().locs[k].column + 2 * total(self.ctx()) + 2 <= u32::MAX);
    }

    fn handle_tooltip(&mut self, value: &Vec<char>, l: Loc)
        requires
            old(self).wf(),
            loc_ok(old(self).ctx(), l),
            value@.len() <= total(old(self).ctx()),
        ensures
            final(self).wf(),
            final(self).ctx() == old(self).ctx(),
            final(self).st() == sp_tooltip(old(self).st(), value@, l),
    {
        let text = string_from_chars(value.as_slice(), 0, value.len());
        proof {
            assert(value@.subrange(0, value@.len() as int) =~= value@);
        }
        let t = Token::from_string(text, l);
        if vec_has(value, ',') {
            let parts = t.split(',');
            proof {
                lemma_split_two(value@, ',');
            }
            let a = parts[0].clone();
            let b = parts[1].clone();
            self.add_value(LocaValue::ComplexTooltip(a, b));
        } else {
            self.add_value(LocaValue::Tooltip(t));
        }
    }

    /// One char `x` of a markup body.
    fn markup_step(&mut self, m: MExec, x: char, Ghost(n): Ghost<int>) -> (r: (MExec, bool, bool))
        requires
            old(self).wf(),
            sp_peek(old(self).ctx(), old(self).st()) == (old(self).st(), Some(x)),
            mstate_ok(old(self).ctx(), mview(m), n),
            0 <= n,
            n + rem(old(self).ctx(), old(self).st()) <= total(old(self).ctx()),
        ensures
            final(self).wf(),
            final(self).ctx() == old(self).ctx(),
            (final(self).st(), mview(r.0), r.1, r.2) == markup_step(old(self).ctx(), old(self).st(), mview(m), x),
            mstate_ok(old(self).ctx(), mview(r.0), n + 1),
            rem(old(self).ctx(), final(self).st()) <= rem(old(self).ctx(), old(self).st()),
            r.2 ==> rem(old(self).ctx(), final(self).st()) < rem(old(self).ctx(), old(self).st()),
    {
        let ghost c = self.ctx();
        let ghost s1 = self.st();
        proof {
            lemma_peek(c, s1);
            self.lemma_loc_ok();
        }
        match m {
            MExec::InKey(k) => {
                if x == ':' || x == ';' {
                    let here = self.loc;
                    if k.len() == 0 {
                        self.unexpected_char("expected markup key", ErrorKey::Markup);
                    }
                    if x == ':' {
                        let v: Vec<char> = Vec::new();
                        proof {
                            assert(v@ =~= Seq::<char>::empty());
                        }
                        (MExec::InValue(k, v, here, 0), false, false)
                    } else {
                        let k2: Vec<char> = Vec::new();
                        proof {
                            assert(k2@ =~= Seq::<char>::empty());
                        }
                        (MExec::InKey(k2), false, false)
                    }
                } else if char_is_alphanumeric(x) || x == '_' {
                    let mut k = k;
                    k.push(x);
                    (MExec::InKey(k), false, false)
                } else {
                    (MExec::InKey(k), true, false)
                }
            },
            MExec::InValue(k, v, l, bc) => {
                if x == ':' {
                    let mut v = v;
                    v.push(x);
                    self.unexpected_char("expected `;`", ErrorKey::Markup);
                    (MExec::InValue(k, v, l, bc), false, false)
                } else if x == ';' {
                    if is_tooltip_key(&k) {
                        self.handle_tooltip(&v, l);
                    }
                    let k2: Vec<char> = Vec::new();
                    proof {
                        assert(k2@ =~= Seq::<char>::empty());
                    }
                    (MExec::InKey(k2), false, false)
                } else if x == '{' {
                    (MExec::InValue(k, v, l, bc + 1), false, false)
                } else if x == '}' {
                    if bc > 0 {
                        (MExec::InValue(k, v, l, bc - 1), false, false)
                    } else {
                        let here = self.loc;
                        self.warn_at(ErrorKey::Markup, "mismatched braces in markup", here);
                        self.add_value(LocaValue::Error);
                        (MExec::InValue(k, v, l, bc), false, false)
                    }
                } else if x == '.' || x == ',' || char_is_alphanumeric(x) || x == '_' {
                    let mut v = v;
                    v.push(x);
                    (MExec::InValue(k, v, l, bc), false, false)
                } else if x == '[' {
                    self.parse_code();
                    (MExec::InValue(k, v, l, bc), false, true)
                } else {
                    (MExec::InValue(k, v, l, bc), true, false)
                }
            },
        }
    }

    /// Parse a `#markup`, from its `#`.
    fn parse_markup(&mut self)
        requires
            old(self).wf(),
            sp_peek(old(self).ctx(), old(self).st()) == (old(self).st(), Some('#')),
        ensures
            final(self).wf(),
            final(self).ctx() == old(self).ctx(),
            final(self).st() == sp_markup(old(self).ctx(), old(self).st()),
            rem(old(self).ctx(), final(self).st()) < rem(old(self).ctx(), old(self).st()),
    {
        let ghost c = self.ctx();
        let ghost s0 = self.st();
        proof {
            lemma_peek(c, s0);
        }
        let l0 = self.loc;
        self.next_char();
        proof {
            lemma_peek(c, self.st());
        }
        let ch = self.peek();
        let ghost s2 = self.st();
        if is_char(ch, '#') {
            self.next_char();
            self.add_value(LocaValue::Text(Token::new("#", l0)));
        } else if is_char(ch, '!') {
            self.next_char();
            self.add_value(LocaValue::MarkupEnd);
        } else {
            let k0: Vec<char> = Vec::new();
            proof {
                assert(k0@ =~= Seq::<char>::empty());
                self.lemma_loc_ok();
            }
            let mut m = MExec::InKey(k0);
            loop
                invariant_except_break
                    self.wf(),
                    self.ctx() == c,
                    0 <= rem(c, self.st()) <= rem(c, s2),
                    rem(c, s2) <= total(c),
                    mstate_ok(c, mview(m), rem(c, s2) - rem(c, self.st())),
                    sp_markup_loop(c, self.st(), mview(m)) == sp_markup_loop(c, s2, MState::InKey(Seq::empty())),
                ensures
                    self.wf(),
                    self.ctx() == c,
                    0 <= rem(c, self.st()) <= rem(c, s2),
                    mstate_ok(c, mview(m), total(c)),
                    (self.st(), mview(m)) == sp_markup_loop(c, s2, MState::InKey(Seq::empty())),
                decreases rem(self.ctx(), self.st()),
            {
                proof {
                    lemma_peek(c, self.st());
                }
                let ch = self.peek();
                match ch {
                    None => {
                        break;
                    },
                    Some(x) => {
                        if char_is_whitespace(x) {
                            break;
                        }
                        let ghost n = rem(c, s2) - rem(c, self.st());
                        let (m2, stop, consumed) = self.markup_step(m, x, Ghost(n));
                        m = m2;
                        if stop {
                            break;
                        }
                        if !consumed {
                            proof {
                                lemma_peek(c, self.st());
                            }
                            self.next_char();
                        }
                        proof {
                            lemma_peek(c, self.st());
                        }
                    },
                }
            }
            match m {
                MExec::InKey(_) => {
                    self.add_value(LocaValue::Markup);
                },
                MExec::InValue(k, v, l, bc) => {
                    if is_tooltip_key(&k) {
                        self.handle_tooltip(&v, l);
                    }
                    if bc > 0 {
                        let here = self.loc;
                        self.warn_at(ErrorKey::Markup, "mismatched braces in markup", here);
                        self.add_value(LocaValue::Error);
                    } else {
                        self.add_value(LocaValue::Markup);
                    }
                },
            }
            proof {
                lemma_peek(c, self.st());
            }
            let ch2 = self.peek();
            match ch2 {
                Some(x) => {
                    if char_is_whitespace(x) {
                        self.next_char();
                    } else {
                        let here = self.loc;
                        self.warn_at(ErrorKey::Markup, "#markup should be followed by a space", here);
                        self.add_value(LocaValue::Error);
                    }
                },
                None => {
                    self.next_char();
                },
            }
        }
    }

    /// Parse an `@icon!`, from its `@`.
    fn parse_icon(&mut self)
        requires
            old(self).wf(),
            sp_peek(old(self).ctx(), old(self).st()).1 is Some,
        ensures
            final(self).wf(),
            final(self).ctx() == old(self).ctx(),
            final(self).st() == sp_icon(old(self).ctx(), old(self).st()),
            rem(old(self).ctx(), final(self).st()) < rem(old(self).ctx(), old(self).st()),
    {
        let ghost c = self.ctx();
        proof {
            lemma_peek(c, self.st());
        }
        self.next_char();
        proof {
            lemma_peek(c, self.st());
        }
        let ch = self.peek();
        match ch {
            Some(x) => {
                if matches!(self.game, Game::Imperator) && x == '[' {
                    return;
                }
                if is_key_char(x) {
                    let key = self.run(Run::Key);
                    self.add_value(LocaValue::Icon(key));
                    proof {
                        lemma_peek(c, self.st());
                    }
                    let ch2 = self.peek();
                    if is_char(ch2, '!') {
                        self.next_char();
                    } else {
                        self.unexpected_char("expected `!`", ErrorKey::Localization);
                        self.add_value(LocaValue::Error);
                    }
                } else {
                    self.unexpected_char("expected icon name", ErrorKey::Localization);
                    self.add_value(LocaValue::Error);
                }
            },
            None => {
                self.unexpected_char("expected icon name", ErrorKey::Localization);
                self.add_value(LocaValue::Error);
            },
        }
    }

    /// Parse a `\` escape.
    fn parse_escape(&mut self)
        requires
            old(self).wf(),
            sp_peek(old(self).ctx(), old(self).st()).1 is Some,
        ensures
            final(self).wf(),
            final(self).ctx() == old(self).ctx(),
            final(self).st() == sp_escape(old(self).ctx(), old(self).st()),
            rem(old(self).ctx(), final(self).st()) < rem(old(self).ctx(), old(self).st()),
    {
        let ghost c = self.ctx();
        proof {
            lemma_peek(c, self.st());
        }
        let l = self.loc;
        self.next_char();
        proof {
            lemma_peek(c, self.st());
        }
        let ch = self.peek();
        match ch {
            Some(x) => {
                let mut text = String::new();
                string_push(&mut text, if x == 'n' {
                    '\n'
                } else {
                    x
                });
                proof {
                    assert(text@ =~= (if x == 'n' {
                        seq!['\n']
                    } else {
                        seq![x]
                    }));
                }
                self.next_char();
                self.add_value(LocaValue::Text(Token::from_string(text, l)));
            },
            None => {
                self.add_value(LocaValue::Error);
            },
        }
    }

    /// Parse the piece of the value that starts with the looked-at char `x`.
    fn parse_piece(&mut self, x: char)
        requires
            old(self).wf(),
            sp_peek(old(self).ctx(), old(self).st()) == (old(self).st(), Some(x)),
        ensures
            final(self).wf(),
            final(self).ctx() == old(self).ctx(),
            final(self).st() == sp_piece(old(self).ctx(), old(self).st(), x),
            rem(old(self).ctx(), final(self).st()) < rem(old(self).ctx(), old(self).st()),
    {
        proof {
            lemma_peek(self.ctx(), self.st());
        }
        if x == '[' {
            self.parse_code();
        } else if x == '#' {
            self.parse_markup();
        } else if x == '@' {
            self.parse_icon();
        } else if x == '\\' {
            self.parse_escape();
        } else {
            proof {
                lemma_scan_rem(self.ctx(), self.st(), run_stop(Run::Text), Seq::empty());
            }
            let t = self.run(Run::Text);
            self.add_value(LocaValue::Text(t));
        }
    }

    /// Parse all the pieces of the value.
    fn parse_pieces(&mut self)
        requires
            old(self).wf(),
        ensures
            final(self).wf(),
            final(self).ctx() == old(self).ctx(),
            final(self).st() == sp_vec(old(self).ctx(), old(self).st()),
    {
        let ghost c = self.ctx();
        let ghost s0 = self.st();
        loop
            invariant_except_break
                self.wf(),
                self.ctx() == c,
                sp_vec(c, self.st()) == sp_vec(c, s0),
            ensures
                self.wf(),
                self.ctx() == c,
                self.st() == sp_vec(c, s0),
            decreases rem(self.ctx(), self.st()),
        {
            proof {
                lemma_peek(c, self.st());
            }
            let ch = self.peek();
            match ch {
                None => {
                    break;
                },
                Some(x) => {
                    self.parse_piece(x);
                    proof {
                        lemma_values_view_len(self.value@);
                        lemma_peek(c, self.st());
                    }
                    let n = self.value.len();
                    if n > 0 && matches!(self.value[n - 1], LocaValue::Error) {
                        let ghost s2 = self.st();
                        assert(ends_in_error(s2));
                        let mut one: Vec<LocaValue> = Vec::new();
                        proof {
                            lemma_values_view_push(one@, LocaValue::Error);
                            assert(values_view(one@) =~= Seq::<LocaValueView>::empty());
                        }
                        one.push(LocaValue::Error);
                        self.value = one;
                        assert(self.st() == VS { value: seq![LocaValueView::Error], ..s2 });
                        break;
                    }
                    proof {
                        if n > 0 {
                            assert(!ends_in_error(self.st()));
                        }
                    }
                },
            }
        }
    }

    /// Parse the value into its pieces, and hand back what was found wrong.
    pub(crate) fn parse_vec_and_reports(self) -> (r: (Vec<LocaValue>, Vec<LogReport>))
        requires
            self.wf(),
        ensures
            values_view(r.0@) == sp_vec(self.ctx(), self.st()).value,
            r.1@.map_values(|x: LogReport| x@) == sp_vec(self.ctx(), self.st()).reports,
    {
        let mut p = self;
        p.parse_pieces();
        (p.value, p.reports)
    }

    /// Parse the value into its pieces, and log what was found wrong.
    pub fn parse_vec(self, errors: &mut Errors) -> (v: Vec<LocaValue>)
        requires
            self.wf(),
        ensures
            values_view(v@) == sp_vec(self.ctx(), self.st()).value,
            final(errors).logged(old(errors), sp_vec(self.ctx(), self.st()).reports),
    {
        let mut p = self;
        p.parse_pieces();
        log_reports(&p.reports, errors);
        p.value
    }

    /// Parse the value: its one piece, or all its pieces in a row.
    pub fn parse(self, errors: &mut Errors) -> (v: LocaValue)
        requires
            self.wf(),
        ensures
            value_view(v) == single_or_concat(sp_vec(self.ctx(), self.st()).value),
            final(errors).logged(old(errors), sp_vec(self.ctx(), self.st()).reports),
    {
        let mut value = self.parse_vec(errors);
        proof {
            lemma_values_view_len(value@);
        }
        if value.len() == 1 {
            let ghost all = value@;
            let v = value.remove(0);
            proof {
                assert(values_view(all)[0] == value_view(v));
            }
            v
        } else {
            LocaValue::Concat(value)
        }
    }

    /// Parse a `[code]` block, from its `[`.
    fn parse_code(&mut self)
        requires
            old(self).wf(),
            sp_peek(old(self).ctx(), old(self).st()).1 is Some,
        ensures
            final(self).wf(),
            final(self).ctx() == old(self).ctx(),
            final(self).st() == sp_parse_code(old(self).ctx(), old(self).st()),
            rem(old(self).ctx(), final(self).st()) < rem(old(self).ctx(), old(self).st()),
    {
        let ghost c = self.ctx();
        proof {
            lemma_peek(c, self.st());
        }
        self.next_char();
        self.skip_whitespace();
        proof {
            self.lemma_rem_bound();
        }
        let codes = self.parse_code_inner(0x7fff_fffe);
        self.skip_whitespace();
        self.skip_parens();
        let fmt = self.parse_format();
        proof {
            lemma_peek(c, self.st());
        }
        let ch = self.peek();
        if is_char(ch, ']') {
            self.next_char();
            self.add_value(LocaValue::Code(CodeChain { codes }, fmt));
        } else {
            self.unexpected_char("expected `]`", ErrorKey::Datafunctions);
            self.add_value(LocaValue::Error);
        }
    }
}

} // verus!
