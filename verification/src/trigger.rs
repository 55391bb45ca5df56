//! Splitting a script target such as `liege.primary_title.holder` or `prowess_diff(liege)` into
//! its parts.
use vstd::prelude::*;

use crate::report::builder::{err, simple_report};
use crate::report::error_key::ErrorKey;
use crate::report::errors::{lemma_logged_nothing, lemma_logged_trans, Errors};
use crate::report::report_struct::{Confidence, ReportView, Severity};
use crate::text::{unicode_whitespace, spec_starts_with};
use crate::token::{leading_ws, lemma_split_starts_props, shifted, split_end, split_starts, trailing_ws_end, Loc, Token};
use crate::variables::Game;

verus! {

/// A part of a target: a token, or a function with an argument in parentheses.
#[derive(Debug)]
pub enum Part {
    /// A simple token.
    Token(Token),
    /// Function and argument tokens.
    TokenArgument(Token, Token),
}

/// The text and location of a token.
pub type TokenView = (Seq<char>, Loc);

/// The content of a [`Part`].
pub enum PartView {
    Token(TokenView),
    TokenArgument(TokenView, TokenView),
}

impl View for Part {
    type V = PartView;

    open spec fn view(&self) -> PartView {
        match self {
            Part::Token(t) => PartView::Token((t@, t.loc)),
            Part::TokenArgument(f, a) => PartView::TokenArgument((f@, f.loc), (a@, a.loc)),
        }
    }
}

/// The views of the parts.
pub open spec fn parts_view(v: Seq<Part>) -> Seq<PartView> {
    v.map_values(|p: Part| p@)
}

/// The number of whitespace chars that `r` starts with.
pub open spec fn lead_ws_count(r: Seq<char>) -> int
    decreases r.len(),
{
    if r.len() == 0 || !unicode_whitespace(r[0]) {
        0
    } else {
        1 + lead_ws_count(r.skip(1))
    }
}

/// Where the whitespace that `r` ends with starts.
pub open spec fn trail_ws_start(r: Seq<char>) -> int
    decreases r.len(),
{
    if r.len() == 0 || !unicode_whitespace(r.last()) {
        r.len() as int
    } else {
        trail_ws_start(r.drop_last())
    }
}

/// The text `r` at `loc` with the whitespace at both ends stripped; text of whitespace alone
/// becomes empty, with its location moved past it.
pub open spec fn stripped(r: Seq<char>, loc: Loc) -> TokenView {
    let n = lead_ws_count(r);
    (if n == r.len() {
        Seq::<char>::empty()
    } else {
        r.subrange(n, trail_ws_start(r))
    }, shifted(loc, n))
}

proof fn lemma_lead_ws(r: Seq<char>, n: int)
    requires
        leading_ws(r, n),
    ensures
        n == lead_ws_count(r),
    decreases r.len(),
{
    if n > 0 {
        let t = r.skip(1);
        assert(leading_ws(t, n - 1)) by {
            assert forall|j: int| 0 <= j < n - 1 implies unicode_whitespace(#[trigger] t[j]) by {
                assert(t[j] == r[j + 1]);
            }
            if n - 1 < t.len() {
                assert(t[n - 1] == r[n]);
            }
        }
        lemma_lead_ws(t, n - 1);
    }
}

proof fn lemma_trail_ws(r: Seq<char>, e: int)
    requires
        trailing_ws_end(r, e),
    ensures
        e == trail_ws_start(r),
    decreases r.len(),
{
    if e < r.len() {
        let t = r.drop_last();
        assert(trailing_ws_end(t, e)) by {
            assert forall|j: int| e <= j < t.len() implies unicode_whitespace(#[trigger] t[j]) by {
                assert(t[j] == r[j]);
            }
            if e > 0 {
                assert(t[e - 1] == r[e - 1]);
            }
        }
        lemma_trail_ws(t, e);
    }
}

/// A part of the token `s` at `loc`: the chars from `a` to `b`, at its column.
pub open spec fn sub_view(s: Seq<char>, loc: Loc, a: int, b: int) -> TokenView {
    (s.subrange(a, b), shifted(loc, a))
}

/// A plain part, without Imperator's `hidden:` prefix, which may stand before other prefixes.
pub open spec fn unhidden(game: Game, t: TokenView) -> TokenView {
    if game == Game::Imperator && spec_starts_with(t.0, "hidden:"@) {
        (t.0.skip(7), shifted(t.1, 7))
    } else {
        t
    }
}

/// A report about the syntax of a target.
pub open spec fn part_report(msg: Seq<char>, loc: Loc) -> ReportView {
    simple_report(ErrorKey::Validation, Severity::Error, Confidence::Reasonable, msg, None, loc)
}

/// Where splitting a target has got to.
pub struct PartState {
    pub parts: Seq<PartView>,
    pub reports: Seq<ReportView>,
    /// Whether the current part has had an argument.
    pub has_arg: bool,
    /// Whether a char after that argument has been reported.
    pub arg_erred: bool,
    /// How deep in parentheses.
    pub depth: int,
    /// Where the current part starts.
    pub part_start: int,
    /// The last opening parenthesis at depth 0 and at depth 1.
    pub first_paren: int,
    pub second_paren: int,
}

/// Splitting the first `n` chars of the target `s` at `loc`: parts are separated by `.` outside
/// parentheses, and a part may end with one argument in parentheses.
pub open spec fn partition_scan(game: Game, s: Seq<char>, loc: Loc, n: int) -> PartState
    decreases n,
{
    if n <= 0 {
        PartState {
            parts: Seq::empty(),
            reports: Seq::empty(),
            has_arg: false,
            arg_erred: false,
            depth: 0,
            part_start: 0,
            first_paren: 0,
            second_paren: 0,
        }
    } else {
        let st = partition_scan(game, s, loc, n - 1);
        let i = n - 1;
        let c = s[i];
        if c == '.' {
            if st.depth == 0 {
                PartState {
                    parts: if st.part_start != i && !st.has_arg {
                        st.parts.push(PartView::Token(unhidden(game, sub_view(s, loc, st.part_start, i))))
                    } else {
                        st.parts
                    },
                    reports: if st.part_start == i {
                        st.reports.push(part_report("empty part"@, shifted(loc, i)))
                    } else {
                        st.reports
                    },
                    has_arg: false,
                    arg_erred: false,
                    part_start: i + 1,
                    ..st
                }
            } else {
                st
            }
        } else if c == '(' {
            PartState {
                first_paren: if st.depth == 0 {
                    i
                } else {
                    st.first_paren
                },
                second_paren: if st.depth == 1 {
                    i
                } else {
                    st.second_paren
                },
                depth: st.depth + 1,
                ..st
            }
        } else if c == ')' {
            if st.depth == 0 {
                PartState {
                    reports: st.reports.push(part_report("closing without opening parenthesis `(`"@, shifted(loc, i))),
                    ..st
                }
            } else if st.depth == 1 {
                PartState {
                    parts: st.parts.push(
                        PartView::TokenArgument(
                            sub_view(s, loc, st.part_start, st.first_paren),
                            stripped(s.subrange(st.first_paren + 1, i), shifted(loc, st.first_paren + 1)),
                        ),
                    ),
                    has_arg: true,
                    depth: 0,
                    ..st
                }
            } else if st.depth == 2 {
                PartState {
                    reports: st.reports.push(part_report("cannot have nested parentheses"@, shifted(loc, st.second_paren))),
                    depth: 1,
                    ..st
                }
            } else {
                st
            }
        } else if st.has_arg && !st.arg_erred {
            PartState {
                reports: st.reports.push(
                    part_report("argument can only be the last part or followed by dot `.`"@, shifted(loc, i)),
                ),
                arg_erred: true,
                ..st
            }
        } else {
            st
        }
    }
}

/// The parts of the target `s` at `loc`, and the reports about its syntax.
pub open spec fn spec_partition(game: Game, s: Seq<char>, loc: Loc) -> (Seq<PartView>, Seq<ReportView>) {
    let st = partition_scan(game, s, loc, s.len() as int);
    let rs = if st.depth > 0 {
        st.reports.push(part_report("opening without closing parenthesis `)`"@, shifted(loc, st.first_paren)))
    } else {
        st.reports
    };
    if st.part_start == s.len() {
        (st.parts, rs.push(part_report("trailing dot `.`"@, shifted(loc, st.part_start))))
    } else if !st.has_arg {
        (st.parts.push(PartView::Token(unhidden(game, sub_view(s, loc, st.part_start, s.len() as int)))), rs)
    } else {
        (st.parts, rs)
    }
}

/// The bounds that hold while splitting.
pub open spec fn scan_bounds(st: PartState, n: int) -> bool {
    &&& 0 <= st.part_start <= n
    &&& 0 <= st.depth <= n
    &&& st.depth >= 1 ==> st.part_start <= st.first_paren < n
    &&& st.depth >= 2 ==> st.first_paren < st.second_paren < n
}

proof fn lemma_scan_bounds(game: Game, s: Seq<char>, loc: Loc, n: int)
    requires
        0 <= n <= s.len(),
    ensures
        scan_bounds(partition_scan(game, s, loc, n), n),
    decreases n,
{
    if n > 0 {
        lemma_scan_bounds(game, s, loc, n - 1);
    }
}

/// A target of plain parts: no parentheses, and no empty part (no dot at either end and no two
/// dots in a row).
pub open spec fn plain_target(s: Seq<char>) -> bool {
    &&& s.len() > 0
    &&& forall|i: int| 0 <= i < s.len() ==> #[trigger] s[i] != '(' && s[i] != ')'
    &&& s[0] != '.'
    &&& s.last() != '.'
    &&& forall|i: int| 0 <= i < s.len() - 1 ==> !(#[trigger] s[i] == '.' && s[i + 1] == '.')
}

proof fn lemma_plain_scan(game: Game, s: Seq<char>, loc: Loc, n: int)
    requires
        plain_target(s),
        0 <= n <= s.len(),
    ensures
        ({
            let st = partition_scan(game, s, loc, n);
            let ss = split_starts(s.take(n), '.');
            &&& ss.len() >= 1
            &&& st.reports == Seq::<ReportView>::empty()
            &&& !st.has_arg
            &&& st.depth == 0
            &&& st.part_start == ss.last()
            &&& st.parts.len() == ss.len() - 1
            &&& forall|k: int|
                0 <= k < ss.len() - 1 ==> #[trigger] st.parts[k] == PartView::Token(
                    unhidden(game, sub_view(s, loc, ss[k], ss[k + 1] - 1)),
                )
        }),
    decreases n,
{
    lemma_split_starts_props(s.take(n), '.');
    if n > 0 {
        lemma_plain_scan(game, s, loc, n - 1);
        let prev = partition_scan(game, s, loc, n - 1);
        let st = partition_scan(game, s, loc, n);
        let sp = split_starts(s.take(n - 1), '.');
        let ss = split_starts(s.take(n), '.');
        lemma_split_starts_props(s.take(n - 1), '.');
        assert(s.take(n).drop_last() =~= s.take(n - 1));
        assert(s.take(n).last() == s[n - 1]);
        let c = s[n - 1];
        assert(c != '(' && c != ')');
        if c == '.' {
            assert(ss == sp.push(n));
            assert(prev.part_start != n - 1) by {
                if n - 1 == 0 {
                } else {
                    assert(!(s[n - 2] == '.' && s[n - 1] == '.'));
                    assert(s.take(n - 1).last() == s[n - 2]);
                    lemma_split_starts_props(s.take(n - 2), '.');
                    assert(s.take(n - 1).drop_last() =~= s.take(n - 2));
                }
            }
            assert forall|k: int| 0 <= k < ss.len() - 1 implies #[trigger] st.parts[k] == PartView::Token(
                unhidden(game, sub_view(s, loc, ss[k], ss[k + 1] - 1)),
            ) by {
                if k < sp.len() - 1 {
                    assert(st.parts[k] == prev.parts[k]);
                }
            }
        } else {
            assert(ss == sp);
        }
    }
}

/// A target of plain parts is split at its dots: each part is a token, with its column, and
/// nothing is reported.
pub proof fn law_plain_target_splits_at_dots(game: Game, s: Seq<char>, loc: Loc)
    requires
        plain_target(s),
    ensures
        spec_partition(game, s, loc).1 == Seq::<ReportView>::empty(),
        spec_partition(game, s, loc).0.len() == split_starts(s, '.').len(),
        forall|k: int|
            0 <= k < split_starts(s, '.').len() ==> #[trigger] spec_partition(game, s, loc).0[k] == PartView::Token(
                unhidden(game, sub_view(s, loc, split_starts(s, '.')[k], split_end(s, '.', k))),
            ),
{
    assert(s.take(s.len() as int) =~= s);
    lemma_plain_scan(game, s, loc, s.len() as int);
    let st = partition_scan(game, s, loc, s.len() as int);
    let ss = split_starts(s, '.');
    lemma_split_starts_props(s, '.');
    assert(st.part_start != s.len()) by {
        assert(s.drop_last() =~= s.take(s.len() - 1));
        lemma_split_starts_props(s.drop_last(), '.');
    }
    let parts = spec_partition(game, s, loc).0;
    assert forall|k: int| 0 <= k < ss.len() implies #[trigger] parts[k] == PartView::Token(
        unhidden(game, sub_view(s, loc, ss[k], split_end(s, '.', k))),
    ) by {
        if k < ss.len() - 1 {
            assert(parts[k] == st.parts[k]);
        }
    }
}

/// The part without Imperator's `hidden:` prefix.
fn strip_hidden(game: Game, t: Token) -> (r: Token)
    requires
        t.loc.column + t@.len() <= u32::MAX,
    ensures
        (r@, r.loc) == unhidden(game, (t@, t.loc)),
{
    if game == Game::Imperator {
        match t.strip_prefix("hidden:") {
            Some(rest) => {
                proof {
                    reveal_strlit("hidden:");
                }
                rest
            },
            None => t,
        }
    } else {
        t
    }
}

/// Split the target `token` into its parts, separated by `.`; each part may end with an argument
/// in parentheses, as in `prowess_diff(liege)`. The tokens and arguments are not checked, only
/// the syntax, which is reported on.
#[verifier::rlimit(40)]
pub fn partition(token: &Token, game: Game, errors: &mut Errors) -> (parts: Vec<Part>)
    requires
        token@.len() <= 65536,
        token.loc.column + token@.len() + 1 <= u32::MAX,
    ensures
        parts_view(parts@) == spec_partition(game, token@, token.loc).0,
        final(errors).logged(old(errors), spec_partition(game, token@, token.loc).1),
{
    let ghost s = token@;
    let ghost loc0 = token.loc;
    let v = token.chars();
    let n = v.len();
    let mut parts: Vec<Part> = Vec::new();
    let mut has_part_argument = false;
    let mut has_part_argument_erred = false;
    let mut paren_depth: usize = 0;
    let mut part_idx: usize = 0;
    let mut first_paren_idx: usize = 0;
    let mut second_paren_idx: usize = 0;
    let mut i: usize = 0;
    proof {
        assert(parts_view(parts@) =~= Seq::<PartView>::empty());
        lemma_logged_nothing(errors);
    }
    while i < n
        invariant
            v@ == s,
            s == token@,
            loc0 == token.loc,
            n == s.len(),
            n <= 65536,
            token.loc.column + n + 1 <= u32::MAX,
            i <= n,
            ({
                let st = partition_scan(game, s, loc0, i as int);
                &&& parts_view(parts@) == st.parts
                &&& errors.logged(old(errors), st.reports)
                &&& has_part_argument == st.has_arg
                &&& has_part_argument_erred == st.arg_erred
                &&& paren_depth as int == st.depth
                &&& part_idx as int == st.part_start
                &&& first_paren_idx as int == st.first_paren
                &&& second_paren_idx as int == st.second_paren
            }),
        decreases n - i,
    {
        let ghost st = partition_scan(game, s, loc0, i as int);
        let ghost e1 = *errors;
        proof {
            lemma_scan_bounds(game, s, loc0, i as int);
        }
        let ch = v[i];
        let mut at = token.loc;
        at.column = token.loc.column + i as u32;
        if ch == '.' {
            if paren_depth == 0 {
                if part_idx == i {
                    err(ErrorKey::Validation).msg("empty part").loc(at).push(errors);
                    proof {
                        let r = part_report("empty part"@, shifted(loc0, i as int));
                        lemma_logged_trans(old(errors), &e1, errors, st.reports, seq![r]);
                        assert(st.reports + seq![r] =~= st.reports.push(r));
                    }
                } else if !has_part_argument {
                    let mut part_loc = token.loc;
                    part_loc.column = token.loc.column + part_idx as u32;
                    let part_token = strip_hidden(game, token.subtoken(part_idx, i, part_loc));
                    let ghost before = parts_view(parts@);
                    parts.push(Part::Token(part_token));
                    proof {
                        assert(parts_view(parts@) =~= before.push(parts@[parts@.len() - 1]@));
                    }
                }
                has_part_argument = false;
                has_part_argument_erred = false;
                part_idx = i + 1;
            }
        } else if ch == '(' {
            if paren_depth == 0 {
                first_paren_idx = i;
            } else if paren_depth == 1 {
                second_paren_idx = i;
            }
            paren_depth = paren_depth + 1;
        } else if ch == ')' {
            if paren_depth == 0 {
                err(ErrorKey::Validation).msg("closing without opening parenthesis `(`").loc(at).push(errors);
                proof {
                    let r = part_report("closing without opening parenthesis `(`"@, shifted(loc0, i as int));
                    lemma_logged_trans(old(errors), &e1, errors, st.reports, seq![r]);
                    assert(st.reports + seq![r] =~= st.reports.push(r));
                }
            } else if paren_depth == 1 {
                let mut func_loc = token.loc;
                func_loc.column = token.loc.column + part_idx as u32;
                let func_token = token.subtoken(part_idx, first_paren_idx, func_loc);
                let mut arg_loc = token.loc;
                arg_loc.column = token.loc.column + first_paren_idx as u32 + 1;
                let arg_token = token.subtoken_stripped(first_paren_idx + 1, i, arg_loc);
                proof {
                    let r = s.subrange(first_paren_idx + 1, i as int);
                    let (sn, se) = choose|sn: int, se: int|
                        #![trigger leading_ws(r, sn), trailing_ws_end(r, se)]
                        leading_ws(r, sn) && trailing_ws_end(r, se) && arg_token.loc == shifted(arg_loc, sn) && if sn
                            == r.len() {
                            arg_token@ == Seq::<char>::empty()
                        } else {
                            arg_token@ == r.subrange(sn, se)
                        };
                    lemma_lead_ws(r, sn);
                    lemma_trail_ws(r, se);
                    assert((arg_token@, arg_token.loc) == stripped(r, shifted(loc0, first_paren_idx + 1)));
                }
                let ghost before = parts_view(parts@);
                parts.push(Part::TokenArgument(func_token, arg_token));
                proof {
                    assert(parts_view(parts@) =~= before.push(parts@[parts@.len() - 1]@));
                }
                has_part_argument = true;
                paren_depth = 0;
            } else if paren_depth == 2 {
                let mut l = token.loc;
                l.column = token.loc.column + second_paren_idx as u32;
                err(ErrorKey::Validation).msg("cannot have nested parentheses").loc(l).push(errors);
                proof {
                    let r = part_report("cannot have nested parentheses"@, shifted(loc0, second_paren_idx as int));
                    lemma_logged_trans(old(errors), &e1, errors, st.reports, seq![r]);
                    assert(st.reports + seq![r] =~= st.reports.push(r));
                }
                paren_depth = 1;
            }
        } else {
            if has_part_argument && !has_part_argument_erred {
                err(ErrorKey::Validation).msg("argument can only be the last part or followed by dot `.`").loc(at).push(
                    errors,
                );
                proof {
                    let r = part_report("argument can only be the last part or followed by dot `.`"@, shifted(loc0, i as int));
                    lemma_logged_trans(old(errors), &e1, errors, st.reports, seq![r]);
                    assert(st.reports + seq![r] =~= st.reports.push(r));
                }
                has_part_argument_erred = true;
            }
        }
        i = i + 1;
    }
    let ghost st = partition_scan(game, s, loc0, n as int);
    proof {
        lemma_scan_bounds(game, s, loc0, n as int);
    }
    let ghost e1 = *errors;
    if paren_depth > 0 {
        let mut l = token.loc;
        l.column = token.loc.column + first_paren_idx as u32;
        err(ErrorKey::Validation).msg("opening without closing parenthesis `)`").loc(l).push(errors);
        proof {
            let r = part_report("opening without closing parenthesis `)`"@, shifted(loc0, first_paren_idx as int));
            lemma_logged_trans(old(errors), &e1, errors, st.reports, seq![r]);
            assert(st.reports + seq![r] =~= st.reports.push(r));
        }
    }
    let ghost rs = if st.depth > 0 {
        st.reports.push(part_report("opening without closing parenthesis `)`"@, shifted(loc0, st.first_paren)))
    } else {
        st.reports
    };
    let ghost e2 = *errors;
    if part_idx == n {
        let mut l = token.loc;
        l.column = token.loc.column + part_idx as u32;
        err(ErrorKey::Validation).msg("trailing dot `.`").loc(l).push(errors);
        proof {
            let r = part_report("trailing dot `.`"@, shifted(loc0, part_idx as int));
            lemma_logged_trans(old(errors), &e2, errors, rs, seq![r]);
            assert(rs + seq![r] =~= rs.push(r));
        }
    } else if !has_part_argument {
        let mut part_loc = token.loc;
        part_loc.column = token.loc.column + part_idx as u32;
        let part_token = strip_hidden(game, token.subtoken(part_idx, n, part_loc));
        let ghost before = parts_view(parts@);
        parts.push(Part::Token(part_token));
        proof {
            assert(parts_view(parts@) =~= before.push(parts@[parts@.len() - 1]@));
        }
    }
    parts
}

} // verus!
