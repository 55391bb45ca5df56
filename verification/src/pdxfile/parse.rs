//! Parse script text into a [`Scope`].
//!
//! The text is read in two steps. A scanner cuts it into events: tokens, comparators, braces,
//! unknown chars, and warnings about quoted strings. A builder then folds the events into a
//! tree of scopes, reporting what does not fit.
use vstd::prelude::*;

use crate::report::error_key::ErrorKey;
use crate::report::report_struct::Severity;
use crate::scope::{
    Comparator, ItemView, Loc, LocView, Scope, ScopeValue, ScopeView, Token, TokenView, ValueView,
    opt_token_view, scope_view, spec_comparator,
};
use crate::text::concat_str;
use crate::text::{char_is_whitespace, chars_of, spec_ascii_alphanumeric, string_from_chars, string_of, unicode_whitespace};
use crate::token::{len_utf8, spec_len_utf8, utf8_len};

verus! {

/// What the scanner is in the middle of.
#[derive(Copy, Clone, Debug, PartialEq, Eq, Structural)]
pub enum Mode {
    Neutral,
    QString,
    Id,
    Comparator,
    Comment,
}

/// Whether `c` can be part of an unquoted token.
pub open spec fn is_id_char(c: char) -> bool {
    spec_ascii_alphanumeric(c) || c == '.' || c == ':' || c == '$' || c == '_'
}

/// Whether `c` can be part of a comparator.
pub open spec fn is_comparator_char(c: char) -> bool {
    c == '<' || c == '>' || c == '!' || c == '='
}

/// What the scanner hands to the builder.
pub enum EventView {
    /// A token that ended.
    Token(TokenView),
    /// A comparator that ended.
    Comparator(TokenView),
    /// A `{`.
    Open(LocView),
    /// A `}`.
    Close(LocView),
    /// A char that has no place in script.
    Unknown(char, LocView),
    /// A line break inside a quoted string.
    QuoteWarning(TokenView),
    /// A quoted string that the text ends inside.
    QuoteError(TokenView),
}

/// The scanner's state after some chars: its mode, where the current token started (in chars),
/// the location of the last char read (its line and column are already those of the next),
/// the byte offset of the next char, and the events so far.
pub struct LexView {
    pub mode: Mode,
    pub start: int,
    pub loc: LocView,
    pub byte: int,
    pub events: Seq<EventView>,
}

/// The events for a char `c` at `loc` that ends a token, and the mode after it.
pub open spec fn after_token(c: char, loc: LocView, from_comparator: bool) -> (Mode, Seq<EventView>) {
    if from_comparator && c == '"' {
        (Mode::QString, Seq::empty())
    } else if from_comparator && is_id_char(c) {
        (Mode::Id, Seq::empty())
    } else if !from_comparator && is_comparator_char(c) {
        (Mode::Comparator, Seq::empty())
    } else if unicode_whitespace(c) {
        (Mode::Neutral, Seq::empty())
    } else if c == '#' {
        (Mode::Comment, Seq::empty())
    } else if c == '{' {
        (Mode::Neutral, seq![EventView::Open(loc)])
    } else if c == '}' {
        (Mode::Neutral, seq![EventView::Close(loc)])
    } else {
        (Mode::Neutral, seq![EventView::Unknown(c, loc)])
    }
}

/// The scanner's mode, token start and events after reading char `i` of `s` at `loc`.
pub open spec fn lex_action(s: Seq<char>, mode: Mode, start: int, loc: LocView, i: int) -> (Mode, int, Seq<EventView>) {
    let c = s[i];
    match mode {
        Mode::Neutral => {
            let (m, e) = neutral_action(c, loc);
            (m, i, e)
        },
        Mode::Comment => (if c == '\n' {
            Mode::Neutral
        } else {
            Mode::Comment
        }, start, Seq::empty()),
        Mode::QString => {
            if c == '"' {
                (Mode::Id, start, Seq::empty())
            } else if c == '\n' {
                (Mode::QString, start, seq![EventView::QuoteWarning(TokenView { s: s.subrange(start, i + 1), loc })])
            } else {
                (Mode::QString, start, Seq::empty())
            }
        },
        Mode::Id => {
            if c == '"' {
                (Mode::QString, start, Seq::empty())
            } else if is_id_char(c) {
                (Mode::Id, start, Seq::empty())
            } else {
                let (m, e) = after_token(c, loc, false);
                (m, i, seq![EventView::Token(TokenView { s: s.subrange(start, i), loc })] + e)
            }
        },
        Mode::Comparator => {
            if is_comparator_char(c) {
                (Mode::Comparator, start, Seq::empty())
            } else {
                let (m, e) = after_token(c, loc, true);
                (m, i, seq![EventView::Comparator(TokenView { s: s.subrange(start, i), loc })] + e)
            }
        },
    }
}

/// The scanner's state after reading char `i` of `s`.
pub open spec fn lex_step(s: Seq<char>, st: LexView, i: int) -> LexView {
    let c = s[i];
    let loc = LocView { offset: st.byte, ..st.loc };
    let (mode, start, evs) = lex_action(s, st.mode, st.start, loc, i);
    LexView {
        mode,
        start,
        loc: if c == '\n' {
            LocView { line: loc.line + 1, column: 1, ..loc }
        } else {
            LocView { column: loc.column + 1, ..loc }
        },
        byte: st.byte + spec_len_utf8(c),
        events: st.events + evs,
    }
}

/// The scanner's state before any char of a file.
pub open spec fn lex_start(pathname: Seq<char>) -> LexView {
    LexView {
        mode: Mode::Neutral,
        start: 0,
        loc: LocView { pathname, line: 1, column: 1, offset: 0 },
        byte: 0,
        events: Seq::empty(),
    }
}

/// The scanner's state after the first `n` chars of `s`.
pub open spec fn lex_prefix(pathname: Seq<char>, s: Seq<char>, n: int) -> LexView
    decreases n,
{
    if n <= 0 {
        lex_start(pathname)
    } else {
        lex_step(s, lex_prefix(pathname, s, n - 1), n - 1)
    }
}

/// The events of the whole text `s`, including what the text ends in the middle of.
pub open spec fn spec_lex(pathname: Seq<char>, s: Seq<char>) -> Seq<EventView> {
    let st = lex_prefix(pathname, s, s.len() as int);
    let t = TokenView { s: s.subrange(st.start, s.len() as int), loc: st.loc };
    st.events + match st.mode {
        Mode::QString => seq![EventView::QuoteError(t), EventView::Token(t)],
        Mode::Id => seq![EventView::Token(t)],
        Mode::Comparator => seq![EventView::Comparator(t)],
        _ => Seq::empty(),
    }
}

/// The chars that the law below speaks of: ASCII letters and digits, `.`, `:`, `$` and `_`.
pub open spec fn word_char(c: char) -> bool {
    ('a' <= c && c <= 'z') || ('A' <= c && c <= 'Z') || ('0' <= c && c <= '9') || c == '.' || c == ':'
        || c == '$' || c == '_'
}

proof fn lemma_word_prefix(pathname: Seq<char>, s: Seq<char>, n: int)
    requires
        1 <= n <= s.len(),
        forall|i: int| 0 <= i < s.len() ==> word_char(#[trigger] s[i]),
    ensures
        lex_prefix(pathname, s, n).mode == Mode::Id,
        lex_prefix(pathname, s, n).start == 0,
        lex_prefix(pathname, s, n).events == Seq::<EventView>::empty(),
    decreases n,
{
    let c = s[n - 1];
    assert(word_char(c));
    if n > 1 {
        lemma_word_prefix(pathname, s, n - 1);
        let st = lex_prefix(pathname, s, n - 1);
        assert(st.events + Seq::<EventView>::empty() =~= st.events);
    } else {
        assert(lex_prefix(pathname, s, 0) == lex_start(pathname));
        assert(!unicode_whitespace(c));
        assert(Seq::<EventView>::empty() + Seq::<EventView>::empty() =~= Seq::<EventView>::empty());
    }
}

/// A run of ASCII letters and digits, `.`, `:`, `$` and `_` is one unquoted token: lexing a text
/// made only of such chars gives a single token event that holds the whole text, and nothing
/// else, so no char of it is unknown.
pub proof fn law_word_is_one_token(pathname: Seq<char>, s: Seq<char>)
    requires
        s.len() > 0,
        forall|i: int| 0 <= i < s.len() ==> word_char(#[trigger] s[i]),
    ensures
        spec_lex(pathname, s).len() == 1,
        spec_lex(pathname, s)[0] matches EventView::Token(t) && t.s == s,
{
    lemma_word_prefix(pathname, s, s.len() as int);
    let st = lex_prefix(pathname, s, s.len() as int);
    assert(s.subrange(0, s.len() as int) =~= s);
    let t = TokenView { s: s.subrange(st.start, s.len() as int), loc: st.loc };
    assert(spec_lex(pathname, s) =~= seq![EventView::Token(t)]);
}

/// What the scanner hands to the builder.
#[derive(Debug)]
pub enum Event {
    Token(Token),
    Comparator(Token),
    Open(Loc),
    Close(Loc),
    Unknown(char, Loc),
    QuoteWarning(Token),
    QuoteError(Token),
}

impl View for Event {
    type V = EventView;

    open spec fn view(&self) -> EventView {
        match self {
            Event::Token(t) => EventView::Token(t@),
            Event::Comparator(t) => EventView::Comparator(t@),
            Event::Open(l) => EventView::Open(l@),
            Event::Close(l) => EventView::Close(l@),
            Event::Unknown(c, l) => EventView::Unknown(*c, l@),
            Event::QuoteWarning(t) => EventView::QuoteWarning(t@),
            Event::QuoteError(t) => EventView::QuoteError(t@),
        }
    }
}

/// The views of the events.
pub open spec fn events_view(v: Seq<Event>) -> Seq<EventView> {
    v.map_values(|e: Event| e@)
}

/// Whether `c` can be part of an unquoted token.
fn id_char(c: char) -> (b: bool)
    ensures
        b == is_id_char(c),
{
    ('a' <= c && c <= 'z') || ('A' <= c && c <= 'Z') || ('0' <= c && c <= '9') || c == '.' || c == ':' || c == '$' || c == '_'
}

/// Whether `c` can be part of a comparator.
fn comparator_char(c: char) -> (b: bool)
    ensures
        b == is_comparator_char(c),
{
    c == '<' || c == '>' || c == '!' || c == '='
}

/// A location in the file `pathname`.
fn make_loc(pathname: &str, line: usize, column: usize, offset: usize) -> (l: Loc)
    ensures
        l@ == (LocView { pathname: pathname@, line: line as int, column: column as int, offset: offset as int }),
{
    Loc::new(string_of(pathname), line, column, offset)
}

/// The events for char `c` at `loc` read between tokens, and the mode after it.
pub open spec fn neutral_action(c: char, loc: LocView) -> (Mode, Seq<EventView>) {
    if unicode_whitespace(c) {
        (Mode::Neutral, Seq::empty())
    } else if c == '"' {
        (Mode::QString, Seq::empty())
    } else if c == '#' {
        (Mode::Comment, Seq::empty())
    } else if is_comparator_char(c) {
        (Mode::Comparator, Seq::empty())
    } else if is_id_char(c) {
        (Mode::Id, Seq::empty())
    } else if c == '{' {
        (Mode::Neutral, seq![EventView::Open(loc)])
    } else if c == '}' {
        (Mode::Neutral, seq![EventView::Close(loc)])
    } else {
        (Mode::Neutral, seq![EventView::Unknown(c, loc)])
    }
}

/// The events for char `c` read between tokens, and the mode after it.
fn neutral_char(c: char, pathname: &str, line: usize, column: usize, offset: usize, events: &mut Vec<Event>) -> (m: Mode)
    ensures
        ({
            let (sm, se) = neutral_action(c, LocView { pathname: pathname@, line: line as int, column: column as int, offset: offset as int });
            m == sm && events_view(final(events)@) == events_view(old(events)@) + se
        }),
{
    let ghost before = events_view(events@);
    let ghost lv = LocView { pathname: pathname@, line: line as int, column: column as int, offset: offset as int };
    if char_is_whitespace(c) {
        assert(events_view(events@) =~= before + Seq::<EventView>::empty());
        Mode::Neutral
    } else if c == '"' {
        assert(events_view(events@) =~= before + Seq::<EventView>::empty());
        Mode::QString
    } else if c == '#' {
        assert(events_view(events@) =~= before + Seq::<EventView>::empty());
        Mode::Comment
    } else if comparator_char(c) {
        assert(events_view(events@) =~= before + Seq::<EventView>::empty());
        Mode::Comparator
    } else if id_char(c) {
        assert(events_view(events@) =~= before + Seq::<EventView>::empty());
        Mode::Id
    } else if c == '{' {
        events.push(Event::Open(make_loc(pathname, line, column, offset)));
        assert(events_view(events@) =~= before + seq![EventView::Open(lv)]);
        Mode::Neutral
    } else if c == '}' {
        events.push(Event::Close(make_loc(pathname, line, column, offset)));
        assert(events_view(events@) =~= before + seq![EventView::Close(lv)]);
        Mode::Neutral
    } else {
        events.push(Event::Unknown(c, make_loc(pathname, line, column, offset)));
        assert(events_view(events@) =~= before + seq![EventView::Unknown(c, lv)]);
        Mode::Neutral
    }
}

/// The events for a char `c` at `loc` that ends a token, and the mode after it.
fn after_token_exec(c: char, pathname: &str, line: usize, column: usize, offset: usize, from_comparator: bool, events: &mut Vec<Event>) -> (m: Mode)
    ensures
        ({
            let (sm, se) = after_token(c, LocView { pathname: pathname@, line: line as int, column: column as int, offset: offset as int }, from_comparator);
            m == sm && events_view(final(events)@) == events_view(old(events)@) + se
        }),
{
    let ghost before = events_view(events@);
    let ghost lv = LocView { pathname: pathname@, line: line as int, column: column as int, offset: offset as int };
    if from_comparator && c == '"' {
        assert(events_view(events@) =~= before + Seq::<EventView>::empty());
        Mode::QString
    } else if from_comparator && id_char(c) {
        assert(events_view(events@) =~= before + Seq::<EventView>::empty());
        Mode::Id
    } else if !from_comparator && comparator_char(c) {
        assert(events_view(events@) =~= before + Seq::<EventView>::empty());
        Mode::Comparator
    } else if char_is_whitespace(c) {
        assert(events_view(events@) =~= before + Seq::<EventView>::empty());
        Mode::Neutral
    } else if c == '#' {
        assert(events_view(events@) =~= before + Seq::<EventView>::empty());
        Mode::Comment
    } else if c == '{' {
        events.push(Event::Open(make_loc(pathname, line, column, offset)));
        assert(events_view(events@) =~= before + seq![EventView::Open(lv)]);
        Mode::Neutral
    } else if c == '}' {
        events.push(Event::Close(make_loc(pathname, line, column, offset)));
        assert(events_view(events@) =~= before + seq![EventView::Close(lv)]);
        Mode::Neutral
    } else {
        events.push(Event::Unknown(c, make_loc(pathname, line, column, offset)));
        assert(events_view(events@) =~= before + seq![EventView::Unknown(c, lv)]);
        Mode::Neutral
    }
}

/// At least one byte per char.
proof fn lemma_utf8_len_at_least(s: Seq<char>)
    ensures
        utf8_len(s) >= s.len(),
    decreases s.len(),
{
    if s.len() > 0 {
        lemma_utf8_len_at_least(s.drop_last());
    }
}

/// The bytes of a prefix are no more than those of the whole.
proof fn lemma_utf8_len_prefix(s: Seq<char>, k: int)
    requires
        0 <= k <= s.len(),
    ensures
        utf8_len(s.take(k)) <= utf8_len(s),
    decreases s.len() - k,
{
    if k < s.len() {
        lemma_utf8_len_prefix(s, k + 1);
        assert(s.take(k + 1).drop_last() =~= s.take(k));
    } else {
        assert(s.take(k) =~= s);
    }
}

/// What the scanner's state says about the first `n` chars: the token start and location are
/// within them, and the byte offset is that of char `n`.
proof fn lemma_lex_prefix_bounds(pathname: Seq<char>, s: Seq<char>, n: int)
    requires
        0 <= n <= s.len(),
    ensures
        0 <= lex_prefix(pathname, s, n).start <= n,
        lex_prefix(pathname, s, n).byte == utf8_len(s.take(n)),
        1 <= lex_prefix(pathname, s, n).loc.line <= n + 1,
        1 <= lex_prefix(pathname, s, n).loc.column <= n + 1,
        0 <= lex_prefix(pathname, s, n).loc.offset <= lex_prefix(pathname, s, n).byte,
        lex_prefix(pathname, s, n).loc.pathname == pathname,
    decreases n,
{
    if n > 0 {
        lemma_lex_prefix_bounds(pathname, s, n - 1);
        assert(s.take(n).drop_last() =~= s.take(n - 1));
    } else {
        assert(s.take(0) =~= Seq::<char>::empty());
    }
}

/// Cut the text into events.
pub fn lex(pathname: &str, content: &str) -> (r: Vec<Event>)
    requires
        utf8_len(content@) < usize::MAX,
    ensures
        events_view(r@) == spec_lex(pathname@, content@),
{
    let v = chars_of(content);
    let ghost s = v@;
    let ghost p = pathname@;
    let mut events: Vec<Event> = Vec::new();
    let mut mode = Mode::Neutral;
    let mut start: usize = 0;
    let mut line: usize = 1;
    let mut column: usize = 1;
    let mut offset: usize = 0;
    let mut byte: usize = 0;
    let mut i: usize = 0;
    assert(events_view(events@) =~= Seq::<EventView>::empty());
    proof {
        lemma_utf8_len_at_least(s);
    }
    while i < v.len()
        invariant
            s == v@,
            s == content@,
            p == pathname@,
            utf8_len(s) < usize::MAX,
            utf8_len(s) >= s.len(),
            i <= s.len(),
            ({
                let st = lex_prefix(p, s, i as int);
                &&& mode == st.mode
                &&& start == st.start
                &&& line == st.loc.line
                &&& column == st.loc.column
                &&& offset == st.loc.offset
                &&& byte == st.byte
                &&& events_view(events@) == st.events
            }),
        decreases v.len() - i,
    {
        proof {
            lemma_lex_prefix_bounds(p, s, i as int);
            lemma_lex_prefix_bounds(p, s, i + 1);
            lemma_utf8_len_prefix(s, i + 1);
        }
        let ghost st = lex_prefix(p, s, i as int);
        let ghost loc = LocView { offset: byte as int, ..st.loc };
        let ghost before = events_view(events@);
        let c = v[i];
        offset = byte;
        let (m, new_start) = match mode {
            Mode::Neutral => {
                let m = neutral_char(c, pathname, line, column, offset, &mut events);
                (m, i)
            },
            Mode::Comment => {
                if c == '\n' {
                    (Mode::Neutral, start)
                } else {
                    (Mode::Comment, start)
                }
            },
            Mode::QString => {
                if c == '"' {
                    (Mode::Id, start)
                } else if c == '\n' {
                    let t = Token::new(string_from_chars(v.as_slice(), start, i + 1), make_loc(pathname, line, column, offset));
                    events.push(Event::QuoteWarning(t));
                    assert(events_view(events@) =~= before + seq![EventView::QuoteWarning(TokenView { s: s.subrange(start as int, i + 1), loc })]);
                    (Mode::QString, start)
                } else {
                    (Mode::QString, start)
                }
            },
            Mode::Id => {
                if c == '"' {
                    (Mode::QString, start)
                } else if id_char(c) {
                    (Mode::Id, start)
                } else {
                    let t = Token::new(string_from_chars(v.as_slice(), start, i), make_loc(pathname, line, column, offset));
                    events.push(Event::Token(t));
                    assert(events_view(events@) =~= before.push(EventView::Token(TokenView { s: s.subrange(start as int, i as int), loc })));
                    let m = after_token_exec(c, pathname, line, column, offset, false, &mut events);
                    (m, i)
                }
            },
            Mode::Comparator => {
                if comparator_char(c) {
                    (Mode::Comparator, start)
                } else {
                    let t = Token::new(string_from_chars(v.as_slice(), start, i), make_loc(pathname, line, column, offset));
                    events.push(Event::Comparator(t));
                    assert(events_view(events@) =~= before.push(EventView::Comparator(TokenView { s: s.subrange(start as int, i as int), loc })));
                    let m = after_token_exec(c, pathname, line, column, offset, true, &mut events);
                    (m, i)
                }
            },
        };
        proof {
            let (am, ast, ae) = lex_action(s, st.mode, st.start, loc, i as int);
            assert(m == am);
            assert(new_start == ast);
            assert(events_view(events@) =~= before + ae);
        }
        mode = m;
        start = new_start;
        if c == '\n' {
            line = line + 1;
            column = 1;
        } else {
            column = column + 1;
        }
        byte = byte + len_utf8(c) as usize;
        i = i + 1;
    }
    proof {
        lemma_lex_prefix_bounds(p, s, s.len() as int);
    }
    let ghost st = lex_prefix(p, s, s.len() as int);
    let ghost before = events_view(events@);
    let ghost t = TokenView { s: s.subrange(st.start, s.len() as int), loc: st.loc };
    match mode {
        Mode::QString => {
            let a = Token::new(string_from_chars(v.as_slice(), start, v.len()), make_loc(pathname, line, column, offset));
            let b = Token::new(string_from_chars(v.as_slice(), start, v.len()), make_loc(pathname, line, column, offset));
            events.push(Event::QuoteError(a));
            events.push(Event::Token(b));
            assert(events_view(events@) =~= before + seq![EventView::QuoteError(t), EventView::Token(t)]);
        },
        Mode::Id => {
            let a = Token::new(string_from_chars(v.as_slice(), start, v.len()), make_loc(pathname, line, column, offset));
            events.push(Event::Token(a));
            assert(events_view(events@) =~= before + seq![EventView::Token(t)]);
        },
        Mode::Comparator => {
            let a = Token::new(string_from_chars(v.as_slice(), start, v.len()), make_loc(pathname, line, column, offset));
            events.push(Event::Comparator(a));
            assert(events_view(events@) =~= before + seq![EventView::Comparator(t)]);
        },
        _ => {
            assert(events_view(events@) =~= before + Seq::<EventView>::empty());
        },
    }
    events
}

// ---------------------------------------------------------------------------------------------
// Building the tree
// ---------------------------------------------------------------------------------------------

/// A problem found while parsing.
#[derive(Debug)]
pub struct ParseError {
    pub severity: Severity,
    pub key: ErrorKey,
    pub token: Token,
    pub msg: String,
}

/// The content of a [`ParseError`].
pub struct ParseErrorView {
    pub severity: Severity,
    pub key: ErrorKey,
    pub token: TokenView,
    pub msg: Seq<char>,
}

impl View for ParseError {
    type V = ParseErrorView;

    open spec fn view(&self) -> ParseErrorView {
        ParseErrorView { severity: self.severity, key: self.key, token: self.token@, msg: self.msg@ }
    }
}

/// The views of the problems.
pub open spec fn errors_view(v: Seq<ParseError>) -> Seq<ParseErrorView> {
    v.map_values(|e: ParseError| e@)
}

/// One open scope: its items so far, and a key and comparator still waiting for a value.
pub struct LevelView {
    pub scope: ScopeView,
    pub key: Option<TokenView>,
    pub comp: Option<(Comparator, TokenView)>,
}

/// The builder's state: the innermost open scope, the ones around it (outermost first),
/// whether a brace did not match, and the problems found.
pub struct BuildView {
    pub current: LevelView,
    pub stack: Seq<LevelView>,
    pub brace_error: bool,
    pub errors: Seq<ParseErrorView>,
}

/// The level with one more item.
pub open spec fn with_item(l: LevelView, it: ItemView) -> LevelView {
    LevelView { scope: ScopeView { items: l.scope.items.push(it), ..l.scope }, ..l }
}

/// The state with one more problem.
pub open spec fn with_error(b: BuildView, severity: Severity, t: TokenView, msg: Seq<char>) -> BuildView {
    BuildView { errors: b.errors.push(ParseErrorView { severity, key: ErrorKey::ParseError, token: t, msg }), ..b }
}

/// A loose value item.
pub open spec fn loose(v: ValueView) -> ItemView {
    ItemView { key: None, op: Comparator::Absent, value: v }
}

/// After a token: it is the value of a waiting `key op`, or else it waits as a key itself and a
/// waiting key becomes a loose value.
pub open spec fn build_token(b: BuildView, t: TokenView) -> BuildView {
    let cur = b.current;
    match cur.key {
        Some(k) => match cur.comp {
            Some((op, _)) => BuildView {
                current: LevelView { key: None, comp: None, ..with_item(cur, ItemView { key: Some(k), op, value: ValueView::Token(t) }) },
                ..b
            },
            None => BuildView {
                current: LevelView { key: Some(t), comp: None, ..with_item(cur, loose(ValueView::Token(k))) },
                ..b
            },
        },
        None => BuildView { current: LevelView { key: Some(t), ..cur }, ..b },
    }
}

/// After a closed scope: it is the value of a waiting `key op`, or else it is a loose value and
/// a waiting key becomes a loose value before it. A scope never waits as a key.
pub open spec fn build_scope_value(b: BuildView, sv: ScopeView) -> BuildView {
    let cur = b.current;
    match cur.key {
        Some(k) => match cur.comp {
            Some((op, _)) => BuildView {
                current: LevelView { key: None, comp: None, ..with_item(cur, ItemView { key: Some(k), op, value: ValueView::Scope(sv) }) },
                ..b
            },
            None => BuildView {
                current: LevelView {
                    key: None,
                    comp: None,
                    ..with_item(with_item(cur, loose(ValueView::Token(k))), loose(ValueView::Scope(sv)))
                },
                ..b
            },
        },
        None => BuildView { current: with_item(cur, loose(ValueView::Scope(sv))), ..b },
    }
}

/// The comparator a token writes, or `=` after reporting it.
pub open spec fn read_comparator(b: BuildView, t: TokenView) -> (BuildView, Comparator) {
    match spec_comparator(t.s) {
        Some(op) => (b, op),
        None => (with_error(b, Severity::Error, t, "Unrecognized comparator '"@ + t.s + "'"@), Comparator::Eq),
    }
}

/// After a comparator: it waits after the waiting key; without a key it is reported, and a
/// second one is reported but replaces the first.
pub open spec fn build_comparator(b: BuildView, t: TokenView) -> BuildView {
    let (b1, op) = read_comparator(b, t);
    if b1.current.key is None {
        with_error(b1, Severity::Error, t, "Unexpected comparator '"@ + t.s + "'"@)
    } else {
        let b2 = if b1.current.comp is Some {
            with_error(b1, Severity::Error, t, "Double comparator '"@ + t.s + "'"@)
        } else {
            b1
        };
        BuildView { current: LevelView { comp: Some((op, t)), ..b2.current }, ..b2 }
    }
}

/// At the end of a scope: a waiting key becomes a loose value, and a waiting comparator is
/// reported.
pub open spec fn build_end_assign(b: BuildView) -> BuildView {
    match b.current.key {
        Some(k) => {
            let b1 = match b.current.comp {
                Some((_, ct)) => with_error(b, Severity::Error, ct, "Comparator without value"@),
                None => b,
            };
            BuildView {
                current: LevelView { key: None, comp: None, ..with_item(b1.current, loose(ValueView::Token(k))) },
                ..b1
            }
        },
        None => b,
    }
}

/// After a `{` at `loc`: a new scope opens inside the current one.
pub open spec fn build_open(b: BuildView, loc: LocView) -> BuildView {
    BuildView {
        current: LevelView { scope: ScopeView { items: Seq::empty(), loc }, key: None, comp: None },
        stack: b.stack.push(b.current),
        ..b
    }
}

/// The innermost scope closes and becomes a value in the one around it.
pub open spec fn pop_level(b: BuildView) -> BuildView
    recommends
        b.stack.len() > 0,
{
    build_scope_value(BuildView { current: b.stack.last(), stack: b.stack.drop_last(), ..b }, b.current.scope)
}

/// After a `}` at `loc`: the innermost scope closes; if none is open, that is reported.
pub open spec fn build_close(b: BuildView, loc: LocView) -> BuildView {
    let b1 = build_end_assign(b);
    if b1.stack.len() > 0 {
        pop_level(b1)
    } else {
        with_error(BuildView { brace_error: true, ..b1 }, Severity::Error, TokenView { s: "}"@, loc }, "Unexpected }"@)
    }
}

/// The state after one event.
pub open spec fn build_event(b: BuildView, e: EventView) -> BuildView {
    match e {
        EventView::Token(t) => build_token(b, t),
        EventView::Comparator(t) => build_comparator(b, t),
        EventView::Open(l) => build_open(b, l),
        EventView::Close(l) => build_close(b, l),
        EventView::Unknown(c, l) => with_error(b, Severity::Error, TokenView { s: seq![c], loc: l }, "Unrecognized character "@ + seq![c]),
        EventView::QuoteWarning(t) => with_error(b, Severity::Warning, t, "Quoted string not closed"@),
        EventView::QuoteError(t) => with_error(b, Severity::Error, t, "Quoted string not closed"@),
    }
}

/// The state after the first `n` events.
pub open spec fn build_events(b: BuildView, evs: Seq<EventView>, n: int) -> BuildView
    decreases n,
{
    if n <= 0 {
        b
    } else {
        build_event(build_events(b, evs, n - 1), evs[n - 1])
    }
}

/// At the end of the text, every scope still open is reported and closed.
pub open spec fn close_remaining(b: BuildView) -> BuildView
    decreases b.stack.len(),
{
    if b.stack.len() == 0 {
        b
    } else {
        let b1 = with_error(BuildView { brace_error: true, ..b }, Severity::Error, TokenView { s: "{"@, loc: b.current.scope.loc }, "Opening { was never closed"@);
        close_remaining(pop_level(b1))
    }
}

/// The state before the first event of a file.
pub open spec fn build_start(pathname: Seq<char>) -> BuildView {
    BuildView {
        current: LevelView {
            scope: ScopeView { items: Seq::empty(), loc: LocView { pathname, line: 1, column: 1, offset: 0 } },
            key: None,
            comp: None,
        },
        stack: Seq::empty(),
        brace_error: false,
        errors: Seq::empty(),
    }
}

/// The state after the whole text `s` of the file `pathname`.
pub open spec fn spec_parse(pathname: Seq<char>, s: Seq<char>) -> BuildView {
    let evs = spec_lex(pathname, s);
    close_remaining(build_end_assign(build_events(build_start(pathname), evs, evs.len() as int)))
}

/// The tree of the file, or the message that its braces do not match.
pub open spec fn spec_parse_result(pathname: Seq<char>, s: Seq<char>) -> Result<ScopeView, Seq<char>> {
    let b = spec_parse(pathname, s);
    if b.brace_error {
        Err("Could not parse "@ + pathname + " due to brace mismatch"@)
    } else {
        Ok(b.current.scope)
    }
}

/// One open scope, with a key and comparator still waiting for a value.
struct Level {
    scope: Scope,
    key: Option<Token>,
    comp: Option<(Comparator, Token)>,
}

/// The content of a level.
spec fn level_view(l: &Level) -> LevelView {
    LevelView {
        scope: scope_view(&l.scope),
        key: opt_token_view(l.key),
        comp: match l.comp {
            Some((op, t)) => Some((op, t@)),
            None => None,
        },
    }
}

/// The content of a stack of levels.
spec fn stack_view(v: Seq<Level>) -> Seq<LevelView> {
    v.map_values(|l: Level| level_view(&l))
}

/// The builder that folds events into a tree.
struct Builder {
    current: Level,
    stack: Vec<Level>,
    brace_error: bool,
    errors: Vec<ParseError>,
}

/// The content of the builder.
spec fn builder_view(b: &Builder) -> BuildView {
    BuildView {
        current: level_view(&b.current),
        stack: stack_view(b.stack@),
        brace_error: b.brace_error,
        errors: errors_view(b.errors@),
    }
}

/// A token with the text `s` at `loc`.
fn token_at(s: &str, loc: &Loc) -> (t: Token)
    ensures
        t@ == (TokenView { s: s@, loc: loc@ }),
{
    Token::new(string_of(s), loc.copy())
}

impl Builder {
    /// Record a problem of parse-error kind.
    fn error(&mut self, severity: Severity, token: Token, msg: String)
        ensures
            builder_view(final(self)) == with_error(builder_view(old(self)), severity, token@, msg@),
    {
        let ghost before = builder_view(self);
        let ghost tv = token@;
        self.errors.push(ParseError { severity, key: ErrorKey::ParseError, token, msg });
        assert(errors_view(self.errors@) =~= before.errors.push(ParseErrorView { severity, key: ErrorKey::ParseError, token: tv, msg: msg@ }));
    }

    fn token(&mut self, t: Token)
        ensures
            builder_view(final(self)) == build_token(builder_view(old(self)), t@),
    {
        let ghost tv = t@;
        match self.current.key.take() {
            Some(k) => {
                let ghost kv = k@;
                match self.current.comp.take() {
                    Some((op, _)) => {
                        self.current.scope.add_key_value(k, op, ScopeValue::Token(t));
                    },
                    None => {
                        self.current.scope.add_value(ScopeValue::Token(k));
                        self.current.key = Some(t);
                    },
                }
            },
            None => {
                self.current.key = Some(t);
            },
        }
    }

    fn scope_value(&mut self, sc: Scope)
        ensures
            builder_view(final(self)) == build_scope_value(builder_view(old(self)), scope_view(&sc)),
    {
        match self.current.key.take() {
            Some(k) => {
                match self.current.comp.take() {
                    Some((op, _)) => {
                        self.current.scope.add_key_value(k, op, ScopeValue::Scope(sc));
                    },
                    None => {
                        self.current.scope.add_value(ScopeValue::Token(k));
                        self.current.scope.add_value(ScopeValue::Scope(sc));
                    },
                }
            },
            None => {
                self.current.scope.add_value(ScopeValue::Scope(sc));
            },
        }
    }

    fn comparator(&mut self, t: Token)
        ensures
            builder_view(final(self)) == build_comparator(builder_view(old(self)), t@),
    {
        let op = match Comparator::from_token(&t) {
            Some(op) => op,
            None => {
                let a = concat_str("Unrecognized comparator '", t.as_str());
                let msg = concat_str(a.as_str(), "'");
                self.error(Severity::Error, t.copy(), msg);
                Comparator::Eq
            },
        };
        if self.current.key.is_none() {
            let a = concat_str("Unexpected comparator '", t.as_str());
            let msg = concat_str(a.as_str(), "'");
            self.error(Severity::Error, t, msg);
        } else {
            if self.current.comp.is_some() {
                let a = concat_str("Double comparator '", t.as_str());
                let msg = concat_str(a.as_str(), "'");
                self.error(Severity::Error, t.copy(), msg);
            }
            self.current.comp = Some((op, t));
        }
    }

    fn end_assign(&mut self)
        ensures
            builder_view(final(self)) == build_end_assign(builder_view(old(self))),
    {
        match self.current.key.take() {
            Some(k) => {
                match self.current.comp.take() {
                    Some((_, ct)) => {
                        self.error(Severity::Error, ct, string_of("Comparator without value"));
                    },
                    None => {},
                }
                self.current.scope.add_value(ScopeValue::Token(k));
            },
            None => {},
        }
    }

    fn open_brace(&mut self, loc: Loc)
        ensures
            builder_view(final(self)) == build_open(builder_view(old(self)), loc@),
    {
        let ghost before = builder_view(self);
        let mut level = Level { scope: Scope::new(loc), key: None, comp: None };
        std::mem::swap(&mut level, &mut self.current);
        self.stack.push(level);
        assert(stack_view(self.stack@) =~= before.stack.push(before.current));
    }

    /// Close the innermost scope into the one around it.
    fn pop(&mut self)
        requires
            old(self).stack@.len() > 0,
        ensures
            builder_view(final(self)) == pop_level(builder_view(old(self))),
    {
        let ghost before = builder_view(self);
        let mut level = self.stack.pop().unwrap();
        std::mem::swap(&mut level, &mut self.current);
        assert(stack_view(self.stack@) =~= before.stack.drop_last());
        self.scope_value(level.scope);
    }

    fn close_brace(&mut self, loc: Loc)
        ensures
            builder_view(final(self)) == build_close(builder_view(old(self)), loc@),
    {
        self.end_assign();
        if self.stack.len() > 0 {
            self.pop();
        } else {
            self.brace_error = true;
            let t = token_at("}", &loc);
            self.error(Severity::Error, t, string_of("Unexpected }"));
        }
    }

    fn event(&mut self, e: Event)
        ensures
            builder_view(final(self)) == build_event(builder_view(old(self)), e@),
    {
        match e {
            Event::Token(t) => self.token(t),
            Event::Comparator(t) => self.comparator(t),
            Event::Open(l) => self.open_brace(l),
            Event::Close(l) => self.close_brace(l),
            Event::Unknown(c, l) => {
                let mut s = String::new();
                crate::text::string_push(&mut s, c);
                let msg = concat_str("Unrecognized character ", s.as_str());
                self.error(Severity::Error, Token::new(s, l), msg);
            },
            Event::QuoteWarning(t) => self.error(Severity::Warning, t, string_of("Quoted string not closed")),
            Event::QuoteError(t) => self.error(Severity::Error, t, string_of("Quoted string not closed")),
        }
    }

    /// Report and close every scope that is still open.
    fn close_all(&mut self)
        ensures
            builder_view(final(self)) == close_remaining(builder_view(old(self))),
    {
        while self.stack.len() > 0
            invariant
                close_remaining(builder_view(self)) == close_remaining(builder_view(old(self))),
            decreases self.stack@.len(),
        {
            self.brace_error = true;
            let t = token_at("{", &self.current.scope.loc);
            self.error(Severity::Error, t, string_of("Opening { was never closed"));
            self.pop();
        }
    }
}

/// Parse the script text `content` of the file `pathname` into a [`Scope`]. Problems are added
/// to `errors`. If the braces do not match, the structure is unclear and the result is an
/// error message instead.
pub fn parse_pdx(pathname: &str, content: &str, errors: &mut Vec<ParseError>) -> (r: Result<Scope, String>)
    requires
        utf8_len(content@) < usize::MAX,
    ensures
        errors_view(final(errors)@) == errors_view(old(errors)@) + spec_parse(pathname@, content@).errors,
        match r {
            Ok(sc) => spec_parse_result(pathname@, content@) == Ok::<ScopeView, Seq<char>>(scope_view(&sc)),
            Err(m) => spec_parse_result(pathname@, content@) == Err::<ScopeView, Seq<char>>(m@),
        },
{
    let events = lex(pathname, content);
    let ghost evs = events_view(events@);
    let root = Scope::new(make_loc(pathname, 1, 1, 0));
    let mut b = Builder {
        current: Level { scope: root, key: None, comp: None },
        stack: Vec::new(),
        brace_error: false,
        errors: Vec::new(),
    };
    assert(builder_view(&b) =~= build_start(pathname@)) by {
        assert(stack_view(b.stack@) =~= Seq::<LevelView>::empty());
        assert(errors_view(b.errors@) =~= Seq::<ParseErrorView>::empty());
    }
    let mut events = events;
    let ghost total = evs.len() as int;
    let mut rev: Vec<Event> = Vec::new();
    while events.len() > 0
        invariant
            evs.len() == total,
            events@.len() + rev@.len() == total,
            forall|k: int| 0 <= k < events@.len() ==> (#[trigger] events@[k])@ == evs[k],
            forall|k: int| 0 <= k < rev@.len() ==> (#[trigger] rev@[k])@ == evs[total - 1 - k],
        decreases events@.len(),
    {
        let e = events.pop().unwrap();
        rev.push(e);
    }
    let mut events = rev;
    let count = events.len();
    let mut n: usize = 0;
    while events.len() > 0
        invariant
            evs.len() == total,
            n + events@.len() == total,
            total == count,
            forall|k: int| 0 <= k < events@.len() ==> (#[trigger] events@[k])@ == evs[total - 1 - k],
            builder_view(&b) == build_events(build_start(pathname@), evs, n as int),
        decreases events@.len(),
    {
        let e = events.pop().unwrap();
        assert(e@ == evs[n as int]);
        b.event(e);
        n = n + 1;
    }
    b.end_assign();
    b.close_all();
    let ghost fin = builder_view(&b);
    let Builder { current, stack: _, brace_error, errors: errs } = b;
    let ghost before = errors_view(errors@);
    let mut errs = errs;
    errors.append(&mut errs);
    assert(errors_view(errors@) =~= before + fin.errors);
    if brace_error {
        let a = concat_str("Could not parse ", pathname);
        Err(concat_str(a.as_str(), " due to brace mismatch"))
    } else {
        Ok(current.scope)
    }
}

} // verus!
