//! The tree that the script parser builds: scopes of `key = value` pairs and loose values.
use vstd::prelude::*;

use crate::text::str_eq;

pub mod validator;

verus! {

/// A position in a script file. Lines and columns count from 1; the offset is in bytes.
#[derive(Debug)]
pub struct Loc {
    pub pathname: String,
    pub line: usize,
    pub column: usize,
    pub offset: usize,
}

/// The content of a [`Loc`].
pub struct LocView {
    pub pathname: Seq<char>,
    pub line: int,
    pub column: int,
    pub offset: int,
}

impl View for Loc {
    type V = LocView;

    open spec fn view(&self) -> LocView {
        LocView { pathname: self.pathname@, line: self.line as int, column: self.column as int, offset: self.offset as int }
    }
}

impl Loc {
    pub fn new(pathname: String, line: usize, column: usize, offset: usize) -> (l: Loc)
        ensures
            l@ == (LocView { pathname: pathname@, line: line as int, column: column as int, offset: offset as int }),
    {
        Loc { pathname, line, column, offset }
    }

    /// A copy of the location.
    pub fn copy(&self) -> (l: Loc)
        ensures
            l@ == self@,
    {
        Loc { pathname: self.pathname.clone(), line: self.line, column: self.column, offset: self.offset }
    }
}

/// A piece of script text and where it starts.
#[derive(Debug)]
pub struct Token {
    pub s: String,
    pub loc: Loc,
}

/// The content of a [`Token`].
pub struct TokenView {
    pub s: Seq<char>,
    pub loc: LocView,
}

impl View for Token {
    type V = TokenView;

    open spec fn view(&self) -> TokenView {
        TokenView { s: self.s@, loc: self.loc@ }
    }
}

impl Token {
    pub fn new(s: String, loc: Loc) -> (t: Token)
        ensures
            t@ == (TokenView { s: s@, loc: loc@ }),
    {
        Token { s, loc }
    }

    /// A copy of the token.
    pub fn copy(&self) -> (t: Token)
        ensures
            t@ == self@,
    {
        Token { s: self.s.clone(), loc: self.loc.copy() }
    }

    /// The token's text.
    pub fn as_str(&self) -> (s: &str)
        ensures
            s@ == self.s@,
    {
        self.s.as_str()
    }
}

/// The relation between a key and its value.
#[derive(Copy, Clone, Debug, PartialEq, Eq, Structural)]
pub enum Comparator {
    /// A loose value, with no key and so no comparator.
    Absent,
    /// `=`, which is also assignment.
    Eq,
    /// `<`
    Lt,
    /// `>`
    Gt,
    /// `<=`
    Le,
    /// `>=`
    Ge,
    /// `!=`
    Ne,
}

/// The comparator that `s` writes, if any.
pub open spec fn spec_comparator(s: Seq<char>) -> Option<Comparator> {
    if s == "="@ {
        Some(Comparator::Eq)
    } else if s == "<"@ {
        Some(Comparator::Lt)
    } else if s == ">"@ {
        Some(Comparator::Gt)
    } else if s == "<="@ {
        Some(Comparator::Le)
    } else if s == ">="@ {
        Some(Comparator::Ge)
    } else if s == "!="@ {
        Some(Comparator::Ne)
    } else {
        None
    }
}

impl Comparator {
    /// The comparator that `s` writes, if any.
    pub fn from_str(s: &str) -> (c: Option<Comparator>)
        ensures
            c == spec_comparator(s@),
    {
        if str_eq(s, "=") {
            Some(Comparator::Eq)
        } else if str_eq(s, "<") {
            Some(Comparator::Lt)
        } else if str_eq(s, ">") {
            Some(Comparator::Gt)
        } else if str_eq(s, "<=") {
            Some(Comparator::Le)
        } else if str_eq(s, ">=") {
            Some(Comparator::Ge)
        } else if str_eq(s, "!=") {
            Some(Comparator::Ne)
        } else {
            None
        }
    }

    /// The comparator that the token writes, if any.
    pub fn from_token(token: &Token) -> (c: Option<Comparator>)
        ensures
            c == spec_comparator(token@.s),
    {
        Self::from_str(token.s.as_str())
    }
}

/// A value: a token or a scope.
#[derive(Debug)]
pub enum ScopeValue {
    Token(Token),
    Scope(Scope),
}

/// A `{ ... }` scope of script, or a whole file: `key = value` items and loose values, which
/// have no key and [`Comparator::Absent`].
#[derive(Debug)]
pub struct Scope {
    pub v: Vec<(Option<Token>, Comparator, ScopeValue)>,
    pub loc: Loc,
}

/// The content of a [`ScopeValue`].
pub enum ValueView {
    Token(TokenView),
    Scope(ScopeView),
}

/// The content of one item of a scope.
pub struct ItemView {
    pub key: Option<TokenView>,
    pub op: Comparator,
    pub value: ValueView,
}

/// The content of a [`Scope`].
pub struct ScopeView {
    pub items: Seq<ItemView>,
    pub loc: LocView,
}

/// The content of an optional token.
pub open spec fn opt_token_view(t: Option<Token>) -> Option<TokenView> {
    match t {
        Some(t) => Some(t@),
        None => None,
    }
}

/// The content of a scope.
pub open spec fn scope_view(s: &Scope) -> ScopeView
    decreases s, s.v@.len() + 1,
{
    ScopeView { items: scope_items_view(s, s.v@.len() as int), loc: s.loc@ }
}

/// The content of the first `n` items of a scope.
pub open spec fn scope_items_view(s: &Scope, n: int) -> Seq<ItemView>
    decreases s, n,
{
    if n <= 0 || n > s.v@.len() {
        Seq::empty()
    } else {
        proof {
            assert(decreases_to!(s.v => s.v@));
        }
        scope_items_view(s, n - 1).push(item_view(&s.v@[n - 1]))
    }
}

/// The content of one item of a scope.
pub open spec fn item_view(it: &(Option<Token>, Comparator, ScopeValue)) -> ItemView
    decreases it, 0int,
{
    ItemView {
        key: opt_token_view(it.0),
        op: it.1,
        value: match &it.2 {
            ScopeValue::Token(t) => ValueView::Token(t@),
            ScopeValue::Scope(sc) => ValueView::Scope(scope_view(sc)),
        },
    }
}

/// The content of a value.
pub open spec fn value_view(v: &ScopeValue) -> ValueView {
    match v {
        ScopeValue::Token(t) => ValueView::Token(t@),
        ScopeValue::Scope(sc) => ValueView::Scope(scope_view(sc)),
    }
}

/// The views of the first `n` items depend on nothing else.
proof fn lemma_items_view_prefix(a: &Scope, b: &Scope, n: int)
    requires
        0 <= n <= a.v@.len(),
        n <= b.v@.len(),
        forall|i: int| 0 <= i < n ==> a.v@[i] == b.v@[i],
    ensures
        scope_items_view(a, n) == scope_items_view(b, n),
    decreases n,
{
    if n > 0 {
        lemma_items_view_prefix(a, b, n - 1);
    }
}

impl Scope {
    pub fn new(loc: Loc) -> (s: Scope)
        ensures
            scope_view(&s) == (ScopeView { items: Seq::empty(), loc: loc@ }),
    {
        let s = Scope { v: Vec::new(), loc };
        assert(scope_items_view(&s, 0) =~= Seq::<ItemView>::empty());
        s
    }

    /// Add a loose value.
    pub fn add_value(&mut self, value: ScopeValue)
        ensures
            scope_view(final(self)) == (ScopeView {
                items: scope_view(old(self)).items.push(ItemView { key: None, op: Comparator::Absent, value: value_view(&value) }),
                ..scope_view(old(self))
            }),
    {
        let ghost before = *self;
        let ghost vv = value_view(&value);
        self.v.push((None, Comparator::Absent, value));
        proof {
            let n = before.v@.len() as int;
            lemma_items_view_prefix(&before, self, n);
            assert(scope_items_view(self, n + 1) == scope_items_view(self, n).push(item_view(&self.v@[n])));
            assert(item_view(&self.v@[n]) == ItemView { key: None, op: Comparator::Absent, value: vv });
        }
    }

    /// Add a `key cmp value` item.
    pub fn add_key_value(&mut self, key: Token, op: Comparator, value: ScopeValue)
        ensures
            scope_view(final(self)) == (ScopeView {
                items: scope_view(old(self)).items.push(ItemView { key: Some(key@), op, value: value_view(&value) }),
                ..scope_view(old(self))
            }),
    {
        let ghost before = *self;
        let ghost vv = value_view(&value);
        let ghost kv = key@;
        self.v.push((Some(key), op, value));
        proof {
            let n = before.v@.len() as int;
            lemma_items_view_prefix(&before, self, n);
            assert(scope_items_view(self, n + 1) == scope_items_view(self, n).push(item_view(&self.v@[n])));
            assert(item_view(&self.v@[n]) == ItemView { key: Some(kv), op, value: vv });
        }
    }
}

} // verus!
