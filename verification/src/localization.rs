//! The values of localization entries, as the localization parser reads them.
use vstd::prelude::*;

use crate::datatype::{chain_view, tv, ChainView, CodeChain};
use crate::token::Token;
use crate::trigger::TokenView;

verus! {

/// A piece of a localization value that contains `$macros$`, which are substituted before the
/// rest of the value can be parsed.
#[derive(Debug)]
pub enum MacroValue {
    Text(Token),
    Keyword(Token),
}

/// A parsed localization value, or a piece of one.
#[derive(Debug)]
pub enum LocaValue {
    /// Several pieces in a row.
    Concat(Vec<LocaValue>),
    /// Plain text.
    Text(Token),
    /// A `#markup` opener.
    Markup,
    /// A `#!` markup closer.
    MarkupEnd,
    /// The loca key of a `#tooltip:key` markup.
    Tooltip(Token),
    /// The tag and key of a `#tooltip:tag,key` markup.
    ComplexTooltip(Token, Token),
    /// A `[data function]` chain with its optional `|format`.
    Code(CodeChain, Option<Token>),
    /// An `@icon!`.
    Icon(Token),
    /// A value with `$macros$` in it, to be parsed after substitution.
    Macro(Vec<MacroValue>),
    /// A value that could not be parsed.
    Error,
}

/// One `key: "value"` entry of a localization file.
#[derive(Debug)]
pub struct LocaEntry {
    pub key: Token,
    pub value: LocaValue,
    /// The unparsed value, if the entry had one.
    pub orig: Option<Token>,
}

impl LocaEntry {
    pub fn new(key: Token, value: LocaValue, orig: Option<Token>) -> (e: LocaEntry)
        ensures
            e == (LocaEntry { key, value, orig }),
    {
        LocaEntry { key, value, orig }
    }
}

/// The content of a [`MacroValue`].
pub enum MacroValueView {
    Text(TokenView),
    Keyword(TokenView),
}

/// The content of a [`LocaValue`].
pub enum LocaValueView {
    Concat(Seq<LocaValueView>),
    Text(TokenView),
    Markup,
    MarkupEnd,
    Tooltip(TokenView),
    ComplexTooltip(TokenView, TokenView),
    Code(ChainView, Option<TokenView>),
    Icon(TokenView),
    Macro(Seq<MacroValueView>),
    Error,
}

/// The content of a macro piece.
pub open spec fn macro_view(m: MacroValue) -> MacroValueView {
    match m {
        MacroValue::Text(t) => MacroValueView::Text(tv(t)),
        MacroValue::Keyword(t) => MacroValueView::Keyword(tv(t)),
    }
}

/// The contents of macro pieces.
pub open spec fn macros_view(s: Seq<MacroValue>) -> Seq<MacroValueView> {
    s.map_values(|m: MacroValue| macro_view(m))
}

/// The content of an optional token.
pub open spec fn opt_tv(t: Option<Token>) -> Option<TokenView> {
    match t {
        Some(t) => Some(tv(t)),
        None => None,
    }
}

/// The content of a value.
pub open spec fn value_view(v: LocaValue) -> LocaValueView
    decreases v, 2int,
{
    match v {
        LocaValue::Concat(vs) => {
            proof {
                assert(decreases_to!(vs => vs@));
            }
            LocaValueView::Concat(values_view(vs@))
        },
        LocaValue::Text(t) => LocaValueView::Text(tv(t)),
        LocaValue::Markup => LocaValueView::Markup,
        LocaValue::MarkupEnd => LocaValueView::MarkupEnd,
        LocaValue::Tooltip(t) => LocaValueView::Tooltip(tv(t)),
        LocaValue::ComplexTooltip(a, b) => LocaValueView::ComplexTooltip(tv(a), tv(b)),
        LocaValue::Code(c, f) => LocaValueView::Code(chain_view(c), opt_tv(f)),
        LocaValue::Icon(t) => LocaValueView::Icon(tv(t)),
        LocaValue::Macro(ms) => LocaValueView::Macro(macros_view(ms@)),
        LocaValue::Error => LocaValueView::Error,
    }
}

/// The contents of a sequence of values.
pub open spec fn values_view(s: Seq<LocaValue>) -> Seq<LocaValueView>
    decreases s, 1int,
{
    if s.len() == 0 {
        Seq::empty()
    } else {
        proof {
            assert(decreases_to!(s => s.subrange(0, s.len() - 1)));
            assert(decreases_to!(s => s[s.len() - 1]));
        }
        values_view(s.subrange(0, s.len() - 1)).push(value_view(s[s.len() - 1]))
    }
}

/// Pushing a value pushes its content.
pub proof fn lemma_values_view_push(s: Seq<LocaValue>, v: LocaValue)
    ensures
        values_view(s.push(v)) == values_view(s).push(value_view(v)),
{
    assert(s.push(v).subrange(0, s.len() as int) =~= s);
}

/// One content for each value.
pub proof fn lemma_values_view_len(s: Seq<LocaValue>)
    ensures
        values_view(s).len() == s.len(),
        s.len() > 0 ==> values_view(s).last() == value_view(s.last()),
    decreases s.len(),
{
    if s.len() > 0 {
        lemma_values_view_len(s.subrange(0, s.len() - 1));
    }
}

/// The content of an entry: its key, value and unparsed value.
pub open spec fn entry_view(e: LocaEntry) -> (TokenView, LocaValueView, Option<TokenView>) {
    (tv(e.key), value_view(e.value), opt_tv(e.orig))
}

} // verus!
