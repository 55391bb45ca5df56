//! Data functions in localization text: chains of calls such as `[ROOT.Char.GetName]`.
use vstd::prelude::*;

use crate::token::Token;
use crate::trigger::TokenView;

verus! {

/// A chain of data function calls separated by dots.
#[derive(Debug)]
pub struct CodeChain {
    pub codes: Vec<Code>,
}

/// One data function call, with its arguments if it has parentheses.
#[derive(Debug)]
pub struct Code {
    pub name: Token,
    pub arguments: Vec<CodeArg>,
}

/// An argument of a data function call.
#[derive(Debug)]
pub enum CodeArg {
    /// A nested chain of calls.
    Chain(CodeChain),
    /// A quoted literal string.
    Literal(Token),
}

/// The content of a [`CodeChain`].
pub struct ChainView {
    pub codes: Seq<CodeView>,
}

/// The content of a [`Code`].
pub struct CodeView {
    pub name: TokenView,
    pub arguments: Seq<ArgView>,
}

/// The content of a [`CodeArg`].
pub enum ArgView {
    Chain(ChainView),
    Literal(TokenView),
}

/// The text and location of a token.
pub open spec fn tv(t: Token) -> TokenView {
    (t@, t.loc)
}

/// The content of a chain.
pub open spec fn chain_view(c: CodeChain) -> ChainView
    decreases c, 2int,
{
    proof {
        assert(decreases_to!(c => c.codes));
        assert(decreases_to!(c.codes => c.codes@));
    }
    ChainView { codes: codes_view(c.codes@) }
}

/// The contents of a sequence of calls.
pub open spec fn codes_view(s: Seq<Code>) -> Seq<CodeView>
    decreases s, 1int,
{
    if s.len() == 0 {
        Seq::empty()
    } else {
        proof {
            assert(decreases_to!(s => s.subrange(0, s.len() - 1)));
            assert(decreases_to!(s => s[s.len() - 1]));
        }
        codes_view(s.subrange(0, s.len() - 1)).push(code_view(s[s.len() - 1]))
    }
}

/// The content of a call.
pub open spec fn code_view(c: Code) -> CodeView
    decreases c, 2int,
{
    proof {
        assert(decreases_to!(c => c.arguments));
        assert(decreases_to!(c.arguments => c.arguments@));
    }
    CodeView { name: tv(c.name), arguments: args_view(c.arguments@) }
}

/// The contents of a sequence of arguments.
pub open spec fn args_view(s: Seq<CodeArg>) -> Seq<ArgView>
    decreases s, 1int,
{
    if s.len() == 0 {
        Seq::empty()
    } else {
        proof {
            assert(decreases_to!(s => s.subrange(0, s.len() - 1)));
            assert(decreases_to!(s => s[s.len() - 1]));
        }
        args_view(s.subrange(0, s.len() - 1)).push(arg_view(s[s.len() - 1]))
    }
}

/// The content of an argument.
pub open spec fn arg_view(a: CodeArg) -> ArgView
    decreases a, 2int,
{
    match a {
        CodeArg::Chain(c) => ArgView::Chain(chain_view(c)),
        CodeArg::Literal(t) => ArgView::Literal(tv(t)),
    }
}

/// Pushing a call pushes its content.
pub proof fn lemma_codes_view_push(s: Seq<Code>, c: Code)
    ensures
        codes_view(s.push(c)) == codes_view(s).push(code_view(c)),
{
    assert(s.push(c).subrange(0, s.len() as int) =~= s);
}

/// Pushing an argument pushes its content.
pub proof fn lemma_args_view_push(s: Seq<CodeArg>, a: CodeArg)
    ensures
        args_view(s.push(a)) == args_view(s).push(arg_view(a)),
{
    assert(s.push(a).subrange(0, s.len() as int) =~= s);
}

} // verus!
