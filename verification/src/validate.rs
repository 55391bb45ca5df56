//! Checks of script structure that many kinds of items share.
use vstd::prelude::*;

use crate::block::{last_key_index, Block, BlockItem, Comparator, EqKind, Field, BV};
use crate::report::builder::{simple_report, warn};
use crate::report::error_key::ErrorKey;
use crate::report::errors::{lemma_logged_nothing, lemma_logged_trans, Errors};
use crate::report::report_struct::{Confidence, ReportView, Severity};
use crate::text::concat_str;
use crate::token::Token;

verus! {

/// The kinds of list iterators, by the prefix of their name: `any_`, `every_`, `ordered_` and
/// `random_`; or no list at all.
#[derive(Clone, Copy, Debug, PartialEq, Eq, Structural)]
pub enum ListType {
    /// Not a list iterator: the empty prefix.
    Plain,
    Any,
    Every,
    Ordered,
    Random,
}

impl ListType {
    /// The prefix of the list type, without the underscore.
    pub open spec fn spec_name(self) -> Seq<char> {
        match self {
            ListType::Plain => ""@,
            ListType::Any => "any"@,
            ListType::Every => "every"@,
            ListType::Ordered => "ordered"@,
            ListType::Random => "random"@,
        }
    }

    /// The prefix of the list type, without the underscore.
    pub fn name(self) -> (s: &'static str)
        ensures
            s@ == self.spec_name(),
    {
        match self {
            ListType::Plain => "",
            ListType::Any => "any",
            ListType::Every => "every",
            ListType::Ordered => "ordered",
            ListType::Random => "random",
        }
    }

    /// The list type whose prefix is `s`, if there is one.
    pub fn from_name(s: &str) -> (r: Option<ListType>)
        ensures
            match r {
                Some(t) => t.spec_name() == s@,
                None => forall|t: ListType| t.spec_name() != s@,
            },
    {
        proof {
            reveal_strlit("");
            reveal_strlit("any");
            reveal_strlit("every");
            reveal_strlit("ordered");
            reveal_strlit("random");
        }
        if s.is_empty() {
            Some(ListType::Plain)
        } else if crate::text::str_eq(s, "any") {
            Some(ListType::Any)
        } else if crate::text::str_eq(s, "every") {
            Some(ListType::Every)
        } else if crate::text::str_eq(s, "ordered") {
            Some(ListType::Ordered)
        } else if crate::text::str_eq(s, "random") {
            Some(ListType::Random)
        } else {
            None
        }
    }
}

/// The report about a `key` of an `else` or `else_if` kind, `what`, that has no `if`, `key_if`,
/// before it.
pub open spec fn dangling_else_report(key: Token, what: Seq<char>, key_if: Seq<char>) -> ReportView {
    simple_report(
        ErrorKey::IfElse,
        Severity::Warning,
        Confidence::Reasonable,
        "`"@ + what + " without preceding `"@ + key_if + "`"@,
        None,
        key.loc,
    )
}

/// Reading the definitions `key = { ... }` among `items` for a sequence of `if`, `else_if` and
/// `else` blocks: whether an `else_if` or `else` may follow, and the reports about those without
/// an `if` before them. An `else` with a `limit` may itself be followed by another `else`; any
/// other definition ends the sequence, and items that are not definitions are passed over.
pub open spec fn ifelse_scan(items: Seq<BlockItem>, key_if: Seq<char>, key_elseif: Seq<char>, key_else: Seq<char>) -> (
    bool,
    Seq<ReportView>,
)
    decreases items.len(),
{
    if items.len() == 0 {
        (false, Seq::empty())
    } else {
        let (seen, rs) = ifelse_scan(items.drop_last(), key_if, key_elseif, key_else);
        match items.last() {
            BlockItem::Field(Field(key, Comparator::Equals(EqKind::Single), BV::Block(b))) => {
                if key@ == key_if {
                    (true, rs)
                } else if key@ == key_elseif {
                    (true, if seen {
                        rs
                    } else {
                        rs.push(dangling_else_report(key, key_elseif, key_if))
                    })
                } else if key@ == key_else {
                    let rs2 = if seen {
                        rs
                    } else {
                        rs.push(dangling_else_report(key, key_else, key_if))
                    };
                    (last_key_index(b.v@, "limit"@) is Some, rs2)
                } else {
                    (false, rs)
                }
            },
            _ => (seen, rs),
        }
    }
}

fn dangling_else_msg(what: &str, key_if: &str) -> (s: String)
    ensures
        s@ == "`"@ + what@ + " without preceding `"@ + key_if@ + "`"@,
{
    concat_str(concat_str(concat_str(concat_str("`", what).as_str(), " without preceding `").as_str(), key_if).as_str(), "`")
}

/// Check the sequences of `if`, `else_if` and `else` blocks among the definitions of `block`,
/// where they are named `key_if`, `key_elseif` and `key_else`: report each `else_if` or `else`
/// that has no `if` before it.
pub fn validate_ifelse_sequence(block: &Block, key_if: &str, key_elseif: &str, key_else: &str, errors: &mut Errors)
    ensures
        final(errors).logged(old(errors), ifelse_scan(block.v@, key_if@, key_elseif@, key_else@).1),
{
    let ghost items = block.v@;
    let mut seen_if = false;
    let mut i: usize = 0;
    proof {
        assert(items.take(0) =~= Seq::<BlockItem>::empty());
        lemma_logged_nothing(errors);
    }
    while i < block.v.len()
        invariant
            items == block.v@,
            i <= items.len(),
            seen_if == ifelse_scan(items.take(i as int), key_if@, key_elseif@, key_else@).0,
            errors.logged(old(errors), ifelse_scan(items.take(i as int), key_if@, key_elseif@, key_else@).1),
        decreases items.len() - i,
    {
        let ghost e1 = *errors;
        let ghost rs = ifelse_scan(items.take(i as int), key_if@, key_elseif@, key_else@).1;
        proof {
            assert(items.take(i + 1).drop_last() =~= items.take(i as int));
            assert(items.take(i + 1).last() == items[i as int]);
        }
        match &block.v[i] {
            BlockItem::Field(Field(key, Comparator::Equals(EqKind::Single), BV::Block(b))) => {
                if key.is(key_if) {
                    seen_if = true;
                } else if key.is(key_elseif) {
                    if !seen_if {
                        warn(ErrorKey::IfElse).msg(dangling_else_msg(key_elseif, key_if).as_str()).loc(key).push(errors);
                        proof {
                            let r = dangling_else_report(*key, key_elseif@, key_if@);
                            lemma_logged_trans(old(errors), &e1, errors, rs, seq![r]);
                            assert(rs + seq![r] =~= rs.push(r));
                        }
                    }
                    seen_if = true;
                } else if key.is(key_else) {
                    if !seen_if {
                        warn(ErrorKey::IfElse).msg(dangling_else_msg(key_else, key_if).as_str()).loc(key).push(errors);
                        proof {
                            let r = dangling_else_report(*key, key_else@, key_if@);
                            lemma_logged_trans(old(errors), &e1, errors, rs, seq![r]);
                            assert(rs + seq![r] =~= rs.push(r));
                        }
                    }
                    seen_if = b.get_key("limit").is_some();
                } else {
                    seen_if = false;
                }
            },
            _ => {},
        }
        i = i + 1;
    }
    proof {
        assert(items.take(i as int) =~= items);
    }
}

} // verus!
