//! Reader directives in script files: defining `@name = value` reader variables, and where
//! `$macro$` parameters may stand.
use vstd::prelude::*;

use crate::block::{Comparator, EqKind};
use crate::parse::memory::CombinedMemory;
use crate::report::builder::{err, simple_report};
use crate::report::error_key::ErrorKey;
use crate::report::errors::{lemma_logged_nothing, lemma_logged_trans, Errors};
use crate::report::report_struct::{Confidence, ReportView, Severity};
use crate::text::{chars_of, concat_str, is_ascii_alphabetic, spec_ascii_alphabetic, string_from_chars};
use crate::token::{Loc, Token};

verus! {

/// The name of a reader variable defined by `t`: a direct `@name = value` has the `@`, while
/// `@:register_variable name = value` does not.
pub open spec fn var_name(t: Seq<char>) -> Seq<char> {
    if t.len() > 0 && t[0] == '@' {
        t.skip(1)
    } else {
        t
    }
}

/// An error about reader directives at `loc`.
pub open spec fn directive_error(msg: Seq<char>, loc: Loc) -> ReportView {
    simple_report(ErrorKey::ReaderDirectives, Severity::Error, Confidence::Reasonable, msg, None, loc)
}

/// Whether the reader variable `name` is defined, locally or globally.
pub open spec fn var_defined(memory: &CombinedMemory, name: Seq<char>) -> bool {
    memory.local().vars().contains_key(name) || memory.global().vars().contains_key(name)
}

/// Whether `name` can be the name of a new reader variable.
pub open spec fn var_can_be_defined(memory: &CombinedMemory, name: Seq<char>) -> bool {
    !var_defined(memory, name) && name.len() > 0 && spec_ascii_alphabetic(name[0])
}

/// What defining a reader variable with `token`, `comparator` and a value reports: a comparator other
/// than `=`, a name that is taken, and a name that does not start with an ASCII letter.
pub open spec fn define_var_reports(memory: &CombinedMemory, token: &Token, comparator: Comparator) -> Seq<ReportView> {
    let name = var_name(token@);
    (if comparator != Comparator::Equals(EqKind::Single) {
        seq![directive_error("expected `"@ + name + " =`"@, token.loc)]
    } else {
        Seq::empty()
    }) + if var_defined(memory, name) {
        seq![directive_error("`"@ + name + "` is already defined as a reader variable"@, token.loc)]
    } else if !var_can_be_defined(memory, name) {
        seq![directive_error("reader variable names must start with an ascii letter"@, token.loc)]
    } else {
        Seq::empty()
    }
}

/// Define the reader variable that `token` names as `value`, if the name is free and starts with
/// an ASCII letter; what is wrong with the definition is reported.
pub fn define_var(memory: &mut CombinedMemory, token: &Token, comparator: Comparator, value: Token, errors: &mut Errors)
    ensures
        final(memory).global() == old(memory).global(),
        final(memory).local().defined_blocks() == old(memory).local().defined_blocks(),
        final(memory).local().vars() == if var_can_be_defined(&*old(memory), var_name(token@)) {
            old(memory).local().vars().insert(var_name(token@), value)
        } else {
            old(memory).local().vars()
        },
        final(errors).logged(old(errors), define_var_reports(&*old(memory), token, comparator)),
{
    let ghost e0 = *errors;
    let chars = chars_of(token.as_str());
    let name = if chars.len() > 0 && chars[0] == '@' {
        string_from_chars(chars.as_slice(), 1, chars.len())
    } else {
        string_from_chars(chars.as_slice(), 0, chars.len())
    };
    proof {
        assert(chars@.subrange(1, chars@.len() as int) =~= chars@.skip(1));
        assert(chars@.subrange(0, chars@.len() as int) =~= chars@);
        assert(name@ == var_name(token@));
        lemma_logged_nothing(errors);
    }
    if !matches!(comparator, Comparator::Equals(EqKind::Single)) {
        let msg = concat_str("expected `", name.as_str());
        let msg = concat_str(msg.as_str(), " =`");
        err(ErrorKey::ReaderDirectives).msg(msg.as_str()).loc(token).push(errors);
    }
    let ghost e1 = *errors;
    let ghost first = if comparator != Comparator::Equals(EqKind::Single) {
        seq![directive_error("expected `"@ + name@ + " =`"@, token.loc)]
    } else {
        Seq::empty()
    };
    if memory.has_variable(name.as_str()) {
        let msg = concat_str("`", name.as_str());
        let msg = concat_str(msg.as_str(), "` is already defined as a reader variable");
        err(ErrorKey::ReaderDirectives).msg(msg.as_str()).loc(token).push(errors);
        proof {
            lemma_logged_trans(&e0, &e1, errors, first, seq![directive_error("`"@ + name@ + "` is already defined as a reader variable"@, token.loc)]);
        }
    } else if !starts_with_ascii_letter(&name) {
        err(ErrorKey::ReaderDirectives).msg("reader variable names must start with an ascii letter").loc(token).push(
            errors,
        );
        proof {
            lemma_logged_trans(&e0, &e1, errors, first, seq![directive_error("reader variable names must start with an ascii letter"@, token.loc)]);
        }
    } else {
        memory.set_variable(name, value);
        proof {
            assert(first + Seq::<ReportView>::empty() =~= first);
        }
    }
}

/// Whether `s` starts with an ASCII letter.
fn starts_with_ascii_letter(s: &String) -> (b: bool)
    ensures
        b == (s@.len() > 0 && spec_ascii_alphabetic(s@[0])),
{
    let chars = chars_of(s.as_str());
    chars.len() > 0 && is_ascii_alphabetic(chars[0])
}

/// Report `$` substitutions outside a block, where they do not work.
pub fn warn_macros(token: &Token, has_macro_params: bool, errors: &mut Errors)
    ensures
        final(errors).logged(
            old(errors),
            if has_macro_params {
                seq![
                    simple_report(
                        ErrorKey::Macro,
                        Severity::Error,
                        Confidence::Reasonable,
                        "$-substitutions only work inside blocks"@,
                        None,
                        token.loc,
                    ),
                ]
            } else {
                Seq::empty()
            },
        ),
{
    if has_macro_params {
        err(ErrorKey::Macro).msg("$-substitutions only work inside blocks").loc(token).push(errors);
    } else {
        proof {
            lemma_logged_nothing(errors);
        }
    }
}

} // verus!
