//! The [`ValueValidator`] checks one value.
use vstd::prelude::*;

use crate::everything::{Everything, Item};
use crate::report::builder::report;
use crate::report::error_key::ErrorKey;
use crate::report::errors::{Errors, lemma_logged_nothing};
use crate::report::report_struct::{ReportView, Severity};
use crate::text::{chars_of, concat_str, spec_starts_with, string_from_chars, unicode_lowercase, vec_starts_with_at};
use crate::token::{Token, integer_reports, number_reports, split_end, split_loc, split_starts};
use crate::validator::{
    Limit, check_choice, check_integer_range, choice_reports, integer_range_reports, is_choice,
    plain_report, range_wf,
};

verus! {

/// A validator for one value.
///
/// A value is validated once: after the first check, the others do nothing. Call
/// [`ValueValidator::warn_unvalidated`] at the end to report a value that no check accepted.
#[derive(Debug)]
pub struct ValueValidator<'a> {
    /// The value being validated.
    pub value: Token,
    /// All the loaded game items.
    pub data: &'a Everything,
    /// Whether a check has already looked at the value.
    pub validated: bool,
    /// Maximum severity of problems reported by this `ValueValidator`, except `Fatal` ones.
    pub max_severity: Severity,
}

impl<'a> ValueValidator<'a> {
    /// The validator after a check: marked validated, nothing else changed.
    pub open spec fn checked(&self) -> ValueValidator<'a> {
        ValueValidator { validated: true, ..*self }
    }

    /// A check that reports `rs` when the value is not validated yet took the validator from
    /// `old` to `self` and the log from `e0` to `e1`.
    pub open spec fn check_done(&self, old: &Self, e1: &Errors, e0: &Errors, rs: Seq<ReportView>) -> bool {
        if old.validated {
            &&& *self == *old
            &&& e1.logged(e0, Seq::empty())
        } else {
            &&& *self == old.checked()
            &&& e1.logged(e0, rs)
        }
    }

    /// Construct a new `ValueValidator` for a copy of `value`.
    pub fn new(value: &Token, data: &'a Everything) -> (vd: Self)
        ensures
            vd.value == *value,
            vd.data == data,
            !vd.validated,
            vd.max_severity == Severity::Error,
    {
        ValueValidator { value: value.clone(), data, validated: false, max_severity: Severity::Error }
    }

    /// Construct a new `ValueValidator` that owns `value`.
    pub fn new_owned(value: Token, data: &'a Everything) -> (vd: Self)
        ensures
            vd.value == value,
            vd.data == data,
            !vd.validated,
            vd.max_severity == Severity::Error,
    {
        ValueValidator { value, data, validated: false, max_severity: Severity::Error }
    }

    /// Maximum severity of problems reported by this `ValueValidator`.
    pub fn set_max_severity(&mut self, max_severity: Severity)
        ensures
            *final(self) == (ValueValidator { max_severity, ..*old(self) }),
    {
        self.max_severity = max_severity;
    }

    /// The value being validated.
    pub fn value(&self) -> (t: &Token)
        ensures
            *t == self.value,
    {
        &self.value
    }

    /// Mark the value as valid without checking it.
    pub fn accept(&mut self)
        ensures
            *final(self) == old(self).checked(),
    {
        self.validated = true;
    }

    /// Expect the value to be the key of an `itype` item in the game database.
    pub fn item(&mut self, itype: Item, errors: &mut Errors)
        ensures
            final(self).check_done(
                old(self),
                final(errors),
                old(errors),
                if old(self).data.spec_item_exists(itype, old(self).value@) {
                    Seq::empty()
                } else {
                    seq![crate::everything::missing_item_report(itype, &old(self).value, old(self).max_severity)]
                },
            ),
    {
        if self.validated {
            proof {
                lemma_logged_nothing(errors);
            }
            return;
        }
        self.validated = true;
        self.data.verify_exists_max_sev(itype, &self.value, self.max_severity, errors);
    }

    /// Accept the value if it is the key of an `itype` item in the game database.
    /// Returns whether it is.
    pub fn maybe_item(&mut self, itype: Item) -> (b: bool)
        ensures
            b == old(self).data.spec_item_exists(itype, old(self).value@),
            *final(self) == if b {
                old(self).checked()
            } else {
                *old(self)
            },
    {
        if self.data.item_exists(itype, self.value.as_str()) {
            self.validated = true;
            true
        } else {
            false
        }
    }

    /// Accept the value if it is `pfx` followed by the key of an `itype` item in the game
    /// database. Returns whether it is.
    pub fn maybe_prefix_item(&mut self, pfx: &str, itype: Item) -> (b: bool)
        ensures
            b == (spec_starts_with(old(self).value@, pfx@) && old(self).data.spec_item_exists(
                itype,
                old(self).value@.subrange(pfx@.len() as int, old(self).value@.len() as int),
            )),
            *final(self) == if b {
                old(self).checked()
            } else {
                *old(self)
            },
    {
        let v = self.value.chars();
        let p = chars_of(pfx);
        if p.len() <= v.len() && vec_starts_with_at(&v, &p, 0) {
            let rest = string_from_chars(v.as_slice(), p.len(), v.len());
            if self.data.item_exists(itype, rest.as_str()) {
                self.validated = true;
                return true;
            }
        }
        false
    }

    /// Mark the value as validated, and return a validator for each piece of the value split at
    /// `c`, with the same data and maximum severity.
    pub fn split(&mut self, c: char) -> (r: Vec<ValueValidator<'a>>)
        requires
            old(self).value.loc.column + old(self).value@.len() + 1 <= u32::MAX,
            old(self).value.loc.line + old(self).value@.len() <= u32::MAX,
        ensures
            *final(self) == old(self).checked(),
            r@.len() == split_starts(old(self).value@, c).len(),
            forall|k: int|
                0 <= k < r@.len() ==> {
                    &&& (#[trigger] r@[k]).value@ == old(self).value@.subrange(
                        split_starts(old(self).value@, c)[k],
                        split_end(old(self).value@, c, k),
                    )
                    &&& r@[k].value.loc == split_loc(old(self).value@, c, old(self).value.loc, k)
                    &&& r@[k].data == old(self).data
                    &&& !r@[k].validated
                    &&& r@[k].max_severity == old(self).max_severity
                },
    {
        self.validated = true;
        let pieces = self.value.split(c);
        let mut r: Vec<ValueValidator<'a>> = Vec::new();
        let mut i: usize = 0;
        while i < pieces.len()
            invariant
                i <= pieces@.len(),
                r@.len() == i,
                forall|k: int|
                    0 <= k < i ==> {
                        &&& (#[trigger] r@[k]).value == pieces@[k]
                        &&& r@[k].data == self.data
                        &&& !r@[k].validated
                        &&& r@[k].max_severity == self.max_severity
                    },
            decreases pieces.len() - i,
        {
            let mut vd = ValueValidator::new(&pieces[i], self.data);
            vd.set_max_severity(self.max_severity);
            r.push(vd);
            i = i + 1;
        }
        r
    }

    /// Expect the value to be `yes` or `no`, in any case.
    pub fn bool(&mut self, errors: &mut Errors)
        ensures
            final(self).check_done(
                old(self),
                final(errors),
                old(errors),
                if unicode_lowercase(old(self).value@) == "yes"@ || unicode_lowercase(old(self).value@) == "no"@ {
                    Seq::empty()
                } else {
                    seq![plain_report(ErrorKey::Validation, Severity::Error.spec_at_most(old(self).max_severity), "expected yes or no"@, old(self).value.loc)]
                },
            ),
    {
        if self.validated {
            proof {
                lemma_logged_nothing(errors);
            }
            return;
        }
        let sev = Severity::Error.at_most(self.max_severity);
        self.validated = true;
        if !self.value.lowercase_is("yes") && !self.value.lowercase_is("no") {
            report(ErrorKey::Validation, sev).msg("expected yes or no").loc(&self.value).push(errors);
        }
    }

    /// Expect the value to be an integer.
    pub fn integer(&mut self, errors: &mut Errors)
        ensures
            final(self).check_done(old(self), final(errors), old(errors), integer_reports(&old(self).value)),
    {
        if self.validated {
            proof {
                lemma_logged_nothing(errors);
            }
            return;
        }
        self.validated = true;
        self.value.expect_integer(errors);
    }

    /// Expect the value to be an integer between `low` and `high`.
    pub fn integer_range(&mut self, low: Limit, high: Limit, errors: &mut Errors)
        requires
            range_wf(low, high),
        ensures
            final(self).check_done(
                old(self),
                final(errors),
                old(errors),
                integer_range_reports(&old(self).value, low, high, Severity::Error.spec_at_most(old(self).max_severity)),
            ),
    {
        if self.validated {
            proof {
                lemma_logged_nothing(errors);
            }
            return;
        }
        let sev = Severity::Error.at_most(self.max_severity);
        self.validated = true;
        check_integer_range(&self.value, low, high, sev, errors);
    }

    /// Expect the value to be a number with up to 5 decimals.
    pub fn numeric(&mut self, errors: &mut Errors)
        ensures
            final(self).check_done(old(self), final(errors), old(errors), number_reports(&old(self).value, false)),
    {
        if self.validated {
            proof {
                lemma_logged_nothing(errors);
            }
            return;
        }
        self.validated = true;
        self.value.expect_number(errors);
    }

    /// Expect the value to be a number with any number of decimals.
    pub fn precise_numeric(&mut self, errors: &mut Errors)
        ensures
            final(self).check_done(old(self), final(errors), old(errors), number_reports(&old(self).value, true)),
    {
        if self.validated {
            proof {
                lemma_logged_nothing(errors);
            }
            return;
        }
        self.validated = true;
        self.value.expect_precise_number(errors);
    }

    /// Expect the value to be one of the `choices`.
    pub fn choice(&mut self, choices: &[&str], errors: &mut Errors)
        ensures
            final(self).check_done(
                old(self),
                final(errors),
                old(errors),
                choice_reports(choices@, &old(self).value, Severity::Error.spec_at_most(old(self).max_severity)),
            ),
    {
        if self.validated {
            proof {
                lemma_logged_nothing(errors);
            }
            return;
        }
        self.validated = true;
        let sev = Severity::Error.at_most(self.max_severity);
        check_choice(choices, &self.value, sev, errors);
    }

    /// Accept the value if it is `s`. Returns whether it is.
    pub fn maybe_is(&mut self, s: &str) -> (b: bool)
        ensures
            b == (old(self).value@ == s@),
            *final(self) == if b {
                old(self).checked()
            } else {
                *old(self)
            },
    {
        if self.value.is(s) {
            self.validated = true;
            true
        } else {
            false
        }
    }

    /// Report the value if no check has looked at it.
    pub fn warn_unvalidated(&mut self, errors: &mut Errors)
        ensures
            *final(self) == *old(self),
            final(errors).logged(
                old(errors),
                if old(self).validated {
                    Seq::empty()
                } else {
                    seq![plain_report(ErrorKey::Validation, Severity::Error.spec_at_most(old(self).max_severity), "unknown value `"@ + old(self).value@ + "`"@, old(self).value.loc)]
                },
            ),
    {
        if !self.validated {
            let sev = Severity::Error.at_most(self.max_severity);
            let a = concat_str("unknown value `", self.value.as_str());
            let msg = concat_str(a.as_str(), "`");
            report(ErrorKey::Validation, sev).msg(msg.as_str()).loc(&self.value).push(errors);
        } else {
            proof {
                lemma_logged_nothing(errors);
            }
        }
    }
}

/// A value is validated once. When `choice` takes a validator that has not yet validated its
/// value from `v0` to `v1` (and the log from `e0` to `e1`), it logs one report exactly when the
/// value is not among the choices, and marks the value validated. Any later check, from `v1` to
/// `v2` (log `e1` to `e2`), whatever it would report, then changes nothing and logs nothing; and
/// since the value is validated, [`ValueValidator::warn_unvalidated`] logs nothing either.
pub proof fn law_choice_validates_once<'a>(
    v0: &ValueValidator<'a>,
    v1: &ValueValidator<'a>,
    v2: &ValueValidator<'a>,
    e0: &Errors,
    e1: &Errors,
    e2: &Errors,
    choices: Seq<&str>,
    rs: Seq<ReportView>,
)
    requires
        !v0.validated,
        v1.check_done(v0, e1, e0, choice_reports(choices, &v0.value, Severity::Error.spec_at_most(v0.max_severity))),
        v2.check_done(v1, e2, e1, rs),
    ensures
        v1.validated,
        *v1 == v0.checked(),
        e1.logged(e0, choice_reports(choices, &v0.value, Severity::Error.spec_at_most(v0.max_severity))),
        choice_reports(choices, &v0.value, Severity::Error.spec_at_most(v0.max_severity)).len() == (if is_choice(
            choices,
            v0.value@,
        ) {
            0int
        } else {
            1int
        }),
        *v2 == *v1,
        e2.logged(e1, Seq::empty()),
{
}

} // verus!
