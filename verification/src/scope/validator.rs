//! Checking the fields of a [`Scope`] against what is expected of it, collecting the problems.
use vstd::prelude::*;

use crate::number::{parse_i64, spec_parse_i64};
use crate::report::error_key::ErrorKey;
use crate::report::report_struct::Severity;
use crate::scope::{
    item_view, scope_items_view, scope_view, value_view, Comparator, ItemView, Loc, LocView, Scope, ScopeValue,
    ScopeView, Token, TokenView, ValueView,
};
use crate::text::{chars_of, concat_str, str_eq, string_of};

verus! {

/// Why validation could not make the value it was for.
#[derive(Debug)]
pub enum ValidationError {
    /// A required field is not there, or has no usable value.
    RequiredFieldMissing(String),
    /// A required field has a scope where a value belongs.
    RequiredFieldInvalid(String),
}

/// The content of a [`ValidationError`].
pub enum ValidationErrorView {
    RequiredFieldMissing(Seq<char>),
    RequiredFieldInvalid(Seq<char>),
}

impl View for ValidationError {
    type V = ValidationErrorView;

    open spec fn view(&self) -> ValidationErrorView {
        match self {
            ValidationError::RequiredFieldMissing(s) => ValidationErrorView::RequiredFieldMissing(s@),
            ValidationError::RequiredFieldInvalid(s) => ValidationErrorView::RequiredFieldInvalid(s@),
        }
    }
}

/// The view of an optional error.
pub open spec fn opt_err_view(e: Option<ValidationError>) -> Option<ValidationErrorView> {
    match e {
        Some(e) => Some(e@),
        None => None,
    }
}

impl Clone for ValidationError {
    fn clone(&self) -> (r: Self)
        ensures
            r@ == self@,
    {
        match self {
            ValidationError::RequiredFieldMissing(s) => ValidationError::RequiredFieldMissing(s.clone()),
            ValidationError::RequiredFieldInvalid(s) => ValidationError::RequiredFieldInvalid(s.clone()),
        }
    }
}

/// A problem found while validating.
#[derive(Debug)]
pub struct ValidationReport {
    pub severity: Severity,
    pub key: ErrorKey,
    pub loc: Loc,
    pub msg: String,
}

/// The content of a [`ValidationReport`].
pub struct ValidationReportView {
    pub severity: Severity,
    pub key: ErrorKey,
    pub loc: LocView,
    pub msg: Seq<char>,
}

impl View for ValidationReport {
    type V = ValidationReportView;

    open spec fn view(&self) -> ValidationReportView {
        ValidationReportView { severity: self.severity, key: self.key, loc: self.loc@, msg: self.msg@ }
    }
}

/// The views of the reports.
pub open spec fn reports_view(v: Seq<ValidationReport>) -> Seq<ValidationReportView> {
    v.map_values(|r: ValidationReport| r@)
}

/// A validation report of the given severity.
pub open spec fn vreport(severity: Severity, loc: LocView, msg: Seq<char>) -> ValidationReportView {
    ValidationReportView { severity, key: ErrorKey::Validation, loc, msg }
}

fn push_report(reports: &mut Vec<ValidationReport>, severity: Severity, loc: &Loc, msg: String)
    ensures
        reports_view(final(reports)@) == reports_view(old(reports)@).push(vreport(severity, loc@, msg@)),
{
    reports.push(ValidationReport { severity, key: ErrorKey::Validation, loc: loc.copy(), msg });
    proof {
        assert(reports_view(reports@) =~= reports_view(old(reports)@).push(vreport(severity, loc@, msg@)));
    }
}

/// How a comparator is written.
pub open spec fn comparator_text(c: Comparator) -> Seq<char> {
    match c {
        Comparator::Absent => ""@,
        Comparator::Eq => "="@,
        Comparator::Lt => "<"@,
        Comparator::Gt => ">"@,
        Comparator::Le => "<="@,
        Comparator::Ge => ">="@,
        Comparator::Ne => "!="@,
    }
}

fn comparator_str(c: Comparator) -> (s: &'static str)
    ensures
        s@ == comparator_text(c),
{
    match c {
        Comparator::Absent => "",
        Comparator::Eq => "=",
        Comparator::Lt => "<",
        Comparator::Gt => ">",
        Comparator::Le => "<=",
        Comparator::Ge => ">=",
        Comparator::Ne => "!=",
    }
}

/// Whether the item is a field named `name`.
pub open spec fn is_field(it: ItemView, name: Seq<char>) -> bool {
    it.key matches Some(k) && k.s == name
}

/// The report about a field that should have `=`, if it has another comparator.
pub open spec fn comparator_reports(k: TokenView, op: Comparator) -> Seq<ValidationReportView> {
    if op != Comparator::Eq {
        seq![vreport(Severity::Error, k.loc, "expected `"@ + k.s + " =`, found `"@ + comparator_text(op) + "`"@)]
    } else {
        Seq::empty()
    }
}

/// The reports about a field that should be there once and have `=`; `found` says whether it was
/// there before.
pub open spec fn unique_form_reports(k: TokenView, op: Comparator, found: bool) -> Seq<ValidationReportView> {
    (if found {
        seq![vreport(Severity::Warning, k.loc, "multiple definitions of `"@ + k.s + "`, expected only one."@)]
    } else {
        Seq::empty()
    }) + comparator_reports(k, op)
}

/// The report about a scope where a value belongs.
pub open spec fn not_value_report(s: ScopeView) -> ValidationReportView {
    vreport(Severity::Error, s.loc, "expected value, found scope"@)
}

/// The report about a value where a scope belongs.
pub open spec fn not_scope_report(t: TokenView) -> ValidationReportView {
    vreport(Severity::Error, t.loc, "expected scope, found value"@)
}

/// What a field's value is wanted as.
#[derive(Clone, Copy, Debug, PartialEq, Eq, Structural)]
pub enum FieldWant {
    /// Anything.
    Any,
    /// A value.
    Value,
    /// A scope.
    Scope,
    /// `yes` or `no`.
    Bool,
    /// A decimal integer.
    Integer,
    /// A scope of loose values.
    List,
}

/// A field's value as it was wanted.
#[derive(Debug)]
pub enum FieldValue<'a> {
    Any(&'a ScopeValue),
    Value(Token),
    Scope(&'a Scope),
    Bool(bool),
    Integer(i64),
    List(Vec<Token>),
}

/// The content of a [`FieldValue`].
pub enum FieldValueView {
    Any(ValueView),
    Value(TokenView),
    Scope(ScopeView),
    Bool(bool),
    Integer(int),
    List(Seq<TokenView>),
}

/// The views of the tokens.
pub open spec fn tokens_view(v: Seq<Token>) -> Seq<TokenView> {
    v.map_values(|t: Token| t@)
}

impl<'a> View for FieldValue<'a> {
    type V = FieldValueView;

    open spec fn view(&self) -> FieldValueView {
        match self {
            FieldValue::Any(v) => FieldValueView::Any(value_view(v)),
            FieldValue::Value(t) => FieldValueView::Value(t@),
            FieldValue::Scope(s) => FieldValueView::Scope(scope_view(s)),
            FieldValue::Bool(b) => FieldValueView::Bool(*b),
            FieldValue::Integer(i) => FieldValueView::Integer(*i as int),
            FieldValue::List(v) => FieldValueView::List(tokens_view(v@)),
        }
    }
}

/// The loose values of a list: the values of all its items; items with a key count too.
pub open spec fn list_values(items: Seq<ItemView>) -> Seq<TokenView>
    decreases items.len(),
{
    if items.len() == 0 {
        Seq::empty()
    } else {
        let rest = list_values(items.drop_last());
        match items.last().value {
            ValueView::Token(t) => rest.push(t),
            ValueView::Scope(_) => rest,
        }
    }
}

/// The reports about the items of a list: keys, and scopes where values belong.
pub open spec fn list_reports(items: Seq<ItemView>) -> Seq<ValidationReportView>
    decreases items.len(),
{
    if items.len() == 0 {
        Seq::empty()
    } else {
        let it = items.last();
        list_reports(items.drop_last()) + (match it.key {
            Some(k) => seq![vreport(Severity::Warning, k.loc, "found key `"@ + k.s + "`, expected only values"@)],
            None => Seq::empty(),
        }) + (match it.value {
            ValueView::Token(_) => Seq::empty(),
            ValueView::Scope(s) => seq![not_value_report(s)],
        })
    }
}

/// A value as it was wanted, if it is what was wanted.
pub open spec fn wanted_value(want: FieldWant, v: ValueView) -> Option<FieldValueView> {
    match (want, v) {
        (FieldWant::Any, _) => Some(FieldValueView::Any(v)),
        (FieldWant::Value, ValueView::Token(t)) => Some(FieldValueView::Value(t)),
        (FieldWant::Scope, ValueView::Scope(s)) => Some(FieldValueView::Scope(s)),
        (FieldWant::Bool, ValueView::Token(t)) => if t.s == "yes"@ {
            Some(FieldValueView::Bool(true))
        } else if t.s == "no"@ {
            Some(FieldValueView::Bool(false))
        } else {
            None
        },
        (FieldWant::Integer, ValueView::Token(t)) => match spec_parse_i64(t.s) {
            Some(i) => Some(FieldValueView::Integer(i)),
            None => None,
        },
        (FieldWant::List, ValueView::Scope(s)) => Some(FieldValueView::List(list_values(s.items))),
        _ => None,
    }
}

/// The reports about a value that is not what was wanted.
pub open spec fn wanted_reports(want: FieldWant, v: ValueView) -> Seq<ValidationReportView> {
    match (want, v) {
        (FieldWant::Any, _) => Seq::empty(),
        (FieldWant::Value, ValueView::Token(_)) => Seq::empty(),
        (FieldWant::Scope, ValueView::Scope(_)) => Seq::empty(),
        (FieldWant::Bool, ValueView::Token(t)) => if t.s == "yes"@ || t.s == "no"@ {
            Seq::empty()
        } else {
            seq![vreport(Severity::Error, t.loc, "expected yes or no"@)]
        },
        (FieldWant::Integer, ValueView::Token(t)) => if spec_parse_i64(t.s) is Some {
            Seq::empty()
        } else {
            seq![vreport(Severity::Error, t.loc, "expected integer"@)]
        },
        (FieldWant::List, ValueView::Scope(s)) => list_reports(s.items),
        (FieldWant::Scope, ValueView::Token(t)) => seq![not_scope_report(t)],
        (FieldWant::List, ValueView::Token(t)) => seq![not_scope_report(t)],
        (_, ValueView::Scope(s)) => seq![not_value_report(s)],
    }
}

/// Reading the fields named `name` among `items`, each as `want`: whether there was one, the
/// last one's wanted value, and the reports.
pub open spec fn unique_scan(items: Seq<ItemView>, name: Seq<char>, want: FieldWant) -> (
    bool,
    Option<FieldValueView>,
    Seq<ValidationReportView>,
)
    decreases items.len(),
{
    if items.len() == 0 {
        (false, None, Seq::empty())
    } else {
        let (found, value, rs) = unique_scan(items.drop_last(), name, want);
        let it = items.last();
        if is_field(it, name) {
            (true, wanted_value(want, it.value), rs + unique_form_reports(it.key->0, it.op, found) + wanted_reports(want, it.value))
        } else {
            (found, value, rs)
        }
    }
}

/// Reading the required value field `name` among `items`: whether there was one, the last value
/// it had, whether one had a scope instead, and the reports.
pub open spec fn required_scan(items: Seq<ItemView>, name: Seq<char>) -> (
    bool,
    Option<TokenView>,
    bool,
    Seq<ValidationReportView>,
)
    decreases items.len(),
{
    if items.len() == 0 {
        (false, None, false, Seq::empty())
    } else {
        let (found, value, invalid, rs) = required_scan(items.drop_last(), name);
        let it = items.last();
        if is_field(it, name) {
            let rs2 = rs + unique_form_reports(it.key->0, it.op, found);
            match it.value {
                ValueView::Token(t) => (true, Some(t), invalid, rs2),
                ValueView::Scope(s) => (true, value, true, rs2.push(not_value_report(s))),
            }
        } else {
            (found, value, invalid, rs)
        }
    }
}

/// Reading every field named `name` among `items`, wanting values (`scopes` false) or scopes:
/// the reports.
pub open spec fn all_fields_reports(items: Seq<ItemView>, name: Seq<char>, scopes: bool) -> Seq<ValidationReportView>
    decreases items.len(),
{
    if items.len() == 0 {
        Seq::empty()
    } else {
        let rs = all_fields_reports(items.drop_last(), name, scopes);
        let it = items.last();
        if is_field(it, name) {
            rs + comparator_reports(it.key->0, it.op) + match (scopes, it.value) {
                (false, ValueView::Scope(s)) => seq![not_value_report(s)],
                (true, ValueView::Token(t)) => seq![not_scope_report(t)],
                _ => Seq::empty(),
            }
        } else {
            rs
        }
    }
}

/// The values of the fields named `name` among `items`.
pub open spec fn field_values(items: Seq<ItemView>, name: Seq<char>) -> Seq<TokenView>
    decreases items.len(),
{
    if items.len() == 0 {
        Seq::empty()
    } else {
        let rest = field_values(items.drop_last(), name);
        let it = items.last();
        match it.value {
            ValueView::Token(t) => if is_field(it, name) {
                rest.push(t)
            } else {
                rest
            },
            ValueView::Scope(_) => rest,
        }
    }
}

/// The scopes of the fields named `name` among `items`.
pub open spec fn field_scopes(items: Seq<ItemView>, name: Seq<char>) -> Seq<ScopeView>
    decreases items.len(),
{
    if items.len() == 0 {
        Seq::empty()
    } else {
        let rest = field_scopes(items.drop_last(), name);
        let it = items.last();
        match it.value {
            ValueView::Scope(s) => if is_field(it, name) {
                rest.push(s)
            } else {
                rest
            },
            ValueView::Token(_) => rest,
        }
    }
}

/// The reports about the items that were not asked for: fields whose names are not in `known`,
/// and loose values and scopes.
pub open spec fn unused_reports(items: Seq<ItemView>, known: Seq<Seq<char>>, id: Seq<char>) -> Seq<ValidationReportView>
    decreases items.len(),
{
    if items.len() == 0 {
        Seq::empty()
    } else {
        let rs = unused_reports(items.drop_last(), known, id);
        let it = items.last();
        match it.key {
            Some(k) => if known.contains(k.s) {
                rs
            } else {
                rs.push(vreport(Severity::Warning, k.loc, "unknown field `"@ + k.s + "` for "@ + id))
            },
            None => match it.value {
                ValueView::Token(t) => rs.push(vreport(Severity::Warning, t.loc, "found loose value, expected only `key =`"@)),
                ValueView::Scope(s) => rs.push(vreport(Severity::Warning, s.loc, "found subscope, expected only `key =`"@)),
            },
        }
    }
}

/// The view of an optional field value.
pub open spec fn opt_field_view(r: Option<FieldValue>) -> Option<FieldValueView> {
    match r {
        Some(v) => Some(v@),
        None => None,
    }
}

/// Whether a wanted value has the form that was wanted.
pub open spec fn has_wanted_form(want: FieldWant, v: FieldValueView) -> bool {
    match (want, v) {
        (FieldWant::Any, FieldValueView::Any(_)) => true,
        (FieldWant::Value, FieldValueView::Value(_)) => true,
        (FieldWant::Scope, FieldValueView::Scope(_)) => true,
        (FieldWant::Bool, FieldValueView::Bool(_)) => true,
        (FieldWant::Integer, FieldValueView::Integer(_)) => true,
        (FieldWant::List, FieldValueView::List(_)) => true,
        _ => false,
    }
}

/// A field read as `want` has the form that was wanted.
pub proof fn lemma_unique_scan_form(items: Seq<ItemView>, name: Seq<char>, want: FieldWant)
    ensures
        unique_scan(items, name, want).1 matches Some(v) ==> has_wanted_form(want, v),
    decreases items.len(),
{
    if items.len() > 0 {
        lemma_unique_scan_form(items.drop_last(), name, want);
    }
}

/// The loose values of a list scope, reporting keys and scopes.
fn list_of(s: &Scope, reports: &mut Vec<ValidationReport>) -> (r: Vec<Token>)
    ensures
        tokens_view(r@) == list_values(scope_view(s).items),
        reports_view(final(reports)@) == reports_view(old(reports)@) + list_reports(scope_view(s).items),
{
    let ghost items = scope_view(s).items;
    proof {
        lemma_scope_items(s, s.v@.len() as int);
    }
    let mut r: Vec<Token> = Vec::new();
    let mut i: usize = 0;
    proof {
        assert(items.take(0) =~= Seq::<ItemView>::empty());
        assert(tokens_view(r@) =~= Seq::<TokenView>::empty());
        assert(reports_view(reports@) =~= reports_view(old(reports)@) + Seq::<ValidationReportView>::empty());
    }
    while i < s.v.len()
        invariant
            items == scope_view(s).items,
            items.len() == s.v@.len(),
            forall|j: int| 0 <= j < items.len() ==> #[trigger] items[j] == item_view(&s.v@[j]),
            i <= s.v@.len(),
            tokens_view(r@) == list_values(items.take(i as int)),
            reports_view(reports@) == reports_view(old(reports)@) + list_reports(items.take(i as int)),
        decreases s.v@.len() - i,
    {
        let item = &s.v[i];
        let ghost it = items[i as int];
        let ghost before = reports_view(reports@);
        proof {
            assert(it == item_view(item));
            assert(items.take(i + 1).drop_last() =~= items.take(i as int));
            assert(items.take(i + 1).last() == it);
        }
        match &item.0 {
            Some(k) => {
                let msg = concat_str(concat_str("found key `", k.as_str()).as_str(), "`, expected only values");
                push_report(reports, Severity::Warning, &k.loc, msg);
            },
            None => {},
        }
        let ghost mid = reports_view(reports@);
        match &item.2 {
            ScopeValue::Token(t) => {
                let ghost tv = tokens_view(r@);
                r.push(t.copy());
                proof {
                    assert(tokens_view(r@) =~= tv.push(t@));
                }
            },
            ScopeValue::Scope(sc) => {
                push_report(reports, Severity::Error, &sc.loc, string_of("expected value, found scope"));
            },
        }
        proof {
            let kr = match it.key {
                Some(k) => seq![vreport(Severity::Warning, k.loc, "found key `"@ + k.s + "`, expected only values"@)],
                None => Seq::<ValidationReportView>::empty(),
            };
            let vr = match it.value {
                ValueView::Token(_) => Seq::<ValidationReportView>::empty(),
                ValueView::Scope(sc) => seq![not_value_report(sc)],
            };
            assert(mid =~= before + kr);
            assert(reports_view(reports@) =~= mid + vr);
            assert(reports_view(reports@) =~= reports_view(old(reports)@) + list_reports(items.take(i + 1)));
        }
        i = i + 1;
    }
    proof {
        assert(items.take(i as int) =~= items);
    }
    r
}

/// The value as `want`, reporting if it is not what was wanted.
fn wanted<'b>(want: FieldWant, v: &'b ScopeValue, reports: &mut Vec<ValidationReport>) -> (r: Option<FieldValue<'b>>)
    ensures
        opt_field_view(r) == wanted_value(want, value_view(v)),
        reports_view(final(reports)@) == reports_view(old(reports)@) + wanted_reports(want, value_view(v)),
{
    let ghost old_rs = reports_view(reports@);
    let r = match (want, v) {
        (FieldWant::Any, _) => Some(FieldValue::Any(v)),
        (FieldWant::Value, ScopeValue::Token(t)) => Some(FieldValue::Value(t.copy())),
        (FieldWant::Scope, ScopeValue::Scope(s)) => Some(FieldValue::Scope(s)),
        (FieldWant::Bool, ScopeValue::Token(t)) => {
            if str_eq(t.as_str(), "yes") {
                Some(FieldValue::Bool(true))
            } else if str_eq(t.as_str(), "no") {
                Some(FieldValue::Bool(false))
            } else {
                push_report(reports, Severity::Error, &t.loc, string_of("expected yes or no"));
                None
            }
        },
        (FieldWant::Integer, ScopeValue::Token(t)) => {
            match parse_i64(&chars_of(t.as_str())) {
                Some(i) => Some(FieldValue::Integer(i)),
                None => {
                    push_report(reports, Severity::Error, &t.loc, string_of("expected integer"));
                    None
                },
            }
        },
        (FieldWant::List, ScopeValue::Scope(s)) => Some(FieldValue::List(list_of(s, reports))),
        (FieldWant::Scope, ScopeValue::Token(t)) | (FieldWant::List, ScopeValue::Token(t)) => {
            push_report(reports, Severity::Error, &t.loc, string_of("expected scope, found value"));
            None
        },
        (_, ScopeValue::Scope(s)) => {
            push_report(reports, Severity::Error, &s.loc, string_of("expected value, found scope"));
            None
        },
    };
    proof {
        if wanted_reports(want, value_view(v)).len() == 0 {
            assert(old_rs + wanted_reports(want, value_view(v)) =~= old_rs);
        } else {
            assert(reports_view(reports@) =~= old_rs + wanted_reports(want, value_view(v)));
        }
    }
    r
}

/// Report a field that should have `=`, if it has another comparator; and, if `found`, that it
/// is there twice.
fn check_form(key: &Token, op: Comparator, found: bool, reports: &mut Vec<ValidationReport>)
    ensures
        reports_view(final(reports)@) == reports_view(old(reports)@) + unique_form_reports(key@, op, found),
{
    let ghost old_rs = reports_view(reports@);
    if found {
        let msg = concat_str(concat_str("multiple definitions of `", key.as_str()).as_str(), "`, expected only one.");
        push_report(reports, Severity::Warning, &key.loc, msg);
    }
    let ghost mid = reports_view(reports@);
    check_comparator(key, op, reports);
    proof {
        let dup = if found {
            seq![vreport(Severity::Warning, key@.loc, "multiple definitions of `"@ + key@.s + "`, expected only one."@)]
        } else {
            Seq::<ValidationReportView>::empty()
        };
        assert(mid =~= old_rs + dup);
        assert(reports_view(reports@) =~= old_rs + (dup + comparator_reports(key@, op)));
    }
}

/// Report a field that should have `=`, if it has another comparator.
fn check_comparator(key: &Token, op: Comparator, reports: &mut Vec<ValidationReport>)
    ensures
        reports_view(final(reports)@) == reports_view(old(reports)@) + comparator_reports(key@, op),
{
    if op != Comparator::Eq {
        let msg = concat_str(
            concat_str(concat_str(concat_str("expected `", key.as_str()).as_str(), " =`, found `").as_str(), comparator_str(op)).as_str(),
            "`",
        );
        push_report(reports, Severity::Error, &key.loc, msg);
    } else {
        proof {
            assert(reports_view(old(reports)@) + Seq::<ValidationReportView>::empty() =~= reports_view(old(reports)@));
        }
    }
}

/// The error after reading the required value field `name` as [`required_scan`] does, starting
/// from `err`: a scope where the value belongs makes it invalid, and no value makes it missing;
/// only the first error is kept.
pub open spec fn required_err(err: Option<ValidationErrorView>, items: Seq<ItemView>, name: Seq<char>) -> Option<
    ValidationErrorView,
> {
    let (found, value, invalid, _) = required_scan(items, name);
    let err1 = if invalid {
        with_err(err, ValidationErrorView::RequiredFieldInvalid(name))
    } else {
        err
    };
    if !found || value is None {
        with_err(err1, ValidationErrorView::RequiredFieldMissing(name))
    } else {
        err1
    }
}

/// The reports of reading the required value field `name` of the scope `scope`.
pub open spec fn required_reports(scope: ScopeView, name: Seq<char>) -> Seq<ValidationReportView> {
    let (found, value, _, rs) = required_scan(scope.items, name);
    if !found || value is None {
        rs.push(vreport(Severity::Error, scope.loc, "required field `"@ + name + "` missing"@))
    } else {
        rs
    }
}

/// The views of the scopes.
pub open spec fn scopes_view(v: Seq<&Scope>) -> Seq<ScopeView> {
    v.map_values(|s: &Scope| scope_view(s))
}

/// Without a field there is no value.
pub proof fn lemma_required_scan_found(items: Seq<ItemView>, name: Seq<char>)
    ensures
        !required_scan(items, name).0 ==> required_scan(items, name).1 is None,
    decreases items.len(),
{
    if items.len() > 0 {
        lemma_required_scan_found(items.drop_last(), name);
    }
}

/// When every item is a field that was asked for, nothing is left to report as unused.
pub proof fn law_all_fields_known(items: Seq<ItemView>, known: Seq<Seq<char>>, id: Seq<char>)
    requires
        forall|i: int| 0 <= i < items.len() ==> ((#[trigger] items[i]).key matches Some(k) && known.contains(k.s)),
    ensures
        unused_reports(items, known, id) == Seq::<ValidationReportView>::empty(),
    decreases items.len(),
{
    if items.len() > 0 {
        let rest = items.drop_last();
        assert forall|i: int| 0 <= i < rest.len() implies ((#[trigger] rest[i]).key matches Some(k) && known.contains(k.s)) by {
            assert(rest[i] == items[i]);
        }
        law_all_fields_known(rest, known, id);
        assert(items.last() == items[items.len() - 1]);
    }
}

/// The items of a scope are the views of its entries.
pub proof fn lemma_scope_items(s: &Scope, n: int)
    requires
        0 <= n <= s.v@.len(),
    ensures
        scope_items_view(s, n).len() == n,
        forall|i: int| 0 <= i < n ==> #[trigger] scope_items_view(s, n)[i] == item_view(&s.v@[i]),
    decreases n,
{
    if n > 0 {
        lemma_scope_items(s, n - 1);
    }
}

/// The validator's state: the scope, its name in reports, the field names asked for so far, and
/// the first fatal error.
pub struct ValidatorView {
    pub scope: ScopeView,
    pub id: Seq<char>,
    pub known_fields: Seq<Seq<char>>,
    pub err: Option<ValidationErrorView>,
}

/// Checks the fields of a scope one by one, and at the end the ones nobody asked for.
#[derive(Debug)]
pub struct Validator<'a> {
    /// The scope being validated.
    scope: &'a Scope,
    /// Identifier used for reports.
    id: &'a str,
    /// Fields that have been asked for so far.
    known_fields: Vec<&'a str>,
    /// Fatal error, if any.
    pub err: Option<ValidationError>,
}

/// The view of the names.
pub open spec fn names_view(v: Seq<&str>) -> Seq<Seq<char>> {
    v.map_values(|s: &str| s@)
}

impl<'a> View for Validator<'a> {
    type V = ValidatorView;

    closed spec fn view(&self) -> ValidatorView {
        ValidatorView {
            scope: scope_view(self.scope),
            id: self.id@,
            known_fields: names_view(self.known_fields@),
            err: opt_err_view(self.err),
        }
    }
}

/// The error after recording `e`: only the first one is kept.
pub open spec fn with_err(err: Option<ValidationErrorView>, e: ValidationErrorView) -> Option<ValidationErrorView> {
    match err {
        Some(x) => Some(x),
        None => Some(e),
    }
}

impl<'a> Validator<'a> {
    pub fn new(scope: &'a Scope, id: &'a str) -> (v: Self)
        ensures
            v@ == (ValidatorView { scope: scope_view(scope), id: id@, known_fields: Seq::empty(), err: None }),
    {
        let v = Validator { scope, id, known_fields: Vec::new(), err: None };
        assert(names_view(v.known_fields@) =~= Seq::<Seq<char>>::empty());
        v
    }

    /// Record a fatal error, unless there already is one.
    pub fn err(&mut self, e: ValidationError)
        ensures
            final(self)@ == (ValidatorView { err: with_err(old(self)@.err, e@), ..old(self)@ }),
    {
        if self.err.is_none() {
            self.err = Some(e);
        }
    }

    /// Read the field `name`, which should be there at most once and have `=`, as `want`: the
    /// value of the last one, if it is what was wanted. Each one that is not is reported.
    pub fn allow_unique_field_check(&mut self, name: &'a str, want: FieldWant, reports: &mut Vec<ValidationReport>) -> (r:
        Option<FieldValue<'a>>)
        ensures
            final(self)@ == (ValidatorView { known_fields: old(self)@.known_fields.push(name@), ..old(self)@ }),
            opt_field_view(r) == unique_scan(old(self)@.scope.items, name@, want).1,
            reports_view(final(reports)@) == reports_view(old(reports)@) + unique_scan(old(self)@.scope.items, name@, want).2,
    {
        self.add_known(name);
        let scope: &'a Scope = self.scope;
        let ghost items = scope_view(scope).items;
        proof {
            lemma_scope_items(scope, scope.v@.len() as int);
            assert(items.take(0) =~= Seq::<ItemView>::empty());
            assert(reports_view(reports@) =~= reports_view(old(reports)@) + Seq::<ValidationReportView>::empty());
        }
        let mut found = false;
        let mut value: Option<FieldValue<'a>> = None;
        let mut i: usize = 0;
        while i < scope.v.len()
            invariant
                items == scope_view(scope).items,
                items.len() == scope.v@.len(),
                forall|j: int| 0 <= j < items.len() ==> #[trigger] items[j] == item_view(&scope.v@[j]),
                i <= scope.v@.len(),
                found == unique_scan(items.take(i as int), name@, want).0,
                opt_field_view(value) == unique_scan(items.take(i as int), name@, want).1,
                reports_view(reports@) == reports_view(old(reports)@) + unique_scan(items.take(i as int), name@, want).2,
            decreases scope.v@.len() - i,
        {
            let item = &scope.v[i];
            let ghost it = items[i as int];
            let ghost before = reports_view(reports@);
            proof {
                assert(it == item_view(item));
                assert(items.take(i + 1).drop_last() =~= items.take(i as int));
                assert(items.take(i + 1).last() == it);
            }
            match &item.0 {
                Some(key) => {
                    if str_eq(key.as_str(), name) {
                        check_form(key, item.1, found, reports);
                        value = wanted(want, &item.2, reports);
                        found = true;
                        proof {
                            assert(reports_view(reports@) =~= before + unique_form_reports(key@, item.1, unique_scan(
                                items.take(i as int),
                                name@,
                                want,
                            ).0) + wanted_reports(want, value_view(&item.2)));
                        }
                    }
                },
                None => {},
            }
            i = i + 1;
        }
        proof {
            assert(items.take(i as int) =~= items);
        }
        value
    }

    /// The field `name`, which should be there at most once and have `=`: the last one's value.
    pub fn allow_unique_field(&mut self, name: &'a str, reports: &mut Vec<ValidationReport>) -> (r: Option<&'a ScopeValue>)
        ensures
            final(self)@ == (ValidatorView { known_fields: old(self)@.known_fields.push(name@), ..old(self)@ }),
            match r {
                Some(v) => unique_scan(old(self)@.scope.items, name@, FieldWant::Any).1 == Some(FieldValueView::Any(value_view(v))),
                None => unique_scan(old(self)@.scope.items, name@, FieldWant::Any).1 is None,
            },
            reports_view(final(reports)@) == reports_view(old(reports)@) + unique_scan(old(self)@.scope.items, name@, FieldWant::Any).2,
    {
        proof {
            lemma_unique_scan_form(self@.scope.items, name@, FieldWant::Any);
        }
        match self.allow_unique_field_check(name, FieldWant::Any, reports) {
            Some(FieldValue::Any(v)) => Some(v),
            _ => None,
        }
    }

    /// The value of the field `name`, which should be there at most once, have `=`, and have a
    /// value.
    pub fn allow_unique_field_value(&mut self, name: &'a str, reports: &mut Vec<ValidationReport>) -> (r: Option<Token>)
        ensures
            final(self)@ == (ValidatorView { known_fields: old(self)@.known_fields.push(name@), ..old(self)@ }),
            match r {
                Some(t) => unique_scan(old(self)@.scope.items, name@, FieldWant::Value).1 == Some(FieldValueView::Value(t@)),
                None => unique_scan(old(self)@.scope.items, name@, FieldWant::Value).1 is None,
            },
            reports_view(final(reports)@) == reports_view(old(reports)@) + unique_scan(old(self)@.scope.items, name@, FieldWant::Value).2,
    {
        proof {
            lemma_unique_scan_form(self@.scope.items, name@, FieldWant::Value);
        }
        match self.allow_unique_field_check(name, FieldWant::Value, reports) {
            Some(FieldValue::Value(t)) => Some(t),
            _ => None,
        }
    }

    /// The scope of the field `name`, which should be there at most once, have `=`, and have a
    /// scope.
    pub fn allow_unique_field_scope(&mut self, name: &'a str, reports: &mut Vec<ValidationReport>) -> (r: Option<&'a Scope>)
        ensures
            final(self)@ == (ValidatorView { known_fields: old(self)@.known_fields.push(name@), ..old(self)@ }),
            match r {
                Some(s) => unique_scan(old(self)@.scope.items, name@, FieldWant::Scope).1 == Some(FieldValueView::Scope(scope_view(s))),
                None => unique_scan(old(self)@.scope.items, name@, FieldWant::Scope).1 is None,
            },
            reports_view(final(reports)@) == reports_view(old(reports)@) + unique_scan(old(self)@.scope.items, name@, FieldWant::Scope).2,
    {
        proof {
            lemma_unique_scan_form(self@.scope.items, name@, FieldWant::Scope);
        }
        match self.allow_unique_field_check(name, FieldWant::Scope, reports) {
            Some(FieldValue::Scope(s)) => Some(s),
            _ => None,
        }
    }

    /// The field `name`, which should be there at most once, have `=`, and be `yes` or `no`.
    pub fn allow_unique_field_boolean(&mut self, name: &'a str, reports: &mut Vec<ValidationReport>) -> (r: Option<bool>)
        ensures
            final(self)@ == (ValidatorView { known_fields: old(self)@.known_fields.push(name@), ..old(self)@ }),
            match r {
                Some(b) => unique_scan(old(self)@.scope.items, name@, FieldWant::Bool).1 == Some(FieldValueView::Bool(b)),
                None => unique_scan(old(self)@.scope.items, name@, FieldWant::Bool).1 is None,
            },
            reports_view(final(reports)@) == reports_view(old(reports)@) + unique_scan(old(self)@.scope.items, name@, FieldWant::Bool).2,
    {
        proof {
            lemma_unique_scan_form(self@.scope.items, name@, FieldWant::Bool);
        }
        match self.allow_unique_field_check(name, FieldWant::Bool, reports) {
            Some(FieldValue::Bool(b)) => Some(b),
            _ => None,
        }
    }

    /// The field `name`, which should be there at most once, have `=`, and be an integer.
    pub fn allow_unique_field_integer(&mut self, name: &'a str, reports: &mut Vec<ValidationReport>) -> (r: Option<i64>)
        ensures
            final(self)@ == (ValidatorView { known_fields: old(self)@.known_fields.push(name@), ..old(self)@ }),
            match r {
                Some(i) => unique_scan(old(self)@.scope.items, name@, FieldWant::Integer).1 == Some(FieldValueView::Integer(i as int)),
                None => unique_scan(old(self)@.scope.items, name@, FieldWant::Integer).1 is None,
            },
            reports_view(final(reports)@) == reports_view(old(reports)@) + unique_scan(old(self)@.scope.items, name@, FieldWant::Integer).2,
    {
        proof {
            lemma_unique_scan_form(self@.scope.items, name@, FieldWant::Integer);
        }
        match self.allow_unique_field_check(name, FieldWant::Integer, reports) {
            Some(FieldValue::Integer(i)) => Some(i),
            _ => None,
        }
    }

    /// The values of the field `name`, which should be there at most once, have `=`, and be a
    /// scope of loose values.
    pub fn allow_unique_field_list(&mut self, name: &'a str, reports: &mut Vec<ValidationReport>) -> (r: Option<Vec<Token>>)
        ensures
            final(self)@ == (ValidatorView { known_fields: old(self)@.known_fields.push(name@), ..old(self)@ }),
            match r {
                Some(v) => unique_scan(old(self)@.scope.items, name@, FieldWant::List).1 == Some(FieldValueView::List(tokens_view(v@))),
                None => unique_scan(old(self)@.scope.items, name@, FieldWant::List).1 is None,
            },
            reports_view(final(reports)@) == reports_view(old(reports)@) + unique_scan(old(self)@.scope.items, name@, FieldWant::List).2,
    {
        proof {
            lemma_unique_scan_form(self@.scope.items, name@, FieldWant::List);
        }
        match self.allow_unique_field_check(name, FieldWant::List, reports) {
            Some(FieldValue::List(v)) => Some(v),
            _ => None,
        }
    }

    /// The value of the field `name`, which must be there, once, with `=` and a value. Without
    /// one, the error is recorded and returned.
    pub fn require_unique_field_value(&mut self, name: &'a str, reports: &mut Vec<ValidationReport>) -> (r: Result<
        Token,
        ValidationError,
    >)
        ensures
            final(self)@ == (ValidatorView {
                known_fields: old(self)@.known_fields.push(name@),
                err: required_err(old(self)@.err, old(self)@.scope.items, name@),
                ..old(self)@
            }),
            reports_view(final(reports)@) == reports_view(old(reports)@) + required_reports(old(self)@.scope, name@),
            match r {
                Ok(t) => required_scan(old(self)@.scope.items, name@).1 == Some(t@),
                Err(e) => required_scan(old(self)@.scope.items, name@).1 is None && e@
                    == ValidationErrorView::RequiredFieldMissing(name@),
            },
    {
        self.add_known(name);
        let scope: &'a Scope = self.scope;
        let ghost items = scope_view(scope).items;
        let ghost v0 = self@;
        proof {
            lemma_scope_items(scope, scope.v@.len() as int);
            assert(items.take(0) =~= Seq::<ItemView>::empty());
            assert(reports_view(reports@) =~= reports_view(old(reports)@) + Seq::<ValidationReportView>::empty());
        }
        let mut found = false;
        let mut value: Option<Token> = None;
        let ghost mut invalid = false;
        let mut i: usize = 0;
        while i < scope.v.len()
            invariant
                items == scope_view(scope).items,
                items.len() == scope.v@.len(),
                forall|j: int| 0 <= j < items.len() ==> #[trigger] items[j] == item_view(&scope.v@[j]),
                i <= scope.v@.len(),
                self.scope == scope,
                v0.scope == scope_view(scope),
                found == required_scan(items.take(i as int), name@).0,
                match value {
                    Some(t) => required_scan(items.take(i as int), name@).1 == Some(t@),
                    None => required_scan(items.take(i as int), name@).1 is None,
                },
                invalid == required_scan(items.take(i as int), name@).2,
                self@ == (ValidatorView {
                    err: if invalid {
                        with_err(v0.err, ValidationErrorView::RequiredFieldInvalid(name@))
                    } else {
                        v0.err
                    },
                    ..v0
                }),
                reports_view(reports@) == reports_view(old(reports)@) + required_scan(items.take(i as int), name@).3,
            decreases scope.v@.len() - i,
        {
            let item = &scope.v[i];
            let ghost it = items[i as int];
            let ghost before = reports_view(reports@);
            proof {
                assert(it == item_view(item));
                assert(items.take(i + 1).drop_last() =~= items.take(i as int));
                assert(items.take(i + 1).last() == it);
            }
            match &item.0 {
                Some(key) => {
                    if str_eq(key.as_str(), name) {
                        check_form(key, item.1, found, reports);
                        let ghost mid = reports_view(reports@);
                        match &item.2 {
                            ScopeValue::Token(t) => {
                                value = Some(t.copy());
                            },
                            ScopeValue::Scope(sc) => {
                                if self.err.is_none() {
                                    self.err = Some(ValidationError::RequiredFieldInvalid(string_of(name)));
                                }
                                push_report(reports, Severity::Error, &sc.loc, string_of("expected value, found scope"));
                                proof {
                                    invalid = true;
                                }
                            },
                        }
                        found = true;
                    }
                },
                None => {},
            }
            i = i + 1;
        }
        proof {
            assert(items.take(i as int) =~= items);
            assert(old(self)@.scope == v0.scope);
            assert(old(self)@.scope.items == items);
            lemma_required_scan_found(items, name@);
        }
        if !found || value.is_none() {
            let err = ValidationError::RequiredFieldMissing(string_of(name));
            self.err(err.clone());
            let msg = concat_str(concat_str("required field `", name).as_str(), "` missing");
            push_report(reports, Severity::Error, &scope.loc, msg);
            Err(err)
        } else {
            match value {
                Some(t) => Ok(t),
                None => {
                    let err = ValidationError::RequiredFieldMissing(string_of(name));
                    Err(err)
                },
            }
        }
    }

    /// The values of the fields `name`, each of which should have `=` and a value.
    pub fn allow_field_values(&mut self, name: &'a str, reports: &mut Vec<ValidationReport>) -> (r: Vec<Token>)
        ensures
            final(self)@ == (ValidatorView { known_fields: old(self)@.known_fields.push(name@), ..old(self)@ }),
            tokens_view(r@) == field_values(old(self)@.scope.items, name@),
            reports_view(final(reports)@) == reports_view(old(reports)@) + all_fields_reports(
                old(self)@.scope.items,
                name@,
                false,
            ),
    {
        self.add_known(name);
        let scope: &'a Scope = self.scope;
        let ghost items = scope_view(scope).items;
        proof {
            lemma_scope_items(scope, scope.v@.len() as int);
            assert(items.take(0) =~= Seq::<ItemView>::empty());
            assert(reports_view(reports@) =~= reports_view(old(reports)@) + Seq::<ValidationReportView>::empty());
        }
        let mut vec: Vec<Token> = Vec::new();
        proof {
            assert(tokens_view(vec@) =~= Seq::<TokenView>::empty());
        }
        let mut i: usize = 0;
        while i < scope.v.len()
            invariant
                items == scope_view(scope).items,
                items.len() == scope.v@.len(),
                forall|j: int| 0 <= j < items.len() ==> #[trigger] items[j] == item_view(&scope.v@[j]),
                i <= scope.v@.len(),
                tokens_view(vec@) == field_values(items.take(i as int), name@),
                reports_view(reports@) == reports_view(old(reports)@) + all_fields_reports(items.take(i as int), name@, false),
            decreases scope.v@.len() - i,
        {
            let item = &scope.v[i];
            let ghost it = items[i as int];
            let ghost before = reports_view(reports@);
            proof {
                assert(it == item_view(item));
                assert(items.take(i + 1).drop_last() =~= items.take(i as int));
                assert(items.take(i + 1).last() == it);
            }
            match &item.0 {
                Some(key) => {
                    if str_eq(key.as_str(), name) {
                        check_comparator(key, item.1, reports);
                        let ghost mid = reports_view(reports@);
                        match &item.2 {
                            ScopeValue::Token(t) => {
                                let ghost tv = tokens_view(vec@);
                                vec.push(t.copy());
                                proof {
                                    assert(tokens_view(vec@) =~= tv.push(t@));
                                    assert(reports_view(reports@) =~= before + comparator_reports(key@, item.1)
                                        + Seq::<ValidationReportView>::empty());
                                }
                            },
                            ScopeValue::Scope(sc) => {
                                push_report(reports, Severity::Error, &sc.loc, string_of("expected value, found scope"));
                                proof {
                                    assert(reports_view(reports@) =~= before + comparator_reports(key@, item.1)
                                        + seq![not_value_report(scope_view(sc))]);
                                }
                            },
                        }
                    }
                },
                None => {},
            }
            i = i + 1;
        }
        proof {
            assert(items.take(i as int) =~= items);
        }
        vec
    }

    /// The scopes of the fields `name`, each of which should have `=` and a scope.
    pub fn allow_field_scopes(&mut self, name: &'a str, reports: &mut Vec<ValidationReport>) -> (r: Vec<&'a Scope>)
        ensures
            final(self)@ == (ValidatorView { known_fields: old(self)@.known_fields.push(name@), ..old(self)@ }),
            scopes_view(r@) == field_scopes(old(self)@.scope.items, name@),
            reports_view(final(reports)@) == reports_view(old(reports)@) + all_fields_reports(
                old(self)@.scope.items,
                name@,
                true,
            ),
    {
        self.add_known(name);
        let scope: &'a Scope = self.scope;
        let ghost items = scope_view(scope).items;
        proof {
            lemma_scope_items(scope, scope.v@.len() as int);
            assert(items.take(0) =~= Seq::<ItemView>::empty());
            assert(reports_view(reports@) =~= reports_view(old(reports)@) + Seq::<ValidationReportView>::empty());
        }
        let mut vec: Vec<&'a Scope> = Vec::new();
        proof {
            assert(scopes_view(vec@) =~= Seq::<ScopeView>::empty());
        }
        let mut i: usize = 0;
        while i < scope.v.len()
            invariant
                items == scope_view(scope).items,
                items.len() == scope.v@.len(),
                forall|j: int| 0 <= j < items.len() ==> #[trigger] items[j] == item_view(&scope.v@[j]),
                i <= scope.v@.len(),
                scopes_view(vec@) == field_scopes(items.take(i as int), name@),
                reports_view(reports@) == reports_view(old(reports)@) + all_fields_reports(items.take(i as int), name@, true),
            decreases scope.v@.len() - i,
        {
            let item = &scope.v[i];
            let ghost it = items[i as int];
            let ghost before = reports_view(reports@);
            proof {
                assert(it == item_view(item));
                assert(items.take(i + 1).drop_last() =~= items.take(i as int));
                assert(items.take(i + 1).last() == it);
            }
            match &item.0 {
                Some(key) => {
                    if str_eq(key.as_str(), name) {
                        check_comparator(key, item.1, reports);
                        match &item.2 {
                            ScopeValue::Token(t) => {
                                push_report(reports, Severity::Error, &t.loc, string_of("expected scope, found value"));
                                proof {
                                    assert(reports_view(reports@) =~= before + comparator_reports(key@, item.1)
                                        + seq![not_scope_report(t@)]);
                                }
                            },
                            ScopeValue::Scope(sc) => {
                                let ghost sv = scopes_view(vec@);
                                vec.push(sc);
                                proof {
                                    assert(scopes_view(vec@) =~= sv.push(scope_view(sc)));
                                    assert(reports_view(reports@) =~= before + comparator_reports(key@, item.1)
                                        + Seq::<ValidationReportView>::empty());
                                }
                            },
                        }
                    }
                },
                None => {},
            }
            i = i + 1;
        }
        proof {
            assert(items.take(i as int) =~= items);
        }
        vec
    }

    /// Whether `name` is one of the fields asked for.
    fn is_known(&self, name: &str) -> (b: bool)
        ensures
            b == self@.known_fields.contains(name@),
    {
        let mut i: usize = 0;
        while i < self.known_fields.len()
            invariant
                i <= self.known_fields@.len(),
                forall|j: int| 0 <= j < i ==> self.known_fields@[j]@ != name@,
            decreases self.known_fields@.len() - i,
        {
            if str_eq(self.known_fields[i], name) {
                proof {
                    assert(self@.known_fields[i as int] == name@);
                }
                return true;
            }
            i = i + 1;
        }
        proof {
            if self@.known_fields.contains(name@) {
                let j = choose|j: int| 0 <= j < self@.known_fields.len() && self@.known_fields[j] == name@;
                assert(self.known_fields@[j]@ == name@);
            }
        }
        false
    }

    /// Report the fields that nobody asked for, and the loose values and scopes.
    pub fn warn_unused_entries(&mut self, reports: &mut Vec<ValidationReport>)
        ensures
            final(self)@ == old(self)@,
            reports_view(final(reports)@) == reports_view(old(reports)@) + unused_reports(
                old(self)@.scope.items,
                old(self)@.known_fields,
                old(self)@.id,
            ),
    {
        let scope: &'a Scope = self.scope;
        let ghost items = scope_view(scope).items;
        let ghost v0 = self@;
        proof {
            lemma_scope_items(scope, scope.v@.len() as int);
            assert(items.take(0) =~= Seq::<ItemView>::empty());
            assert(reports_view(reports@) =~= reports_view(old(reports)@) + Seq::<ValidationReportView>::empty());
        }
        let mut i: usize = 0;
        while i < scope.v.len()
            invariant
                items == scope_view(scope).items,
                items.len() == scope.v@.len(),
                forall|j: int| 0 <= j < items.len() ==> #[trigger] items[j] == item_view(&scope.v@[j]),
                i <= scope.v@.len(),
                self@ == v0,
                v0.scope == scope_view(scope),
                reports_view(reports@) == reports_view(old(reports)@) + unused_reports(items.take(i as int), v0.known_fields, v0.id),
            decreases scope.v@.len() - i,
        {
            let item = &scope.v[i];
            let ghost it = items[i as int];
            proof {
                assert(it == item_view(item));
                assert(items.take(i + 1).drop_last() =~= items.take(i as int));
                assert(items.take(i + 1).last() == it);
            }
            match &item.0 {
                Some(key) => {
                    if !self.is_known(key.as_str()) {
                        let msg = concat_str(
                            concat_str(concat_str("unknown field `", key.as_str()).as_str(), "` for ").as_str(),
                            self.id,
                        );
                        push_report(reports, Severity::Warning, &key.loc, msg);
                    }
                },
                None => match &item.2 {
                    ScopeValue::Token(t) => {
                        push_report(reports, Severity::Warning, &t.loc, string_of("found loose value, expected only `key =`"));
                    },
                    ScopeValue::Scope(sc) => {
                        push_report(reports, Severity::Warning, &sc.loc, string_of("found subscope, expected only `key =`"));
                    },
                },
            }
            i = i + 1;
        }
        proof {
            assert(items.take(i as int) =~= items);
        }
    }

    fn add_known(&mut self, name: &'a str)
        ensures
            final(self)@ == (ValidatorView { known_fields: old(self)@.known_fields.push(name@), ..old(self)@ }),
            final(self).scope == old(self).scope,
    {
        self.known_fields.push(name);
        proof {
            assert(names_view(self.known_fields@) =~= names_view(old(self).known_fields@).push(name@));
        }
    }
}

} // verus!
