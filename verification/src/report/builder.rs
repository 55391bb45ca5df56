//! A staged builder for reports.
//!
//! Splitting the builder into stages enforces the order of calls, and makes it impossible to
//! create a report without at least one pointer.
use vstd::prelude::*;

use crate::report::error_key::ErrorKey;
use crate::report::error_loc::ErrorLoc;
use crate::report::errors::{Errors, log};
use crate::report::report_struct::{
    Confidence, LogReport, PointedMessage, PointerView, ReportView, Severity,
};
use crate::token::Loc;

verus! {

/// The report with one pointer at `loc` and no pointer message.
pub open spec fn simple_report(
    key: ErrorKey,
    severity: Severity,
    confidence: Confidence,
    msg: Seq<char>,
    info: Option<Seq<char>>,
    loc: Loc,
) -> ReportView {
    ReportView {
        severity,
        confidence,
        key,
        msg,
        info,
        pointers: seq![PointerView { loc, length: 1, msg: None }],
    }
}

/// An info text as stored: empty text means no info.
pub open spec fn info_of(info: Seq<char>) -> Option<Seq<char>> {
    if info.len() == 0 {
        None
    } else {
        Some(info)
    }
}

pub fn report(key: ErrorKey, severity: Severity) -> (b: ReportBuilderStage1)
    ensures
        b == ReportBuilderStage1(key, severity, Confidence::Reasonable),
{
    ReportBuilderStage1(key, severity, Confidence::Reasonable)
}

pub fn tips(key: ErrorKey) -> (b: ReportBuilderStage1)
    ensures
        b == ReportBuilderStage1(key, Severity::Tips, Confidence::Reasonable),
{
    ReportBuilderStage1(key, Severity::Tips, Confidence::Reasonable)
}

pub fn untidy(key: ErrorKey) -> (b: ReportBuilderStage1)
    ensures
        b == ReportBuilderStage1(key, Severity::Untidy, Confidence::Reasonable),
{
    ReportBuilderStage1(key, Severity::Untidy, Confidence::Reasonable)
}

pub fn warn(key: ErrorKey) -> (b: ReportBuilderStage1)
    ensures
        b == ReportBuilderStage1(key, Severity::Warning, Confidence::Reasonable),
{
    ReportBuilderStage1(key, Severity::Warning, Confidence::Reasonable)
}

pub fn err(key: ErrorKey) -> (b: ReportBuilderStage1)
    ensures
        b == ReportBuilderStage1(key, Severity::Error, Confidence::Reasonable),
{
    ReportBuilderStage1(key, Severity::Error, Confidence::Reasonable)
}

pub fn fatal(key: ErrorKey) -> (b: ReportBuilderStage1)
    ensures
        b == ReportBuilderStage1(key, Severity::Fatal, Confidence::Reasonable),
{
    ReportBuilderStage1(key, Severity::Fatal, Confidence::Reasonable)
}

/// The first stage: key, severity and confidence.
#[derive(Debug, Clone, Copy, PartialEq, Eq, Structural)]
pub struct ReportBuilderStage1(pub ErrorKey, pub Severity, pub Confidence);

impl ReportBuilderStage1 {
    /// Optional step. Confidence defaults to Reasonable but this overrides it to Weak.
    pub fn weak(self) -> (b: Self)
        ensures
            b == ReportBuilderStage1(self.0, self.1, Confidence::Weak),
    {
        ReportBuilderStage1(self.0, self.1, Confidence::Weak)
    }

    /// Optional step. Confidence defaults to Reasonable but this overrides it to Strong.
    pub fn strong(self) -> (b: Self)
        ensures
            b == ReportBuilderStage1(self.0, self.1, Confidence::Strong),
    {
        ReportBuilderStage1(self.0, self.1, Confidence::Strong)
    }

    /// Sets the main report message.
    pub fn msg(self, msg: &str) -> (b: ReportBuilderStage2)
        ensures
            b.stage1 == self,
            b.msg@ == msg@,
            b.info is None,
    {
        ReportBuilderStage2 { stage1: self, msg: msg.to_owned(), info: None }
    }
}

/// The second stage: the message and optional info.
#[derive(Debug)]
pub struct ReportBuilderStage2 {
    pub stage1: ReportBuilderStage1,
    pub msg: String,
    pub info: Option<String>,
}

impl ReportBuilderStage2 {
    /// Optional step. Adds an info section to the report; an empty text adds none.
    pub fn info(self, info: &str) -> (b: Self)
        ensures
            b.stage1 == self.stage1,
            b.msg@ == self.msg@,
            crate::report::report_struct::opt_view(b.info) == info_of(info@),
    {
        let info = if info.is_empty() {
            None
        } else {
            Some(info.to_owned())
        };
        ReportBuilderStage2 { stage1: self.stage1, msg: self.msg, info }
    }

    /// Points the report at `loc`.
    pub fn loc<E: ErrorLoc>(self, loc: E) -> (b: ReportBuilderStage3)
        ensures
            b@ == simple_report(
                self.stage1.0,
                self.stage1.1,
                self.stage1.2,
                self.msg@,
                crate::report::report_struct::opt_view(self.info),
                loc.error_loc(),
            ),
    {
        let l = loc.into_loc();
        let mut pointers = Vec::new();
        pointers.push(PointedMessage { loc: l, length: 1, msg: None });
        let b = ReportBuilderStage3 { stage1: self.stage1, msg: self.msg, info: self.info, pointers };
        assert(b@.pointers =~= seq![PointerView { loc: l, length: 1, msg: None }]);
        b
    }

    /// Points the report at `loc`, with a message there.
    pub fn loc_msg<E: ErrorLoc>(self, loc: E, msg: &str) -> (b: ReportBuilderStage3)
        ensures
            b@ == (ReportView {
                pointers: seq![PointerView { loc: loc.error_loc(), length: 1, msg: Some(msg@) }],
                ..simple_report(
                    self.stage1.0,
                    self.stage1.1,
                    self.stage1.2,
                    self.msg@,
                    crate::report::report_struct::opt_view(self.info),
                    loc.error_loc(),
                )
            }),
    {
        let l = loc.into_loc();
        let mut pointers = Vec::new();
        pointers.push(PointedMessage { loc: l, length: 1, msg: Some(msg.to_owned()) });
        let b = ReportBuilderStage3 { stage1: self.stage1, msg: self.msg, info: self.info, pointers };
        assert(b@.pointers =~= seq![PointerView { loc: l, length: 1, msg: Some(msg@) }]);
        b
    }

    /// Points the report at the given pointers.
    pub fn pointers(self, pointers: Vec<PointedMessage>) -> (b: ReportBuilderStage3)
        ensures
            b.stage1 == self.stage1,
            b.msg@ == self.msg@,
            b.info == self.info,
            b.pointers == pointers,
    {
        ReportBuilderStage3 { stage1: self.stage1, msg: self.msg, info: self.info, pointers }
    }
}

/// The third stage: the pointers.
#[derive(Debug)]
pub struct ReportBuilderStage3 {
    pub stage1: ReportBuilderStage1,
    pub msg: String,
    pub info: Option<String>,
    pub pointers: Vec<PointedMessage>,
}

impl View for ReportBuilderStage3 {
    type V = ReportView;

    open spec fn view(&self) -> ReportView {
        ReportView {
            severity: self.stage1.1,
            confidence: self.stage1.2,
            key: self.stage1.0,
            msg: self.msg@,
            info: crate::report::report_struct::opt_view(self.info),
            pointers: self.pointers@.map_values(|p: PointedMessage| p@),
        }
    }
}

impl ReportBuilderStage3 {
    /// Adds another pointer, with a message.
    pub fn loc<E: ErrorLoc>(self, loc: E, msg: &str) -> (b: Self)
        ensures
            b@ == (ReportView {
                pointers: self@.pointers.push(
                    PointerView { loc: loc.error_loc(), length: 1, msg: Some(msg@) },
                ),
                ..self@
            }),
    {
        let l = loc.into_loc();
        let mut b = self;
        let ghost before = b@.pointers;
        b.pointers.push(PointedMessage { loc: l, length: 1, msg: Some(msg.to_owned()) });
        assert(b@.pointers =~= before.push(PointerView { loc: l, length: 1, msg: Some(msg@) }));
        b
    }

    /// Build the report and return it.
    pub fn build(self) -> (r: LogReport)
        ensures
            r@ == self@,
    {
        LogReport {
            key: self.stage1.0,
            severity: self.stage1.1,
            confidence: self.stage1.2,
            msg: self.msg,
            info: self.info,
            pointers: self.pointers,
        }
    }

    /// Build the report and log it.
    pub fn push(self, errors: &mut Errors)
        ensures
            final(errors).logged(old(errors), seq![self@]),
    {
        log(self.build(), errors);
    }
}

} // verus!
