//! The report type and its parts.
use vstd::prelude::*;

use crate::report::error_key::ErrorKey;
use crate::token::Loc;

verus! {

/// Determines the output colour. Users can also filter by minimum severity level.
///
/// The order of the variants is the order of severity.
#[derive(Clone, Copy, Debug, PartialEq, Eq, Hash, Structural)]
pub enum Severity {
    /// Not necessarily wrong, but there may be a better, more idiomatic way to do it.
    Tips,
    /// This code smells.
    Untidy,
    /// Glitches that will noticeably impact the player's gaming experience.
    Warning,
    /// This code probably doesn't work as intended.
    Error,
    /// This is likely to cause crashes.
    Fatal,
}

impl Severity {
    pub open spec fn spec_rank(self) -> int {
        match self {
            Severity::Tips => 0,
            Severity::Untidy => 1,
            Severity::Warning => 2,
            Severity::Error => 3,
            Severity::Fatal => 4,
        }
    }

    pub fn rank(self) -> (r: u8)
        ensures
            r == self.spec_rank(),
    {
        match self {
            Severity::Tips => 0,
            Severity::Untidy => 1,
            Severity::Warning => 2,
            Severity::Error => 3,
            Severity::Fatal => 4,
        }
    }

    /// The lesser of `self` and `max_sev`, unless `self` is `Fatal`, which stays `Fatal`.
    pub open spec fn spec_at_most(self, max_sev: Severity) -> Severity {
        if self == Severity::Fatal {
            Severity::Fatal
        } else if self.spec_rank() <= max_sev.spec_rank() {
            self
        } else {
            max_sev
        }
    }

    /// Reduce the severity to at most `max_sev`, unless severity is `Fatal`, then stays `Fatal`.
    pub fn at_most(self, max_sev: Severity) -> (s: Severity)
        ensures
            s == self.spec_at_most(max_sev),
    {
        if self == Severity::Fatal {
            Severity::Fatal
        } else if self.rank() <= max_sev.rank() {
            self
        } else {
            max_sev
        }
    }
}

/// How sure the validator is that the problem is real.
///
/// The order of the variants is the order of confidence.
#[derive(Clone, Copy, Debug, PartialEq, Eq, Structural)]
pub enum Confidence {
    /// Quite likely to be a false positive.
    Weak,
    /// Reasonably confident that the problem is real.
    Reasonable,
    /// Very confident that this problem is real.
    Strong,
}

impl Confidence {
    pub open spec fn spec_rank(self) -> int {
        match self {
            Confidence::Weak => 0,
            Confidence::Reasonable => 1,
            Confidence::Strong => 2,
        }
    }

    pub fn rank(self) -> (r: u8)
        ensures
            r == self.spec_rank(),
    {
        match self {
            Confidence::Weak => 0,
            Confidence::Reasonable => 1,
            Confidence::Strong => 2,
        }
    }
}

/// The chars of an optional string.
pub open spec fn opt_view(o: Option<String>) -> Option<Seq<char>> {
    match o {
        Some(s) => Some(s@),
        None => None,
    }
}

/// A location that a report points at, with an optional message.
#[derive(Debug)]
pub struct PointedMessage {
    /// Which file and where in the file the error occurs.
    pub loc: Loc,
    /// The length of the offending phrase in chars, or 0 if unknown.
    pub length: usize,
    /// A short message that will be printed at the location.
    pub msg: Option<String>,
}

/// The mathematical content of a [`PointedMessage`].
pub struct PointerView {
    pub loc: Loc,
    pub length: usize,
    pub msg: Option<Seq<char>>,
}

impl View for PointedMessage {
    type V = PointerView;

    open spec fn view(&self) -> PointerView {
        PointerView { loc: self.loc, length: self.length, msg: opt_view(self.msg) }
    }
}

impl PointedMessage {
    pub fn new(loc: Loc) -> (p: Self)
        ensures
            p@ == (PointerView { loc, length: 0, msg: None }),
    {
        PointedMessage { loc, length: 0, msg: None }
    }

    pub fn copy(&self) -> (p: Self)
        ensures
            p@ == self@,
    {
        let msg = match &self.msg {
            Some(s) => Some(s.clone()),
            None => None,
        };
        PointedMessage { loc: self.loc, length: self.length, msg }
    }
}

/// A report about a potentially problematic situation.
#[derive(Debug)]
pub struct LogReport {
    /// Used for choosing output colors and for filtering reports.
    pub severity: Severity,
    /// Mostly used for filtering reports.
    pub confidence: Confidence,
    /// Defines the problem category. Used for filtering reports.
    pub key: ErrorKey,
    /// The primary error message. A short description of the problem.
    pub msg: String,
    /// Optional info message to be printed at the end.
    pub info: Option<String>,
    /// Should contain one or more elements.
    pub pointers: Vec<PointedMessage>,
}

/// The mathematical content of a [`LogReport`].
pub struct ReportView {
    pub severity: Severity,
    pub confidence: Confidence,
    pub key: ErrorKey,
    pub msg: Seq<char>,
    pub info: Option<Seq<char>>,
    pub pointers: Seq<PointerView>,
}

impl View for LogReport {
    type V = ReportView;

    open spec fn view(&self) -> ReportView {
        ReportView {
            severity: self.severity,
            confidence: self.confidence,
            key: self.key,
            msg: self.msg@,
            info: opt_view(self.info),
            pointers: self.pointers@.map_values(|p: PointedMessage| p@),
        }
    }
}

/// The number of decimal digits of `n`.
pub open spec fn decimal_len(n: int) -> int
    decreases n,
{
    if n < 10 {
        1
    } else {
        1 + decimal_len(n / 10)
    }
}

proof fn lemma_decimal_len_bound(n: int)
    requires
        n >= 0,
    ensures
        1 <= decimal_len(n),
        n >= 1 ==> decimal_len(n) <= n,
    decreases n,
{
    if n >= 10 {
        lemma_decimal_len_bound(n / 10);
    }
}

pub fn decimal_len_u32(n: u32) -> (d: usize)
    ensures
        d == decimal_len(n as int),
{
    let mut m = n;
    let mut d: usize = 1;
    proof {
        lemma_decimal_len_bound(n as int);
    }
    while m >= 10
        invariant
            d + decimal_len(m as int) == decimal_len(n as int) + 1,
            1 <= d,
            decimal_len(n as int) <= u32::MAX,
        decreases m,
    {
        proof {
            lemma_decimal_len_bound((m / 10) as int);
        }
        m = m / 10;
        d = d + 1;
    }
    d
}

/// The largest `decimal_len` of the line numbers of the pointers, or 0 if there are none.
pub open spec fn max_line_len(ps: Seq<PointerView>) -> int
    decreases ps.len(),
{
    if ps.len() == 0 {
        0
    } else {
        let rest = max_line_len(ps.drop_last());
        let here = decimal_len(ps.last().loc.line as int);
        if here > rest {
            here
        } else {
            rest
        }
    }
}

impl LogReport {
    /// Returns the primary pointer.
    pub fn primary(&self) -> (p: &PointedMessage)
        requires
            self.pointers@.len() > 0,
        ensures
            p@ == self@.pointers[0],
    {
        &self.pointers[0]
    }

    /// Returns the length of the longest line number.
    pub fn indentation(&self) -> (n: usize)
        ensures
            n == max_line_len(self@.pointers),
    {
        let mut best: usize = 0;
        let mut i: usize = 0;
        while i < self.pointers.len()
            invariant
                i <= self.pointers@.len(),
                best == max_line_len(self@.pointers.take(i as int)),
            decreases self.pointers.len() - i,
        {
            let here = decimal_len_u32(self.pointers[i].loc.line);
            proof {
                assert(self@.pointers.take(i + 1).drop_last() =~= self@.pointers.take(i as int));
            }
            if here > best {
                best = here;
            }
            i = i + 1;
        }
        proof {
            assert(self@.pointers.take(self.pointers@.len() as int) =~= self@.pointers);
        }
        best
    }

    /// A copy of this report.
    pub fn copy(&self) -> (r: Self)
        ensures
            r@ == self@,
    {
        let mut pointers: Vec<PointedMessage> = Vec::new();
        let mut i: usize = 0;
        while i < self.pointers.len()
            invariant
                i <= self.pointers@.len(),
                pointers@.map_values(|p: PointedMessage| p@) =~= self.pointers@.take(
                    i as int,
                ).map_values(|p: PointedMessage| p@),
            decreases self.pointers.len() - i,
        {
            let ghost before = pointers@;
            pointers.push(self.pointers[i].copy());
            proof {
                assert(self.pointers@.take(i + 1) =~= self.pointers@.take(i as int).push(
                    self.pointers@[i as int],
                ));
                assert(pointers@.map_values(|p: PointedMessage| p@) =~= before.map_values(|p: PointedMessage| p@).push(self.pointers@[i as int]@));
            }
            i = i + 1;
        }
        proof {
            assert(self.pointers@.take(self.pointers@.len() as int) =~= self.pointers@);
        }
        let info = match &self.info {
            Some(s) => Some(s.clone()),
            None => None,
        };
        LogReport {
            severity: self.severity,
            confidence: self.confidence,
            key: self.key,
            msg: self.msg.clone(),
            info,
            pointers,
        }
    }
}

} // verus!
