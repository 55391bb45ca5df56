//! Decides which reports are printed.
use vstd::prelude::*;

use crate::block::Comparator;
use crate::fileset::FileKind;
use crate::pathtable::PathTable;
use crate::report::error_key::ErrorKey;
use crate::report::report_struct::{Confidence, LogReport, PointerView, ReportView, Severity};
use crate::text::{spec_ascii_lowercase, spec_contains, str_contains, str_to_ascii_lowercase};
use crate::token::Loc;

verus! {

/// The result of `Path::starts_with` for the path `p` and the base `base`: whether the
/// components of `base` are the leading components of `p`.
pub uninterp spec fn path_prefix(p: Seq<char>, base: Seq<char>) -> bool;

/// `Path::starts_with`.
///
/// Calls `Path::starts_with` on the two strings taken as paths. The contract names its result as
/// a function of the two paths; the component matching rules of `std::path` are not restated.
#[verifier::external_body]
pub(crate) fn path_starts_with(p: &str, base: &str) -> (b: bool)
    ensures
        b == path_prefix(p@, base@),
{
    std::path::Path::new(p).starts_with(base)
}

/// Whether a value of rank `a` satisfies the comparison `op` against rank `b`.
pub open spec fn comparison_holds(op: Comparator, a: int, b: int) -> bool {
    match op {
        Comparator::Equals(_) => a == b,
        Comparator::NotEquals => a != b,
        Comparator::GreaterThan => a > b,
        Comparator::AtLeast => a >= b,
        Comparator::LessThan => a < b,
        Comparator::AtMost => a <= b,
    }
}

fn exec_comparison_holds(op: Comparator, a: u8, b: u8) -> (r: bool)
    ensures
        r == comparison_holds(op, a as int, b as int),
{
    match op {
        Comparator::Equals(_) => a == b,
        Comparator::NotEquals => a != b,
        Comparator::GreaterThan => a > b,
        Comparator::AtLeast => a >= b,
        Comparator::LessThan => a < b,
        Comparator::AtMost => a <= b,
    }
}

/// A rule that decides whether a report should be printed.
#[derive(Debug)]
pub enum FilterRule {
    /// Always true.
    Tautology,
    /// Always false.
    Contradiction,
    /// Reports must match all enclosed rules.
    Conjunction(Vec<FilterRule>),
    /// Reports must match at least one of the enclosed rules.
    Disjunction(Vec<FilterRule>),
    /// Reports must not match the enclosed rule.
    Negation(Box<FilterRule>),
    /// Reports must be within the given Severity range, such as `severity >= error`.
    Severity(Comparator, Severity),
    /// Reports must be within the given Confidence range, such as `confidence > weak`.
    Confidence(Comparator, Confidence),
    /// The report's `ErrorKey` must be the listed key.
    Key(ErrorKey),
    /// The report's pointers must contain the given file.
    File(String),
    /// The report's msg must contain the given text, ignoring ASCII case.
    Text(String),
}

/// The relative path of the file of `loc`, if the table holds it.
pub open spec fn loc_path(paths: Seq<(Seq<char>, Seq<char>)>, loc: Loc) -> Option<Seq<char>> {
    if (loc.idx.0 as int) < paths.len() {
        Some(paths[loc.idx.0 as int].0)
    } else {
        None
    }
}

/// Whether `loc` is in a file under `path`.
pub open spec fn loc_in_path(paths: Seq<(Seq<char>, Seq<char>)>, loc: Loc, path: Seq<char>) -> bool {
    match loc_path(paths, loc) {
        Some(p) => path_prefix(p, path),
        None => false,
    }
}

/// Whether the rule matches the report.
pub open spec fn rule_applies(
    rule: &FilterRule,
    r: ReportView,
    paths: Seq<(Seq<char>, Seq<char>)>,
) -> bool
    decreases rule,
{
    match rule {
        FilterRule::Tautology => true,
        FilterRule::Contradiction => false,
        FilterRule::Conjunction(children) => forall|i: int|
            0 <= i < children@.len() ==> rule_applies(&#[trigger] children@[i], r, paths),
        FilterRule::Disjunction(children) => exists|i: int|
            0 <= i < children@.len() && rule_applies(&#[trigger] children@[i], r, paths),
        FilterRule::Negation(child) => !rule_applies(&**child, r, paths),
        FilterRule::Severity(op, level) => comparison_holds(
            *op,
            r.severity.spec_rank(),
            level.spec_rank(),
        ),
        FilterRule::Confidence(op, level) => comparison_holds(
            *op,
            r.confidence.spec_rank(),
            level.spec_rank(),
        ),
        FilterRule::Key(key) => r.key == *key,
        FilterRule::File(path) => exists|i: int|
            0 <= i < r.pointers.len() && loc_in_path(paths, #[trigger] r.pointers[i].loc, path@),
        FilterRule::Text(s) => spec_contains(spec_ascii_lowercase(r.msg), spec_ascii_lowercase(s@)),
    }
}

impl FilterRule {
    fn apply(&self, report: &LogReport, paths: &PathTable) -> (b: bool)
        ensures
            b == rule_applies(self, report@, paths.entries()),
        decreases self,
    {
        match self {
            FilterRule::Tautology => true,
            FilterRule::Contradiction => false,
            FilterRule::Conjunction(children) => {
                let mut i: usize = 0;
                while i < children.len()
                    invariant
                        *self == FilterRule::Conjunction(*children),
                        i <= children@.len(),
                        forall|j: int|
                            0 <= j < i ==> rule_applies(&#[trigger] children@[j], report@, paths.entries()),
                    decreases children.len() - i,
                {
                    proof {
                        assert(decreases_to!(*self => (*self)->Conjunction_0));
                        assert(decreases_to!(*children => children@));
                        assert(decreases_to!(children@ => children@[i as int]));
                    }
                    if !children[i].apply(report, paths) {
                        assert(!rule_applies(&children@[i as int], report@, paths.entries()));
                        return false;
                    }
                    i = i + 1;
                }
                true
            },
            FilterRule::Disjunction(children) => {
                let mut i: usize = 0;
                while i < children.len()
                    invariant
                        *self == FilterRule::Disjunction(*children),
                        i <= children@.len(),
                        forall|j: int|
                            0 <= j < i ==> !rule_applies(&#[trigger] children@[j], report@, paths.entries()),
                    decreases children.len() - i,
                {
                    proof {
                        assert(decreases_to!(*self => (*self)->Disjunction_0));
                        assert(decreases_to!(*children => children@));
                        assert(decreases_to!(children@ => children@[i as int]));
                    }
                    if children[i].apply(report, paths) {
                        assert(rule_applies(&children@[i as int], report@, paths.entries()));
                        return true;
                    }
                    i = i + 1;
                }
                false
            },
            FilterRule::Negation(child) => !child.apply(report, paths),
            FilterRule::Severity(op, level) => exec_comparison_holds(
                *op,
                report.severity.rank(),
                level.rank(),
            ),
            FilterRule::Confidence(op, level) => exec_comparison_holds(
                *op,
                report.confidence.rank(),
                level.rank(),
            ),
            FilterRule::Key(key) => report.key == *key,
            FilterRule::File(path) => {
                let mut i: usize = 0;
                while i < report.pointers.len()
                    invariant
                        *self == FilterRule::File(*path),
                        i <= report.pointers@.len(),
                        forall|j: int|
                            0 <= j < i ==> !loc_in_path(
                                paths.entries(),
                                #[trigger] report@.pointers[j].loc,
                                path@,
                            ),
                    decreases report.pointers.len() - i,
                {
                    let loc = report.pointers[i].loc;
                    if (loc.idx.0 as usize) < paths.len() {
                        let p = loc.pathname(paths);
                        if path_starts_with(p.as_str(), path.as_str()) {
                            assert(report@.pointers[i as int].loc == loc);
                            assert(loc_in_path(paths.entries(), report@.pointers[i as int].loc, path@));
                            return true;
                        }
                    }
                    i = i + 1;
                }
                false
            },
            FilterRule::Text(s) => {
                let m = str_to_ascii_lowercase(report.msg.as_str());
                let t = str_to_ascii_lowercase(s.as_str());
                str_contains(m.as_str(), t.as_str())
            },
        }
    }
}

/// Determines whether a given report should be printed.
#[derive(Debug)]
pub struct ReportFilter {
    /// Whether to log errors in vanilla files.
    pub show_vanilla: bool,
    /// Whether to log errors in other loaded mods.
    pub show_loaded_mods: bool,
    /// A complex trigger that evaluates a report to assess whether it should be printed.
    pub predicate: FilterRule,
}

impl ReportFilter {
    pub fn new() -> (f: Self)
        ensures
            !f.show_vanilla,
            !f.show_loaded_mods,
            f.predicate is Tautology,
    {
        ReportFilter { show_vanilla: false, show_loaded_mods: false, predicate: FilterRule::Tautology }
    }

    /// Whether `loc` is in a file that this filter leaves out.
    pub open spec fn out_of_scope(&self, loc: Loc) -> bool {
        (loc.kind.spec_counts_as_vanilla() && !self.show_vanilla) || (loc.kind is LoadedMod
            && !self.show_loaded_mods)
    }

    fn loc_out_of_scope(&self, loc: Loc) -> (b: bool)
        ensures
            b == self.out_of_scope(loc),
    {
        let lm = match loc.kind {
            FileKind::LoadedMod(_) => true,
            _ => false,
        };
        (loc.kind.counts_as_vanilla() && !self.show_vanilla) || (lm && !self.show_loaded_mods)
    }

    /// Whether the report should be printed: reports about the configuration always are;
    /// otherwise at least one of its locations must be in scope, and the predicate must match.
    pub open spec fn spec_should_print(&self, r: ReportView, paths: Seq<(Seq<char>, Seq<char>)>) -> bool {
        if r.key == ErrorKey::Config {
            true
        } else if forall|i: int| 0 <= i < r.pointers.len() ==> self.out_of_scope(#[trigger] r.pointers[i].loc) {
            false
        } else {
            rule_applies(&self.predicate, r, paths)
        }
    }

    /// Returns true iff the report should be printed.
    pub fn should_print_report(&self, report: &LogReport, paths: &PathTable) -> (b: bool)
        ensures
            b == self.spec_should_print(report@, paths.entries()),
    {
        if report.key == ErrorKey::Config {
            return true;
        }
        let mut i: usize = 0;
        let mut all_out = true;
        while i < report.pointers.len()
            invariant
                i <= report.pointers@.len(),
                all_out == forall|j: int| 0 <= j < i ==> self.out_of_scope(#[trigger] report@.pointers[j].loc),
            decreases report.pointers.len() - i,
        {
            assert(report@.pointers[i as int].loc == report.pointers@[i as int].loc);
            if !self.loc_out_of_scope(report.pointers[i].loc) {
                all_out = false;
            }
            i = i + 1;
        }
        if all_out {
            return false;
        }
        self.predicate.apply(report, paths)
    }

    /// Whether a report with this key and loc might be printed.
    pub open spec fn spec_should_maybe_print(&self, key: ErrorKey, loc: Loc) -> bool {
        key == ErrorKey::Config || !self.out_of_scope(loc)
    }

    /// Returns false if a report with this key at this loc would certainly not be printed.
    pub fn should_maybe_print(&self, key: ErrorKey, loc: Loc) -> (b: bool)
        ensures
            b == self.spec_should_maybe_print(key, loc),
    {
        if key == ErrorKey::Config {
            return true;
        }
        !self.loc_out_of_scope(loc)
    }
}

} // verus!
