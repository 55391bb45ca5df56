//! Collect error reports.
use vstd::prelude::*;

use crate::macros::{MacroMap, MacroMapIndex};
use crate::pathtable::PathTable;
use crate::report::error_key::ErrorKey;
use crate::report::error_loc::ErrorLoc;
use crate::report::filter::ReportFilter;
use crate::report::report_struct::{LogReport, PointedMessage, PointerView, ReportView, opt_view};
use crate::report::suppress::{lines_view, opt_chars, pointer_paths, should_suppress, suppression_covers, SuppressionReport};
use crate::text::{seq_eq, chars_of};
use crate::token::Loc;

verus! {

/// The pointers that follow `loc` along its chain of macro links, at most `fuel` of them.
pub open spec fn link_chain(map: Seq<Loc>, loc: Loc, fuel: nat) -> Seq<PointerView>
    decreases fuel,
{
    if fuel == 0 {
        Seq::empty()
    } else {
        match loc.link_idx {
            Some(i) => if 1 <= i <= map.len() {
                let l = map[i - 1];
                seq![PointerView { loc: l, length: 0, msg: Some("from here"@) }] + link_chain(
                    map,
                    l,
                    (fuel - 1) as nat,
                )
            } else {
                Seq::empty()
            },
            None => Seq::empty(),
        }
    }
}

/// Each pointer followed by the chain of macro invocations it came from.
pub open spec fn expand_pointers(map: Seq<Loc>, ps: Seq<PointerView>) -> Seq<PointerView>
    decreases ps.len(),
{
    if ps.len() == 0 {
        Seq::empty()
    } else {
        expand_pointers(map, ps.drop_last()) + seq![ps.last()] + link_chain(
            map,
            ps.last().loc,
            map.len() as nat,
        )
    }
}

/// Whether two reports have the same content.
pub fn same_report(a: &LogReport, b: &LogReport) -> (r: bool)
    ensures
        r == (a@ == b@),
{
    if a.severity != b.severity {
        assert(a@.severity != b@.severity);
        return false;
    }
    if a.confidence != b.confidence {
        assert(a@.confidence != b@.confidence);
        return false;
    }
    if a.key != b.key {
        assert(a@.key != b@.key);
        return false;
    }
    if !same_string(&a.msg, &b.msg) {
        assert(a@.msg != b@.msg);
        return false;
    }
    assert(a@.info == opt_view(a.info));
    assert(b@.info == opt_view(b.info));
    if !same_opt_string(&a.info, &b.info) {
        assert(a@.info != b@.info);
        return false;
    }
    if a.pointers.len() != b.pointers.len() {
        assert(a@.pointers.len() != b@.pointers.len());
        return false;
    }
    let mut i: usize = 0;
    while i < a.pointers.len()
        invariant
            a.pointers@.len() == b.pointers@.len(),
            i <= a.pointers@.len(),
            forall|j: int| 0 <= j < i ==> #[trigger] a@.pointers[j] == b@.pointers[j],
        decreases a.pointers.len() - i,
    {
        let pa = &a.pointers[i];
        let pb = &b.pointers[i];
        if pa.loc != pb.loc || pa.length != pb.length || !same_opt_string(&pa.msg, &pb.msg) {
            assert(a@.pointers[i as int] != b@.pointers[i as int]);
            return false;
        }
        i = i + 1;
    }
    assert(a@.pointers =~= b@.pointers);
    true
}

fn same_string(a: &String, b: &String) -> (r: bool)
    ensures
        r == (a@ == b@),
{
    let va = chars_of(a.as_str());
    let vb = chars_of(b.as_str());
    seq_eq(&va, &vb)
}

fn same_opt_string(a: &Option<String>, b: &Option<String>) -> (r: bool)
    ensures
        r == (opt_view(*a) == opt_view(*b)),
{
    match (a, b) {
        (Some(x), Some(y)) => same_string(x, y),
        (None, None) => true,
        _ => false,
    }
}

/// The collected reports, together with what decides which reports are kept.
#[derive(Debug)]
pub struct Errors {
    /// Extra loaded mods' error tags.
    pub loaded_mods_labels: Vec<String>,
    /// Loaded DLCs' error tags.
    pub loaded_dlcs_labels: Vec<String>,
    /// Determines whether a report should be kept.
    pub filter: ReportFilter,
    /// The pathnames that locs refer to.
    pub paths: PathTable,
    /// The macro invocations that linked locs refer to.
    pub macro_map: MacroMap,
    /// All reports that passed the checks, each stored once, in the order they were logged.
    pub storage: Vec<LogReport>,
    /// Reports that the user does not want to see.
    pub suppressions: Vec<SuppressionReport>,
    /// The lines of the file at each index of the path table, where they were read; reports are
    /// matched against suppressions by these lines.
    pub sources: Vec<Option<Vec<String>>>,
}

impl Errors {
    /// The stored reports, in the order they were first logged.
    pub open spec fn reports(&self) -> Seq<ReportView> {
        self.storage@.map_values(|r: LogReport| r@)
    }

    /// The source line that `loc` points at, where it is known.
    pub open spec fn source_line(&self, loc: Loc) -> Option<Seq<char>> {
        if loc.line == 0 || loc.idx.0 >= self.sources@.len() {
            None
        } else {
            match self.sources@[loc.idx.0 as int] {
                Some(lines) => if loc.line <= lines@.len() {
                    Some(lines@[loc.line - 1]@)
                } else {
                    None
                },
                None => None,
            }
        }
    }

    /// The source line at each pointer of `r`.
    pub open spec fn pointer_lines(&self, r: ReportView) -> Seq<Option<Seq<char>>> {
        Seq::new(r.pointers.len(), |k: int| self.source_line(r.pointers[k].loc))
    }

    /// Whether one of the suppressions covers the report.
    pub open spec fn suppressed(&self, r: ReportView) -> bool {
        exists|i: int|
            0 <= i < self.suppressions@.len() && #[trigger] suppression_covers(
                self.suppressions@[i]@,
                r,
                pointer_paths(self, r),
                self.pointer_lines(r),
            )
    }

    /// Whether the report is kept: the filter lets it through and no suppression covers it.
    pub open spec fn accepts(&self, r: ReportView) -> bool {
        &&& self.filter.spec_should_print(r, self.paths.entries())
        &&& !self.suppressed(r)
    }

    /// The report with every pointer followed by the macro invocations it came from.
    pub open spec fn expanded(&self, r: ReportView) -> ReportView {
        ReportView { pointers: expand_pointers(self.macro_map.entries(), r.pointers), ..r }
    }

    /// The stored reports after logging `r` when `stored` were stored before.
    pub open spec fn log_step(&self, stored: Seq<ReportView>, r: ReportView) -> Seq<ReportView> {
        let e = self.expanded(r);
        if self.accepts(e) && !stored.contains(e) {
            stored.push(e)
        } else {
            stored
        }
    }

    /// The stored reports after logging each of `rs` in order.
    pub open spec fn log_all(&self, stored: Seq<ReportView>, rs: Seq<ReportView>) -> Seq<ReportView>
        decreases rs.len(),
    {
        if rs.len() == 0 {
            stored
        } else {
            self.log_step(self.log_all(stored, rs.drop_last()), rs.last())
        }
    }

    /// Logging only adds reports; the configuration stays the same.
    pub open spec fn same_config(&self, other: &Errors) -> bool {
        &&& self.loaded_mods_labels == other.loaded_mods_labels
        &&& self.loaded_dlcs_labels == other.loaded_dlcs_labels
        &&& self.filter == other.filter
        &&& self.paths == other.paths
        &&& self.macro_map == other.macro_map
        &&& self.suppressions == other.suppressions
        &&& self.sources == other.sources
    }

    /// After logging `rs`, starting from `old`.
    pub open spec fn logged(&self, old: &Errors, rs: Seq<ReportView>) -> bool {
        &&& self.same_config(old)
        &&& self.reports() == old.log_all(old.reports(), rs)
    }

    pub fn new() -> (e: Self)
        ensures
            e.reports() == Seq::<ReportView>::empty(),
            e.loaded_mods_labels@ == Seq::<String>::empty(),
            e.loaded_dlcs_labels@ == Seq::<String>::empty(),
            !e.filter.show_vanilla,
            !e.filter.show_loaded_mods,
            e.filter.predicate is Tautology,
            e.paths.entries() == Seq::<(Seq<char>, Seq<char>)>::empty(),
            e.macro_map.entries() == Seq::<Loc>::empty(),
            e.macro_map.wf(),
            e.suppressions@ == Seq::<SuppressionReport>::empty(),
            e.sources@ == Seq::<Option<Vec<String>>>::empty(),
    {
        let e = Errors {
            loaded_mods_labels: Vec::new(),
            loaded_dlcs_labels: Vec::new(),
            filter: ReportFilter::new(),
            paths: PathTable::new(),
            macro_map: MacroMap::new(),
            storage: Vec::new(),
            suppressions: Vec::new(),
            sources: Vec::new(),
        };
        assert(e.reports() =~= Seq::<ReportView>::empty());
        e
    }

    fn contains_report(&self, report: &LogReport) -> (b: bool)
        ensures
            b == self.reports().contains(report@),
    {
        let mut i: usize = 0;
        while i < self.storage.len()
            invariant
                i <= self.storage@.len(),
                forall|j: int| 0 <= j < i ==> #[trigger] self.storage@[j]@ != report@,
            decreases self.storage.len() - i,
        {
            if same_report(&self.storage[i], report) {
                assert(self.reports()[i as int] == report@);
                return true;
            }
            i = i + 1;
        }
        assert forall|j: int| 0 <= j < self.reports().len() implies self.reports()[j] != report@ by {
            assert(self.reports()[j] == self.storage@[j]@);
        }
        false
    }

    /// The source line that `loc` points at, where it is known.
    fn get_line(&self, loc: Loc) -> (r: Option<String>)
        ensures
            opt_chars(r) == self.source_line(loc),
    {
        if loc.line == 0 || loc.idx.0 as usize >= self.sources.len() {
            return None;
        }
        match &self.sources[loc.idx.0 as usize] {
            Some(lines) => if (loc.line as usize) <= lines.len() {
                Some(lines[(loc.line - 1) as usize].clone())
            } else {
                None
            },
            None => None,
        }
    }

    /// Whether one of the suppressions covers the report.
    fn is_suppressed(&self, report: &LogReport) -> (b: bool)
        ensures
            b == self.suppressed(report@),
    {
        let mut lines: Vec<Option<String>> = Vec::new();
        let mut k: usize = 0;
        while k < report.pointers.len()
            invariant
                k <= report.pointers@.len(),
                lines@.len() == k,
                forall|j: int| 0 <= j < k ==> #[trigger] opt_chars(lines@[j]) == self.source_line(report.pointers@[j].loc),
            decreases report.pointers.len() - k,
        {
            lines.push(self.get_line(report.pointers[k].loc));
            k = k + 1;
        }
        proof {
            assert forall|j: int| 0 <= j < k implies #[trigger] lines_view(lines@)[j] == self.pointer_lines(report@)[j] by {
                assert(report@.pointers[j] == report.pointers@[j]@);
            }
            assert(lines_view(lines@) =~= self.pointer_lines(report@));
        }
        should_suppress(&self.suppressions, self, report, &lines)
    }

    /// Keep the report if the filter lets it through, no suppression covers it and it is not
    /// stored yet.
    fn push_report(&mut self, report: LogReport)
        ensures
            final(self).same_config(old(self)),
            final(self).reports() == (if old(self).accepts(report@) && !old(self).reports().contains(report@) {
                old(self).reports().push(report@)
            } else {
                old(self).reports()
            }),
    {
        if !self.filter.should_print_report(&report, &self.paths) || self.is_suppressed(&report) || self.contains_report(&report) {
            return;
        }
        let ghost r = report@;
        self.storage.push(report);
        assert(self.reports() =~= old(self).reports().push(r));
    }

    /// The stored reports, leaving the storage empty, in the order they were logged.
    pub fn drain_reports(&mut self) -> (v: Vec<LogReport>)
        ensures
            final(self).same_config(old(self)),
            final(self).reports() == Seq::<ReportView>::empty(),
            v@.map_values(|r: LogReport| r@) == old(self).reports(),
    {
        let mut v = Vec::new();
        std::mem::swap(&mut v, &mut self.storage);
        assert(self.reports() =~= Seq::<ReportView>::empty());
        v
    }
}

/// Logging `a` and then `b` is logging `a + b`.
pub proof fn lemma_log_all_concat(e: &Errors, s: Seq<ReportView>, a: Seq<ReportView>, b: Seq<ReportView>)
    ensures
        e.log_all(s, a + b) == e.log_all(e.log_all(s, a), b),
    decreases b.len(),
{
    if b.len() == 0 {
        assert(a + b =~= a);
    } else {
        assert((a + b).drop_last() =~= a + b.drop_last());
        assert((a + b).last() == b.last());
        lemma_log_all_concat(e, s, a, b.drop_last());
    }
}

/// Logging depends only on the configuration.
pub proof fn lemma_log_all_config(e1: &Errors, e2: &Errors, s: Seq<ReportView>, rs: Seq<ReportView>)
    requires
        e1.same_config(e2),
    ensures
        e1.log_all(s, rs) == e2.log_all(s, rs),
    decreases rs.len(),
{
    if rs.len() > 0 {
        lemma_log_all_config(e1, e2, s, rs.drop_last());
        let x = e1.expanded(rs.last());
        assert(pointer_paths(e1, x) =~= pointer_paths(e2, x));
        assert(e1.pointer_lines(x) =~= e2.pointer_lines(x));
    }
}

/// Logging nothing changes nothing.
pub proof fn lemma_logged_nothing(e: &Errors)
    ensures
        e.logged(e, Seq::<ReportView>::empty()),
{
}

/// Logging `a` and then `b` is logging `a + b`.
pub proof fn lemma_logged_trans(e1: &Errors, e2: &Errors, e3: &Errors, a: Seq<ReportView>, b: Seq<ReportView>)
    requires
        e2.logged(e1, a),
        e3.logged(e2, b),
    ensures
        e3.logged(e1, a + b),
{
    lemma_log_all_config(e2, e1, e2.reports(), b);
    lemma_log_all_concat(e1, e1.reports(), a, b);
}

/// Logging the same report twice stores what logging it once stores: duplicates are kept once.
pub proof fn law_log_twice_is_once(e: &Errors, stored: Seq<ReportView>, r: ReportView)
    ensures
        e.log_all(stored, seq![r, r]) == e.log_all(stored, seq![r]),
{
    assert(seq![r, r].drop_last() =~= seq![r]);
    assert(seq![r].drop_last() =~= Seq::<ReportView>::empty());
    assert(e.log_all(stored, Seq::empty()) == stored);
    assert(seq![r].last() == r);
    assert(seq![r, r].last() == r);
    let once = e.log_all(stored, seq![r]);
    assert(once == e.log_step(stored, r));
    let x = e.expanded(r);
    if e.accepts(x) && !stored.contains(x) {
        assert(once == stored.push(x));
        assert(once[once.len() - 1] == x);
        assert(once.contains(x));
    }
}

/// Logging never drops a report that is already stored, nor changes the order of those stored.
pub proof fn law_log_keeps_stored(e: &Errors, stored: Seq<ReportView>, rs: Seq<ReportView>)
    ensures
        e.log_all(stored, rs).len() >= stored.len(),
        e.log_all(stored, rs).subrange(0, stored.len() as int) == stored,
    decreases rs.len(),
{
    if rs.len() > 0 {
        law_log_keeps_stored(e, stored, rs.drop_last());
        let before = e.log_all(stored, rs.drop_last());
        assert(before.push(e.expanded(rs.last())).subrange(0, stored.len() as int) =~= before.subrange(0, stored.len() as int));
    } else {
        assert(stored.subrange(0, stored.len() as int) =~= stored);
    }
}

/// A report about the configuration passes any filter: it is stored unless it is stored
/// already or a suppression covers it.
pub proof fn law_config_reports_kept(e: &Errors, stored: Seq<ReportView>, r: ReportView)
    requires
        r.key == ErrorKey::Config,
        !stored.contains(e.expanded(r)),
        !e.suppressed(e.expanded(r)),
    ensures
        e.log_all(stored, seq![r]) == stored.push(e.expanded(r)),
{
    assert(seq![r].drop_last() =~= Seq::<ReportView>::empty());
    assert(e.log_all(stored, Seq::empty()) == stored);
    assert(seq![r].last() == r);
    assert(e.expanded(r).key == ErrorKey::Config);
    assert(e.accepts(e.expanded(r)));
}

/// Every stored report passes the filter, and none is stored twice.
pub proof fn law_log_stores_accepted_once(e: &Errors, stored: Seq<ReportView>, rs: Seq<ReportView>)
    requires
        forall|i: int| 0 <= i < stored.len() ==> e.accepts(#[trigger] stored[i]),
        forall|i: int, j: int| 0 <= i < j < stored.len() ==> stored[i] != stored[j],
    ensures
        forall|i: int| 0 <= i < e.log_all(stored, rs).len() ==> e.accepts(#[trigger] e.log_all(stored, rs)[i]),
        forall|i: int, j: int|
            0 <= i < j < e.log_all(stored, rs).len() ==> e.log_all(stored, rs)[i] != e.log_all(stored, rs)[j],
    decreases rs.len(),
{
    if rs.len() > 0 {
        law_log_stores_accepted_once(e, stored, rs.drop_last());
        let before = e.log_all(stored, rs.drop_last());
        let x = e.expanded(rs.last());
        if e.accepts(x) && !before.contains(x) {
            let after = before.push(x);
            assert forall|i: int, j: int| 0 <= i < j < after.len() implies after[i] != after[j] by {
                if j == after.len() - 1 {
                    if after[i] == after[j] {
                        assert(before[i] == x);
                        assert(before.contains(x));
                    }
                } else {
                    assert(after[i] == before[i]);
                    assert(after[j] == before[j]);
                }
            }
            assert forall|i: int| 0 <= i < after.len() implies e.accepts(#[trigger] after[i]) by {
                if i < before.len() {
                    assert(after[i] == before[i]);
                }
            }
        }
    }
}

/// Append to `vec` the pointers that follow `loc` along its macro links, at most `fuel` of them.
fn push_link_chain(map: &MacroMap, vec: &mut Vec<PointedMessage>, loc: Loc, fuel: usize)
    ensures
        final(vec)@.map_values(|p: PointedMessage| p@) == old(vec)@.map_values(
            |p: PointedMessage| p@,
        ) + link_chain(map.entries(), loc, fuel as nat),
    decreases fuel,
{
    if fuel == 0 {
        assert(vec@.map_values(|p: PointedMessage| p@) =~= old(vec)@.map_values(|p: PointedMessage| p@) + link_chain(map.entries(), loc, fuel as nat));
        return;
    }
    match loc.link_idx {
        Some(i) => {
            match map.get_loc(MacroMapIndex(i)) {
                Some(l) => {
                    let ghost before = vec@.map_values(|p: PointedMessage| p@);
                    let msg = String::from_str("from here");
                    proof {
                        reveal_strlit("from here");
                    }
                    vec.push(PointedMessage { loc: l, length: 0, msg: Some(msg) });
                    assert(vec@.map_values(|p: PointedMessage| p@) =~= before.push(
                        PointerView { loc: l, length: 0, msg: Some("from here"@) },
                    ));
                    push_link_chain(map, vec, l, fuel - 1);
                    assert(seq![PointerView { loc: l, length: 0, msg: Some("from here"@) }] + link_chain(map.entries(), l, (fuel - 1) as nat) =~= link_chain(map.entries(), loc, fuel as nat));
                    assert(vec@.map_values(|p: PointedMessage| p@) =~= old(vec)@.map_values(|p: PointedMessage| p@) + link_chain(map.entries(), loc, fuel as nat));
                },
                None => {
                    assert(vec@.map_values(|p: PointedMessage| p@) =~= old(vec)@.map_values(|p: PointedMessage| p@) + link_chain(map.entries(), loc, fuel as nat));
                },
            }
        },
        None => {
            assert(vec@.map_values(|p: PointedMessage| p@) =~= old(vec)@.map_values(|p: PointedMessage| p@) + link_chain(map.entries(), loc, fuel as nat));
        },
    }
}

/// Store the reports in order, as [`log`] stores each.
pub fn log_reports(reports: &Vec<LogReport>, errors: &mut Errors)
    ensures
        final(errors).logged(old(errors), reports@.map_values(|r: LogReport| r@)),
{
    let ghost e0 = *errors;
    proof {
        lemma_logged_nothing(errors);
        assert(reports@.take(0).map_values(|r: LogReport| r@) =~= Seq::<ReportView>::empty());
    }
    let mut i: usize = 0;
    while i < reports.len()
        invariant
            i <= reports@.len(),
            errors.logged(&e0, reports@.take(i as int).map_values(|r: LogReport| r@)),
        decreases reports.len() - i,
    {
        let ghost before = *errors;
        let r = reports[i].copy();
        log(r, errors);
        proof {
            lemma_logged_trans(&e0, &before, errors, reports@.take(i as int).map_values(|r: LogReport| r@), seq![r@]);
            assert(reports@.take(i + 1).map_values(|r: LogReport| r@) =~= reports@.take(i as int).map_values(
                |r: LogReport| r@,
            ) + seq![r@]);
        }
        i = i + 1;
    }
    proof {
        assert(reports@.take(reports@.len() as int) =~= reports@);
    }
}

/// Store an error report, after following its locations back through the macro invocations
/// they came from. It is kept if the filter lets it through and it is not stored yet.
pub fn log(report: LogReport, errors: &mut Errors)
    ensures
        final(errors).logged(old(errors), seq![report@]),
        old(errors).suppressed(old(errors).expanded(report@)) ==> final(errors).reports() == old(errors).reports(),
{
    let LogReport { severity, confidence, key, msg, info, pointers } = report;
    let ghost ps = pointers@.map_values(|p: PointedMessage| p@);
    let ghost map = errors.macro_map.entries();
    let fuel = errors.macro_map.len();
    let mut vec: Vec<PointedMessage> = Vec::new();
    let mut i: usize = 0;
    let mut pointers = pointers;
    assert(ps.take(0) =~= Seq::<PointerView>::empty());
    while i < pointers.len()
        invariant
            i <= pointers@.len(),
            ps == pointers@.map_values(|p: PointedMessage| p@),
            map == errors.macro_map.entries(),
            fuel == map.len(),
            vec@.map_values(|p: PointedMessage| p@) == expand_pointers(map, ps.take(i as int)),
        decreases pointers.len() - i,
    {
        let p = pointers[i].copy();
        let loc = p.loc;
        let ghost before = vec@.map_values(|p: PointedMessage| p@);
        vec.push(p);
        assert(vec@.map_values(|p: PointedMessage| p@) =~= before.push(ps[i as int]));
        push_link_chain(&errors.macro_map, &mut vec, loc, fuel);
        assert(ps.take(i + 1).drop_last() =~= ps.take(i as int));
        assert(before.push(ps[i as int]) =~= before + seq![ps[i as int]]);
        i = i + 1;
    }
    assert(ps.take(pointers@.len() as int) =~= ps);
    let expanded = LogReport { severity, confidence, key, msg, info, pointers: vec };
    assert(expanded@ == old(errors).expanded(report@));
    errors.push_report(expanded);
    assert(seq![report@].drop_last() =~= Seq::<ReportView>::empty());
    assert(old(errors).log_all(old(errors).reports(), Seq::<ReportView>::empty()) == old(errors).reports());
    assert(old(errors).log_all(old(errors).reports(), seq![report@]) == old(errors).log_step(old(errors).reports(), report@));
}

/// Record a secondary mod to be loaded before the one being validated.
/// `label` is what it should be called in the error reports.
pub fn add_loaded_mod_root(errors: &mut Errors, label: String)
    ensures
        final(errors).loaded_mods_labels@ == old(errors).loaded_mods_labels@.push(label),
        final(errors).loaded_dlcs_labels == old(errors).loaded_dlcs_labels,
        final(errors).reports() == old(errors).reports(),
        final(errors).filter == old(errors).filter,
        final(errors).paths == old(errors).paths,
        final(errors).macro_map == old(errors).macro_map,
{
    errors.loaded_mods_labels.push(label);
}

/// Record a DLC directory from the vanilla installation.
/// `label` is what it should be called in the error reports.
pub fn add_loaded_dlc_root(errors: &mut Errors, label: String)
    ensures
        final(errors).loaded_dlcs_labels@ == old(errors).loaded_dlcs_labels@.push(label),
        final(errors).loaded_mods_labels == old(errors).loaded_mods_labels,
        final(errors).reports() == old(errors).reports(),
        final(errors).filter == old(errors).filter,
        final(errors).paths == old(errors).paths,
        final(errors).macro_map == old(errors).macro_map,
{
    errors.loaded_dlcs_labels.push(label);
}

/// Tests whether a report about `eloc` under `key` might be logged. If false, it will certainly
/// not be.
pub fn will_maybe_log<E: ErrorLoc>(errors: &Errors, eloc: E, key: ErrorKey) -> (b: bool)
    ensures
        b == errors.filter.spec_should_maybe_print(key, eloc.error_loc()),
{
    let loc = eloc.into_loc();
    errors.filter.should_maybe_print(key, loc)
}

/// Configure the reporter to show errors that are in the base game code.
pub fn set_show_vanilla(errors: &mut Errors, v: bool)
    ensures
        final(errors).filter.show_vanilla == v,
        final(errors).filter.show_loaded_mods == old(errors).filter.show_loaded_mods,
        final(errors).filter.predicate == old(errors).filter.predicate,
        final(errors).reports() == old(errors).reports(),
        final(errors).paths == old(errors).paths,
        final(errors).macro_map == old(errors).macro_map,
{
    errors.filter.show_vanilla = v;
}

/// Configure the reporter to show errors that are in extra loaded mods.
pub fn set_show_loaded_mods(errors: &mut Errors, v: bool)
    ensures
        final(errors).filter.show_loaded_mods == v,
        final(errors).filter.show_vanilla == old(errors).filter.show_vanilla,
        final(errors).filter.predicate == old(errors).filter.predicate,
        final(errors).reports() == old(errors).reports(),
        final(errors).paths == old(errors).paths,
        final(errors).macro_map == old(errors).macro_map,
{
    errors.filter.show_loaded_mods = v;
}

} // verus!
