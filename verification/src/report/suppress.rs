//! Suppressions: reports from an earlier run that the user does not want to see again, read
//! back from that run's output.
use vstd::prelude::*;

use crate::parse::suppress::{parse_suppressions, spec_parse_suppressions};
use crate::report::error_key::ErrorKey;
use crate::report::errors::Errors;
use crate::report::report_struct::{LogReport, PointerView, ReportView};
use crate::text::str_eq;

verus! {

/// Where a suppressed report pointed: the file, and the source line and pointer message if the
/// output showed them.
#[derive(Debug)]
pub struct SuppressionLocation {
    pub path: String,
    pub line: Option<String>,
    pub tag: Option<String>,
}

/// A suppressed report: its key, its message and where it pointed.
#[derive(Debug)]
pub struct SuppressionReport {
    pub key: ErrorKey,
    pub message: String,
    pub locations: Vec<SuppressionLocation>,
}

/// The content of a [`SuppressionLocation`].
pub struct LocationView {
    pub path: Seq<char>,
    pub line: Option<Seq<char>>,
    pub tag: Option<Seq<char>>,
}

/// The content of a [`SuppressionReport`].
pub struct SuppressedView {
    pub key: ErrorKey,
    pub message: Seq<char>,
    pub locations: Seq<LocationView>,
}

/// The content of an optional string.
pub open spec fn opt_chars(o: Option<String>) -> Option<Seq<char>> {
    match o {
        Some(s) => Some(s@),
        None => None,
    }
}

impl View for SuppressionLocation {
    type V = LocationView;

    open spec fn view(&self) -> LocationView {
        LocationView { path: self.path@, line: opt_chars(self.line), tag: opt_chars(self.tag) }
    }
}

impl View for SuppressionReport {
    type V = SuppressedView;

    open spec fn view(&self) -> SuppressedView {
        SuppressedView {
            key: self.key,
            message: self.message@,
            locations: self.locations@.map_values(|l: SuppressionLocation| l@),
        }
    }
}

/// Whether suppressed location `l` matches pointer `p` of a report, whose file is `path` (if
/// its path is known) and whose source line is `line`: same file, same pointer message, same
/// source line.
pub open spec fn location_matches(l: LocationView, path: Option<Seq<char>>, p: PointerView, line: Option<Seq<char>>) -> bool {
    path == Some(l.path) && l.tag == p.msg && l.line == line
}

/// Whether the suppression `s` covers the report `r`, whose pointers are into the files
/// `paths` and point at the source lines `lines`: same key and message, as many locations as
/// pointers, and a location that matches its pointer.
pub open spec fn suppression_covers(
    s: SuppressedView,
    r: ReportView,
    paths: Seq<Option<Seq<char>>>,
    lines: Seq<Option<Seq<char>>>,
) -> bool {
    &&& s.key == r.key
    &&& s.message == r.msg
    &&& s.locations.len() == r.pointers.len()
    &&& exists|k: int|
        0 <= k < s.locations.len() && #[trigger] location_matches(s.locations[k], paths[k], r.pointers[k], lines[k])
}

/// The contents of optional source lines.
pub open spec fn lines_view(v: Seq<Option<String>>) -> Seq<Option<Seq<char>>> {
    v.map_values(|o: Option<String>| opt_chars(o))
}

/// The path of the file of each pointer of the report, where the path table has it.
pub open spec fn pointer_paths(e: &Errors, r: ReportView) -> Seq<Option<Seq<char>>> {
    Seq::new(
        r.pointers.len(),
        |k: int|
            if (r.pointers[k].loc.idx.0 as int) < e.paths.entries().len() {
                Some(e.paths.entries()[r.pointers[k].loc.idx.0 as int].0)
            } else {
                None
            },
    )
}

fn opt_str_eq(a: &Option<String>, b: &Option<String>) -> (r: bool)
    ensures
        r == (opt_chars(*a) == opt_chars(*b)),
{
    match (a, b) {
        (Some(x), Some(y)) => str_eq(x.as_str(), y.as_str()),
        (None, None) => true,
        _ => false,
    }
}

/// Whether one of the suppressions covers the report, given the source line at each of its
/// pointers where it could be read.
pub fn should_suppress(
    suppressions: &Vec<SuppressionReport>,
    errors: &Errors,
    report: &LogReport,
    lines: &Vec<Option<String>>,
) -> (b: bool)
    requires
        lines@.len() == report.pointers@.len(),
    ensures
        b == exists|i: int|
            0 <= i < suppressions@.len() && #[trigger] suppression_covers(
                suppressions@[i]@,
                report@,
                pointer_paths(errors, report@),
                lines_view(lines@),
            ),
{
    let ghost paths = pointer_paths(errors, report@);
    let ghost lv = lines_view(lines@);
    let mut i: usize = 0;
    while i < suppressions.len()
        invariant
            i <= suppressions@.len(),
            paths == pointer_paths(errors, report@),
            lv == lines_view(lines@),
            lines@.len() == report.pointers@.len(),
            forall|j: int| 0 <= j < i ==> !#[trigger] suppression_covers(suppressions@[j]@, report@, paths, lv),
        decreases suppressions.len() - i,
    {
        let s = &suppressions[i];
        if s.key == report.key && str_eq(s.message.as_str(), report.msg.as_str()) && s.locations.len()
            == report.pointers.len() {
            let mut k: usize = 0;
            while k < s.locations.len()
                invariant
                    k <= s.locations@.len() == report.pointers@.len() == lines@.len(),
                    i < suppressions@.len(),
                    suppressions@[i as int] == *s,
                    s.key == report.key,
                    s.message@ == report.msg@,
                    paths == pointer_paths(errors, report@),
                    lv == lines_view(lines@),
                    forall|j: int|
                        0 <= j < k ==> !#[trigger] location_matches(s@.locations[j], paths[j], report@.pointers[j], lv[j]),
                decreases s.locations.len() - k,
            {
                let l = &s.locations[k];
                let p = &report.pointers[k];
                let known = (p.loc.idx.0 as usize) < errors.paths.len();
                let m = known && str_eq(l.path.as_str(), errors.paths.lookup_path(p.loc.idx).as_str())
                    && opt_str_eq(&l.tag, &p.msg) && opt_str_eq(&l.line, &lines[k]);
                proof {
                    assert(s@.locations[k as int] == l@);
                    assert(report@.pointers[k as int] == p@);
                    assert(lv[k as int] == opt_chars(lines@[k as int]));
                    assert(m == location_matches(s@.locations[k as int], paths[k as int], report@.pointers[k as int], lv[k as int]));
                }
                if m {
                    proof {
                        let sv = suppressions@[i as int]@;
                        assert(sv.locations.len() == report@.pointers.len());
                        assert(location_matches(sv.locations[k as int], paths[k as int], report@.pointers[k as int], lv[k as int]));
                        assert(suppression_covers(sv, report@, paths, lv));
                    }
                    return true;
                }
                k = k + 1;
            }
            proof {
                assert(!suppression_covers(suppressions@[i as int]@, report@, paths, lv));
            }
        }
        i = i + 1;
    }
    false
}

/// Take the suppressions from `input`, the text output of an earlier run. Returns whether the
/// text could be read; if not, the suppressions stay as they were. Nothing else changes.
pub fn suppress_from_text(errors: &mut Errors, input: &str) -> (ok: bool)
    ensures
        ok == spec_parse_suppressions(input@) is Some,
        ok ==> Some(final(errors).suppressions@.map_values(|x: SuppressionReport| x@)) == spec_parse_suppressions(input@),
        !ok ==> final(errors).suppressions == old(errors).suppressions,
        final(errors).reports() == old(errors).reports(),
        final(errors).paths == old(errors).paths,
        final(errors).filter == old(errors).filter,
        final(errors).macro_map == old(errors).macro_map,
        final(errors).sources == old(errors).sources,
        final(errors).loaded_mods_labels == old(errors).loaded_mods_labels,
        final(errors).loaded_dlcs_labels == old(errors).loaded_dlcs_labels,
{
    match parse_suppressions(input) {
        Some(v) => {
            errors.suppressions = v;
            true
        },
        None => false,
    }
}

} // verus!
