//! The provinces of the map: `map_data/definition.csv`, `map_data/adjacencies.csv`, and the
//! colors of `map_data/provinces.png`.
use std::collections::{HashMap, HashSet};
use vstd::prelude::*;

use crate::number::{parse_int, spec_parse_int};
use crate::parse::csv::{csv_rows, lemma_next_row_advances, next_row, parse_csv, row_view, tokens_view};
use crate::report::builder::{err, simple_report, warn};
use crate::report::error_key::ErrorKey;
use crate::report::errors::{lemma_logged_nothing, lemma_logged_trans, Errors};
use crate::report::report_struct::{Confidence, ReportView, Severity};
use crate::text::{concat_str, nat_decimal, str_eq, usize_to_string};
use crate::token::{Loc, Token};

verus! {

/// The number of a province.
pub type ProvId = u32;

/// The text and location of a field of a `.csv` row.
pub type FieldView = (Seq<char>, Loc);

/// A point on the map.
#[derive(Clone, Copy, Debug, PartialEq, Eq, Structural)]
pub struct Coords {
    pub x: i32,
    pub y: i32,
}

impl Default for Coords {
    fn default() -> (c: Coords)
        ensures
            c == (Coords { x: 0, y: 0 }),
    {
        Coords { x: 0, y: 0 }
    }
}

/// A connection between provinces that is not a shared border, from `adjacencies.csv`.
#[derive(Debug)]
pub struct Adjacency {
    /// The start of the line it was read from.
    pub line: Loc,
    pub from: ProvId,
    pub to: ProvId,
    /// `sea` or `river_large`.
    pub kind: Token,
    pub through: ProvId,
    pub start: Coords,
    pub stop: Coords,
    pub comment: Token,
}

/// The content of an [`Adjacency`].
pub struct AdjacencyView {
    pub line: Loc,
    pub from: ProvId,
    pub to: ProvId,
    pub kind: FieldView,
    pub through: ProvId,
    pub start: Coords,
    pub stop: Coords,
    pub comment: FieldView,
}

impl View for Adjacency {
    type V = AdjacencyView;

    open spec fn view(&self) -> AdjacencyView {
        AdjacencyView {
            line: self.line,
            from: self.from,
            to: self.to,
            kind: (self.kind@, self.kind.loc),
            through: self.through,
            start: self.start,
            stop: self.stop,
            comment: (self.comment@, self.comment.loc),
        }
    }
}

/// The report about a field of a `.csv` row that could not be read.
pub open spec fn csv_report(f: FieldView, msg: Seq<char>) -> ReportView {
    simple_report(ErrorKey::ParseError, Severity::Error, Confidence::Reasonable, msg, None, f.1)
}

/// The reports about `f` if it does not hold an integer of the type whose values are `lo..=hi`.
pub open spec fn int_reports(f: FieldView, lo: int, hi: int, msg: Seq<char>) -> Seq<ReportView> {
    if spec_parse_int(f.0, lo, hi) is Some {
        Seq::empty()
    } else {
        seq![csv_report(f, msg)]
    }
}

/// The field read as a province id.
pub open spec fn field_id(f: FieldView) -> Option<int> {
    spec_parse_int(f.0, 0, u32::MAX as int)
}

/// The field read as a map coordinate.
pub open spec fn field_coord(f: FieldView) -> Option<int> {
    spec_parse_int(f.0, i32::MIN as int, i32::MAX as int)
}

/// The field read as a color component.
pub open spec fn field_byte(f: FieldView) -> Option<int> {
    spec_parse_int(f.0, 0, 255)
}

pub open spec fn id_reports(f: FieldView) -> Seq<ReportView> {
    int_reports(f, 0, u32::MAX as int, "expected province id"@)
}

pub open spec fn x_reports(f: FieldView) -> Seq<ReportView> {
    int_reports(f, i32::MIN as int, i32::MAX as int, "expected x coordinate"@)
}

pub open spec fn y_reports(f: FieldView) -> Seq<ReportView> {
    int_reports(f, i32::MIN as int, i32::MAX as int, "expected y coordinate"@)
}

/// The reports about an `adjacencies.csv` row. Every field that should hold a number and does
/// not is reported, in the order of the fields.
pub open spec fn adjacency_reports(row: Seq<FieldView>) -> Seq<ReportView> {
    if row.len() != 9 {
        seq![csv_report(row[0], "wrong number of fields for this line, expected 9"@)]
    } else {
        id_reports(row[0]) + id_reports(row[1]) + id_reports(row[3]) + x_reports(row[4]) + y_reports(
            row[5],
        ) + x_reports(row[6]) + y_reports(row[7])
    }
}

/// The adjacency an `adjacencies.csv` row describes: nine fields, `from;to;type;through;`
/// `start_x;start_y;stop_x;stop_y;comment`, with numbers where numbers belong.
pub open spec fn spec_adjacency(row: Seq<FieldView>) -> Option<AdjacencyView> {
    if row.len() == 9 && field_id(row[0]) is Some && field_id(row[1]) is Some && field_id(row[3]) is Some
        && field_coord(row[4]) is Some && field_coord(row[5]) is Some && field_coord(row[6]) is Some
        && field_coord(row[7]) is Some {
        Some(
            AdjacencyView {
                line: row[0].1,
                from: field_id(row[0])->0 as u32,
                to: field_id(row[1])->0 as u32,
                kind: row[2],
                through: field_id(row[3])->0 as u32,
                start: Coords { x: field_coord(row[4])->0 as i32, y: field_coord(row[5])->0 as i32 },
                stop: Coords { x: field_coord(row[6])->0 as i32, y: field_coord(row[7])->0 as i32 },
                comment: row[8],
            },
        )
    } else {
        None
    }
}

/// Read the field as an integer of the type whose values are `lo..=hi`, and report if it is not.
fn verify_int(v: &Token, lo: i64, hi: i64, msg: &str, errors: &mut Errors) -> (r: Option<i64>)
    ensures
        match r {
            Some(n) => spec_parse_int(v@, lo as int, hi as int) == Some(n as int),
            None => spec_parse_int(v@, lo as int, hi as int) is None,
        },
        final(errors).logged(old(errors), int_reports((v@, v.loc), lo as int, hi as int, msg@)),
{
    let r = parse_int(&v.chars(), lo, hi);
    if r.is_none() {
        err(ErrorKey::ParseError).msg(msg).loc(v).push(errors);
    } else {
        proof {
            lemma_logged_nothing(errors);
        }
    }
    r
}

impl Adjacency {
    /// Read a row of `adjacencies.csv`, reporting what is wrong with it.
    pub fn parse(csv: &[Token], errors: &mut Errors) -> (r: Option<Adjacency>)
        requires
            csv@.len() > 0,
        ensures
            match r {
                Some(a) => spec_adjacency(tokens_view(csv@)) == Some(a@),
                None => spec_adjacency(tokens_view(csv@)) is None,
            },
            final(errors).logged(old(errors), adjacency_reports(tokens_view(csv@))),
    {
        let ghost row = tokens_view(csv@);
        let line = csv[0].loc;
        if csv.len() != 9 {
            err(ErrorKey::ParseError).msg("wrong number of fields for this line, expected 9").loc(&csv[0]).push(
                errors,
            );
            return None;
        }
        let ghost e0 = *errors;
        let from = verify_int(&csv[0], 0, 4294967295, "expected province id", errors);
        let ghost e1 = *errors;
        let to = verify_int(&csv[1], 0, 4294967295, "expected province id", errors);
        let ghost e2 = *errors;
        let through = verify_int(&csv[3], 0, 4294967295, "expected province id", errors);
        let ghost e3 = *errors;
        let start_x = verify_int(&csv[4], -2147483648, 2147483647, "expected x coordinate", errors);
        let ghost e4 = *errors;
        let start_y = verify_int(&csv[5], -2147483648, 2147483647, "expected y coordinate", errors);
        let ghost e5 = *errors;
        let stop_x = verify_int(&csv[6], -2147483648, 2147483647, "expected x coordinate", errors);
        let ghost e6 = *errors;
        let stop_y = verify_int(&csv[7], -2147483648, 2147483647, "expected y coordinate", errors);
        proof {
            assert(row[0] == (csv@[0]@, csv@[0].loc));
            assert(row[1] == (csv@[1]@, csv@[1].loc));
            assert(row[3] == (csv@[3]@, csv@[3].loc));
            assert(row[4] == (csv@[4]@, csv@[4].loc));
            assert(row[5] == (csv@[5]@, csv@[5].loc));
            assert(row[6] == (csv@[6]@, csv@[6].loc));
            assert(row[7] == (csv@[7]@, csv@[7].loc));
            assert(row[2] == (csv@[2]@, csv@[2].loc));
            assert(row[8] == (csv@[8]@, csv@[8].loc));
            lemma_logged_trans(&e0, &e1, &e2, id_reports(row[0]), id_reports(row[1]));
            lemma_logged_trans(&e0, &e2, &e3, id_reports(row[0]) + id_reports(row[1]), id_reports(row[3]));
            lemma_logged_trans(
                &e0,
                &e3,
                &e4,
                id_reports(row[0]) + id_reports(row[1]) + id_reports(row[3]),
                x_reports(row[4]),
            );
            lemma_logged_trans(
                &e0,
                &e4,
                &e5,
                id_reports(row[0]) + id_reports(row[1]) + id_reports(row[3]) + x_reports(row[4]),
                y_reports(row[5]),
            );
            lemma_logged_trans(
                &e0,
                &e5,
                &e6,
                id_reports(row[0]) + id_reports(row[1]) + id_reports(row[3]) + x_reports(row[4])
                    + y_reports(row[5]),
                x_reports(row[6]),
            );
            lemma_logged_trans(
                &e0,
                &e6,
                errors,
                id_reports(row[0]) + id_reports(row[1]) + id_reports(row[3]) + x_reports(row[4])
                    + y_reports(row[5]) + x_reports(row[6]),
                y_reports(row[7]),
            );
        }
        match (from, to, through, start_x, start_y, stop_x, stop_y) {
            (Some(from), Some(to), Some(through), Some(start_x), Some(start_y), Some(stop_x), Some(stop_y)) => {
                Some(
                    Adjacency {
                        line,
                        from: from as u32,
                        to: to as u32,
                        kind: csv[2].clone(),
                        through: through as u32,
                        start: Coords { x: start_x as i32, y: start_y as i32 },
                        stop: Coords { x: stop_x as i32, y: stop_y as i32 },
                        comment: csv[8].clone(),
                    },
                )
            },
            _ => None,
        }
    }
}

/// A province as a row of `definition.csv` defines it.
#[derive(Debug)]
pub struct Province {
    pub id: ProvId,
    /// Whether the row names the province: rows with an empty name are placeholders.
    pub valid: bool,
    /// Its color in `provinces.png`, as red, green and blue.
    pub color: (u8, u8, u8),
    pub comment: Token,
}

/// The content of a [`Province`].
pub struct ProvinceView {
    pub id: ProvId,
    pub valid: bool,
    pub color: (u8, u8, u8),
    pub comment: FieldView,
}

impl View for Province {
    type V = ProvinceView;

    open spec fn view(&self) -> ProvinceView {
        ProvinceView { id: self.id, valid: self.valid, color: self.color, comment: (self.comment@, self.comment.loc) }
    }
}

/// The report about a `definition.csv` row, if it cannot be read. Reading stops at the first
/// field that is wrong.
pub open spec fn province_reports(row: Seq<FieldView>) -> Seq<ReportView> {
    if row.len() < 5 {
        seq![csv_report(row[0], "too few fields for this line, expected 5"@)]
    } else if field_id(row[0]) is None {
        seq![csv_report(row[0], "expected province id"@)]
    } else if field_byte(row[1]) is None {
        seq![csv_report(row[1], "expected red value"@)]
    } else if field_byte(row[2]) is None {
        seq![csv_report(row[2], "expected green value"@)]
    } else if field_byte(row[3]) is None {
        seq![csv_report(row[3], "expected blue value"@)]
    } else {
        Seq::empty()
    }
}

/// The province a `definition.csv` row defines: `id;red;green;blue;name`, where further fields
/// are ignored.
pub open spec fn spec_province(row: Seq<FieldView>) -> Option<ProvinceView> {
    if row.len() >= 5 && field_id(row[0]) is Some && field_byte(row[1]) is Some && field_byte(row[2]) is Some
        && field_byte(row[3]) is Some {
        Some(
            ProvinceView {
                id: field_id(row[0])->0 as u32,
                valid: row[4].0.len() > 0,
                color: (field_byte(row[1])->0 as u8, field_byte(row[2])->0 as u8, field_byte(row[3])->0 as u8),
                comment: row[4],
            },
        )
    } else {
        None
    }
}

impl Province {
    /// Read a row of `definition.csv`, reporting the first thing wrong with it.
    pub fn parse(csv: &[Token], errors: &mut Errors) -> (r: Option<Province>)
        requires
            csv@.len() > 0,
        ensures
            match r {
                Some(p) => spec_province(tokens_view(csv@)) == Some(p@),
                None => spec_province(tokens_view(csv@)) is None,
            },
            final(errors).logged(old(errors), province_reports(tokens_view(csv@))),
    {
        let ghost row = tokens_view(csv@);
        let line = csv[0].loc;
        if csv.len() < 5 {
            err(ErrorKey::ParseError).msg("too few fields for this line, expected 5").loc(line).push(errors);
            return None;
        }
        proof {
            assert(row[0] == (csv@[0]@, csv@[0].loc));
            assert(row[1] == (csv@[1]@, csv@[1].loc));
            assert(row[2] == (csv@[2]@, csv@[2].loc));
            assert(row[3] == (csv@[3]@, csv@[3].loc));
            assert(row[4] == (csv@[4]@, csv@[4].loc));
        }
        let ghost e0 = *errors;
        let id = match verify_int(&csv[0], 0, 4294967295, "expected province id", errors) {
            Some(id) => id,
            None => return None,
        };
        let ghost e1 = *errors;
        let red = match verify_int(&csv[1], 0, 255, "expected red value", errors) {
            Some(c) => c,
            None => {
                proof {
                    lemma_logged_trans(&e0, &e1, errors, Seq::empty(), province_reports(row));
                    assert(Seq::<ReportView>::empty() + province_reports(row) =~= province_reports(row));
                }
                return None;
            },
        };
        proof {
            lemma_logged_trans(&e0, &e1, errors, Seq::empty(), Seq::empty());
            assert(Seq::<ReportView>::empty() + Seq::<ReportView>::empty() =~= Seq::<ReportView>::empty());
        }
        let ghost e2 = *errors;
        let green = match verify_int(&csv[2], 0, 255, "expected green value", errors) {
            Some(c) => c,
            None => {
                proof {
                    lemma_logged_trans(&e0, &e2, errors, Seq::empty(), province_reports(row));
                    assert(Seq::<ReportView>::empty() + province_reports(row) =~= province_reports(row));
                }
                return None;
            },
        };
        proof {
            lemma_logged_trans(&e0, &e2, errors, Seq::empty(), Seq::empty());
        }
        let ghost e3 = *errors;
        let blue = match verify_int(&csv[3], 0, 255, "expected blue value", errors) {
            Some(c) => c,
            None => {
                proof {
                    lemma_logged_trans(&e0, &e3, errors, Seq::empty(), province_reports(row));
                    assert(Seq::<ReportView>::empty() + province_reports(row) =~= province_reports(row));
                }
                return None;
            },
        };
        proof {
            lemma_logged_trans(&e0, &e3, errors, Seq::empty(), Seq::empty());
        }
        Some(
            Province {
                id: id as u32,
                valid: !csv[4].as_str().is_empty(),
                color: (red as u8, green as u8, blue as u8),
                comment: csv[4].clone(),
            },
        )
    }
}

/// The key under which a color is kept: its components packed into one number.
pub open spec fn color_key(c: (u8, u8, u8)) -> u32 {
    (c.0 as int * 65536 + c.1 as int * 256 + c.2 as int) as u32
}

/// Different colors have different keys: two colors of `provinces.png` or `definition.csv` are
/// taken as the same color only when their red, green and blue all agree.
pub proof fn law_color_key_injective(a: (u8, u8, u8), b: (u8, u8, u8))
    requires
        color_key(a) == color_key(b),
    ensures
        a == b,
{
    let ka = a.0 as int * 65536 + a.1 as int * 256 + a.2 as int;
    let kb = b.0 as int * 65536 + b.1 as int * 256 + b.2 as int;
    assert(0 <= ka < 0x1_0000_0000);
    assert(0 <= kb < 0x1_0000_0000);
    assert(ka == kb);
    assert(a.0 == b.0 && a.1 == b.1 && a.2 == b.2) by (nonlinear_arith)
        requires
            a.0 as int * 65536 + a.1 as int * 256 + a.2 as int == b.0 as int * 65536 + b.1 as int * 256 + b.2 as int,
            0 <= a.0 < 256,
            0 <= a.1 < 256,
            0 <= a.2 < 256,
            0 <= b.0 < 256,
            0 <= b.1 < 256,
            0 <= b.2 < 256,
    ;
}

fn color_key_exec(c: (u8, u8, u8)) -> (k: u32)
    ensures
        k == color_key(c),
{
    (c.0 as u32) * 65536 + (c.1 as u32) * 256 + (c.2 as u32)
}

/// Whether every row has a first field.
pub open spec fn rows_nonempty(rows: Seq<Seq<FieldView>>) -> bool {
    forall|k: int| 0 <= k < rows.len() ==> #[trigger] rows[k].len() > 0
}

/// The report about a map file that could not be read.
pub open spec fn read_report(loc: Loc, msg: Seq<char>) -> ReportView {
    simple_report(ErrorKey::ReadError, Severity::Error, Confidence::Reasonable, msg, None, loc)
}

/// The report about a province id that `definition.csv` defines twice.
pub open spec fn duplicate_report(comment: FieldView) -> ReportView {
    simple_report(
        ErrorKey::Duplicate,
        Severity::Error,
        Confidence::Reasonable,
        "duplicate entry for this province id"@,
        None,
        comment.1,
    )
}

/// The provinces after one row of `definition.csv`, and what it reports. A later definition of
/// an id replaces the earlier one.
pub open spec fn definition_step(m: Map<ProvId, ProvinceView>, row: Seq<FieldView>) -> (
    Map<ProvId, ProvinceView>,
    Seq<ReportView>,
) {
    match spec_province(row) {
        None => (m, province_reports(row)),
        Some(p) => (
            m.insert(p.id, p),
            province_reports(row) + if m.contains_key(p.id) {
                seq![duplicate_report(p.comment)]
            } else {
                Seq::empty()
            },
        ),
    }
}

/// The provinces after the rows of `definition.csv`, and what they report.
pub open spec fn definitions_after(m: Map<ProvId, ProvinceView>, rows: Seq<Seq<FieldView>>) -> (
    Map<ProvId, ProvinceView>,
    Seq<ReportView>,
)
    decreases rows.len(),
{
    if rows.len() == 0 {
        (m, Seq::empty())
    } else {
        let (m1, r1) = definitions_after(m, rows.drop_last());
        let (m2, r2) = definition_step(m1, rows.last());
        (m2, r1 + r2)
    }
}


/// The report about a row after the `-1;` line that ends `adjacencies.csv`.
pub open spec fn late_terminator_report(f: FieldView) -> ReportView {
    simple_report(
        ErrorKey::ParseError,
        Severity::Warning,
        Confidence::Reasonable,
        "the line with all `-1;` should be the last line in the file"@,
        None,
        f.1,
    )
}

/// The report about an `adjacencies.csv` at `loc` without the `-1;` line that ends it.
pub open spec fn missing_terminator_report(loc: Loc) -> ReportView {
    simple_report(
        ErrorKey::ParseError,
        Severity::Error,
        Confidence::Reasonable,
        "CK3 needs a line with all `-1;` at the end of this file"@,
        None,
        loc,
    )
}

/// Where reading the rows of `adjacencies.csv` has got to.
pub struct AdjacencyScan {
    /// The adjacencies read so far.
    pub adjacencies: Seq<AdjacencyView>,
    /// What was reported so far.
    pub reports: Seq<ReportView>,
    /// Whether the `-1;` line has been seen.
    pub seen_terminator: bool,
    /// Whether reading has stopped at a row after the `-1;` line.
    pub stopped: bool,
}

/// Reading `rows` of `adjacencies.csv`: each row up to the `-1;` line is an adjacency; the
/// first row after it is reported and ends the reading.
pub open spec fn adjacency_scan(rows: Seq<Seq<FieldView>>) -> AdjacencyScan
    decreases rows.len(),
{
    if rows.len() == 0 {
        AdjacencyScan { adjacencies: Seq::empty(), reports: Seq::empty(), seen_terminator: false, stopped: false }
    } else {
        let st = adjacency_scan(rows.drop_last());
        let row = rows.last();
        if st.stopped {
            st
        } else if row[0].0 == "-1"@ {
            AdjacencyScan { seen_terminator: true, ..st }
        } else if st.seen_terminator {
            AdjacencyScan { reports: st.reports.push(late_terminator_report(row[0])), stopped: true, ..st }
        } else {
            AdjacencyScan {
                adjacencies: match spec_adjacency(row) {
                    Some(a) => st.adjacencies.push(a),
                    None => st.adjacencies,
                },
                reports: st.reports + adjacency_reports(row),
                ..st
            }
        }
    }
}

/// Once reading has stopped, later rows change nothing.
proof fn lemma_scan_stopped(rows: Seq<Seq<FieldView>>, n: int)
    requires
        0 <= n <= rows.len(),
        adjacency_scan(rows.take(n)).stopped,
    ensures
        adjacency_scan(rows) == adjacency_scan(rows.take(n)),
    decreases rows.len(),
{
    if rows.len() == n {
        assert(rows.take(n) =~= rows);
    } else {
        assert(rows.drop_last().take(n) =~= rows.take(n));
        lemma_scan_stopped(rows.drop_last(), n);
    }
}

/// The reports of reading the rows of `adjacencies.csv` at `loc`, including the one about a
/// missing `-1;` line.
pub open spec fn adjacencies_reports(loc: Loc, rows: Seq<Seq<FieldView>>) -> Seq<ReportView> {
    let st = adjacency_scan(rows);
    if st.seen_terminator {
        st.reports
    } else {
        st.reports.push(missing_terminator_report(loc))
    }
}


/// The report about a province whose color is not in `provinces.png`.
pub open spec fn unknown_color_report(comment: FieldView) -> ReportView {
    simple_report(
        ErrorKey::Validation,
        Severity::Warning,
        Confidence::Reasonable,
        "color is not in the provinces.png"@,
        None,
        comment.1,
    )
}

/// The report about a province whose color province `id` already has.
pub open spec fn reused_color_report(comment: FieldView, id: u32) -> ReportView {
    simple_report(
        ErrorKey::Validation,
        Severity::Warning,
        Confidence::Reasonable,
        "color was already used for id "@ + nat_decimal(id as nat),
        None,
        comment.1,
    )
}

/// The report about the first id missing from `definition.csv`, at `loc`.
pub open spec fn missing_id_report(loc: Loc, id: u32) -> ReportView {
    simple_report(
        ErrorKey::Validation,
        Severity::Error,
        Confidence::Reasonable,
        "province ids must be sequential, but "@ + nat_decimal(id as nat) + " is missing"@,
        None,
        loc,
    )
}

/// The report about `n` colors of `provinces.png` that no province has.
pub open spec fn unassigned_colors_report(loc: Loc, n: nat) -> ReportView {
    simple_report(
        ErrorKey::Validation,
        Severity::Warning,
        Confidence::Reasonable,
        "provinces.png contains "@ + nat_decimal(n) + " colors with no provinces assigned"@,
        None,
        loc,
    )
}

/// Where checking the colors of the provinces has got to.
pub struct ColorCheck {
    /// The colors taken so far, by [`color_key`], and the id of the province that took each.
    pub seen: Map<u32, u32>,
    /// What was reported so far.
    pub reports: Seq<ReportView>,
    /// Whether checking stopped at a missing id.
    pub aborted: bool,
}

/// Checking the provinces with ids from 1 up to `n - 1`, in order, where `definition.csv` is at
/// `loc`: each named province should have a color of `provinces.png` that no earlier province
/// has, and the first missing id stops the check.
pub open spec fn color_check(p: ProvincesView, loc: Loc, n: int) -> ColorCheck
    decreases n,
{
    if n <= 1 {
        ColorCheck { seen: Map::empty(), reports: Seq::empty(), aborted: false }
    } else {
        let st = color_check(p, loc, n - 1);
        let i = (n - 1) as u32;
        if st.aborted {
            st
        } else if !p.provinces.contains_key(i) {
            ColorCheck { reports: st.reports.push(missing_id_report(loc, i)), aborted: true, ..st }
        } else {
            let prov = p.provinces[i];
            let k = color_key(prov.color);
            if !prov.valid {
                st
            } else if !p.colors.contains(k) {
                ColorCheck { reports: st.reports.push(unknown_color_report(prov.comment)), ..st }
            } else if st.seen.contains_key(k) {
                ColorCheck { reports: st.reports.push(reused_color_report(prov.comment, st.seen[k])), ..st }
            } else {
                ColorCheck { seen: st.seen.insert(k, i), ..st }
            }
        }
    }
}

/// Once the check has stopped, later ids change nothing.
proof fn lemma_color_check_aborted(p: ProvincesView, loc: Loc, m: int, n: int)
    requires
        m <= n,
        color_check(p, loc, m).aborted,
    ensures
        color_check(p, loc, n) == color_check(p, loc, m),
    decreases n - m,
{
    if m < n {
        lemma_color_check_aborted(p, loc, m, n - 1);
    }
}

/// What checking the provinces at the end reports: nothing without a `definition.csv`; else the
/// reports of [`color_check`] over the ids below the number of provinces, as a `u32`, and, if it
/// did not stop, how many colors of `provinces.png` no province took.
pub open spec fn finalize_reports(p: ProvincesView) -> Seq<ReportView> {
    match p.definition_csv {
        None => Seq::empty(),
        Some(loc) => {
            let st = color_check(p, loc, (p.provinces.len() as u32) as int);
            if !st.aborted && st.seen.len() < p.colors.len() {
                st.reports.push(unassigned_colors_report(loc, (p.colors.len() - st.seen.len()) as nat))
            } else {
                st.reports
            }
        },
    }
}

/// The files under `map_data` that [`Provinces`] reads.
#[derive(Clone, Copy, Debug, PartialEq, Eq, Structural)]
pub enum MapFile {
    /// `adjacencies.csv`
    Adjacencies,
    /// `definition.csv`
    Definition,
    /// `provinces.png`
    ProvincesImage,
}

/// Which map file a file is, from the number of components of its path under the game or mod
/// root and its name: only files directly in `map_data` count.
pub open spec fn spec_map_file(components: nat, filename: Seq<char>) -> Option<MapFile> {
    if components != 2 {
        None
    } else if filename == "adjacencies.csv"@ {
        Some(MapFile::Adjacencies)
    } else if filename == "definition.csv"@ {
        Some(MapFile::Definition)
    } else if filename == "provinces.png"@ {
        Some(MapFile::ProvincesImage)
    } else {
        None
    }
}

/// Which map file a file is, from the number of components of its path under the game or mod
/// root and its name.
pub fn map_file(components: usize, filename: &str) -> (r: Option<MapFile>)
    ensures
        r == spec_map_file(components as nat, filename@),
{
    if components != 2 {
        None
    } else if str_eq(filename, "adjacencies.csv") {
        Some(MapFile::Adjacencies)
    } else if str_eq(filename, "definition.csv") {
        Some(MapFile::Definition)
    } else if str_eq(filename, "provinces.png") {
        Some(MapFile::ProvincesImage)
    } else {
        None
    }
}

/// What decoding `provinces.png` gives: the pixels of an RGB image with 8 bits per channel, or
/// the name of the colour type it has instead, or why it could not be decoded.
pub uninterp spec fn png_rgb8_pixels(bytes: Seq<u8>) -> Result<Result<Seq<(u8, u8, u8)>, Seq<char>>, Seq<char>>;

/// The content of a decoded `provinces.png`.
pub open spec fn image_view(r: Result<Result<Vec<(u8, u8, u8)>, String>, String>) -> Result<
    Result<Seq<(u8, u8, u8)>, Seq<char>>,
    Seq<char>,
> {
    match r {
        Ok(Ok(px)) => Ok(Ok(px@)),
        Ok(Err(c)) => Ok(Err(c@)),
        Err(e) => Err(e@),
    }
}

/// `image::load_from_memory_with_format` with the PNG format, the format that `image::open`
/// takes for a file named `.png`.
///
/// The contract names the result: decoding depends on the bytes alone. An RGB image with 8 bits
/// per channel gives its pixels row by row; another colour type gives the `Debug` name of its
/// `image::ColorType`; an error gives the decoder's own words.
#[verifier::external_body]
fn decode_png_rgb8(bytes: &[u8]) -> (r: Result<Result<Vec<(u8, u8, u8)>, String>, String>)
    ensures
        image_view(r) == png_rgb8_pixels(bytes@),
{
    match image::load_from_memory_with_format(bytes, image::ImageFormat::Png) {
        Ok(image::DynamicImage::ImageRgb8(img)) => Ok(Ok(img.pixels().map(|p| (p[0], p[1], p[2])).collect())),
        Ok(img) => Ok(Err(format!("{:?}", img.color()))),
        Err(e) => Err(format!("{e:#}")),
    }
}

/// The keys of the colors of `px`.
pub open spec fn pixel_keys(px: Seq<(u8, u8, u8)>) -> Set<u32>
    decreases px.len(),
{
    if px.len() == 0 {
        Set::empty()
    } else {
        pixel_keys(px.drop_last()).insert(color_key(px.last()))
    }
}

/// The report about a `provinces.png` in another colour type than 8-bit RGB.
pub open spec fn image_format_report(loc: Loc, local: Seq<char>, color: Seq<char>) -> ReportView {
    simple_report(
        ErrorKey::ImageFormat,
        Severity::Error,
        Confidence::Reasonable,
        "`"@ + local + "` has wrong color format `"@ + color + "`, should be Rgb8"@,
        None,
        loc,
    )
}

/// The report about a `provinces.png` that could not be read or decoded.
pub open spec fn image_read_report(loc: Loc, local: Seq<char>, e: Seq<char>) -> ReportView {
    read_report(loc, "could not read `"@ + local + "`: "@ + e)
}

/// What taking in a decoded `provinces.png` reports.
pub open spec fn image_reports(
    loc: Loc,
    local: Seq<char>,
    d: Result<Result<Seq<(u8, u8, u8)>, Seq<char>>, Seq<char>>,
) -> Seq<ReportView> {
    match d {
        Ok(Ok(_)) => Seq::empty(),
        Ok(Err(c)) => seq![image_format_report(loc, local, c)],
        Err(e) => seq![image_read_report(loc, local, e)],
    }
}

/// The colors after taking in a decoded `provinces.png`.
pub open spec fn image_colors(colors: Set<u32>, d: Result<Result<Seq<(u8, u8, u8)>, Seq<char>>, Seq<char>>) -> Set<u32> {
    match d {
        Ok(Ok(px)) => colors.union(pixel_keys(px)),
        _ => colors,
    }
}

/// What is known of the provinces of the map.
#[derive(Debug)]
pub struct Provinces {
    /// The colors of `provinces.png`, by [`color_key`].
    colors: HashSet<u32>,
    /// The provinces of `definition.csv`, by id. The game wants the ids to run from 0 without
    /// gaps, but a map keeps going when they do not.
    provinces: HashMap<ProvId, Province>,
    /// Where `definition.csv` is, for reports about it as a whole.
    definition_csv: Option<Loc>,
    adjacencies: Vec<Adjacency>,
}

/// The content of [`Provinces`].
pub struct ProvincesView {
    pub colors: Set<u32>,
    pub provinces: Map<ProvId, ProvinceView>,
    pub definition_csv: Option<Loc>,
    pub adjacencies: Seq<AdjacencyView>,
}

impl View for Provinces {
    type V = ProvincesView;

    closed spec fn view(&self) -> ProvincesView {
        ProvincesView {
            colors: self.colors@,
            provinces: self.provinces@.map_values(|p: Province| p@),
            definition_csv: self.definition_csv,
            adjacencies: self.adjacencies@.map_values(|a: Adjacency| a@),
        }
    }
}

impl Default for Provinces {
    fn default() -> (p: Provinces)
        ensures
            p@ == (ProvincesView {
                colors: Set::empty(),
                provinces: Map::empty(),
                definition_csv: None,
                adjacencies: Seq::empty(),
            }),
    {
        let p = Provinces {
            colors: HashSet::new(),
            provinces: HashMap::new(),
            definition_csv: None,
            adjacencies: Vec::new(),
        };
        assert(p@.provinces =~= Map::empty());
        assert(p@.adjacencies =~= Seq::empty());
        p
    }
}

impl Provinces {
    /// The directory, under the game or mod root, that the map files are in.
    pub fn subpath() -> (s: &'static str)
        ensures
            s@ == "map_data"@,
    {
        "map_data"
    }

    /// Add a color of `provinces.png`.
    pub fn add_color(&mut self, red: u8, green: u8, blue: u8)
        ensures
            final(self)@ == (ProvincesView { colors: old(self)@.colors.insert(color_key((red, green, blue))), ..old(self)@ }),
    {
        broadcast use vstd::std_specs::hash::group_hash_axioms;
        let k = color_key_exec((red, green, blue));
        self.colors.insert(k);
    }

    /// Take in `provinces.png`, at `loc`, with path `local`, as decoded: the colors of its pixels
    /// if it is in 8-bit RGB, else a report on its colour type, or a report that it could not be
    /// read.
    pub fn handle_provinces_image(
        &mut self,
        loc: Loc,
        local: &str,
        decoded: Result<Result<Vec<(u8, u8, u8)>, String>, String>,
        errors: &mut Errors,
    )
        ensures
            final(self)@ == (ProvincesView { colors: image_colors(old(self)@.colors, image_view(decoded)), ..old(self)@ }),
            final(errors).logged(old(errors), image_reports(loc, local@, image_view(decoded))),
    {
        let ghost d = image_view(decoded);
        match decoded {
            Ok(Ok(px)) => {
                let mut i: usize = 0;
                proof {
                    assert(pixel_keys(px@.take(0)) == Set::<u32>::empty());
                    assert(old(self)@.colors.union(pixel_keys(px@.take(0))) =~= old(self)@.colors);
                }
                while i < px.len()
                    invariant
                        i <= px@.len(),
                        self@ == (ProvincesView { colors: old(self)@.colors.union(pixel_keys(px@.take(i as int))), ..old(self)@ }),
                    decreases px.len() - i,
                {
                    let (r, g, b) = px[i];
                    self.add_color(r, g, b);
                    proof {
                        assert(px@.take(i + 1).drop_last() =~= px@.take(i as int));
                        assert(old(self)@.colors.union(pixel_keys(px@.take(i + 1))) =~= old(self)@.colors.union(
                            pixel_keys(px@.take(i as int)),
                        ).insert(color_key(px@[i as int])));
                    }
                    i = i + 1;
                }
                proof {
                    assert(px@.take(px@.len() as int) =~= px@);
                    lemma_logged_nothing(errors);
                }
            },
            Ok(Err(color)) => {
                let m1 = concat_str("`", local);
                let m2 = concat_str(m1.as_str(), "` has wrong color format `");
                let m3 = concat_str(m2.as_str(), color.as_str());
                let msg = concat_str(m3.as_str(), "`, should be Rgb8");
                err(ErrorKey::ImageFormat).msg(msg.as_str()).loc(loc).push(errors);
            },
            Err(e) => {
                let m1 = concat_str("could not read `", local);
                let m2 = concat_str(m1.as_str(), "`: ");
                let msg = concat_str(m2.as_str(), e.as_str());
                err(ErrorKey::ReadError).msg(msg.as_str()).loc(loc).push(errors);
            },
        }
    }

    /// Take in `provinces.png`, at `loc`, with path `local`: its bytes, decoded as PNG, or why
    /// they could not be read.
    pub fn load_provinces_image(&mut self, loc: Loc, local: &str, bytes: Result<&[u8], &str>, errors: &mut Errors)
        ensures
            ({
                let d = match bytes {
                    Ok(b) => png_rgb8_pixels(b@),
                    Err(e) => Err(e@),
                };
                &&& final(self)@ == (ProvincesView { colors: image_colors(old(self)@.colors, d), ..old(self)@ })
                &&& final(errors).logged(old(errors), image_reports(loc, local@, d))
            }),
    {
        let decoded = match bytes {
            Ok(b) => decode_png_rgb8(b),
            Err(e) => Err(e.to_string()),
        };
        self.handle_provinces_image(loc, local, decoded, errors);
    }

    /// Take in a row of `definition.csv`.
    fn parse_definition(&mut self, csv: &[Token], errors: &mut Errors)
        requires
            csv@.len() > 0,
        ensures
            final(self)@ == (ProvincesView {
                provinces: definition_step(old(self)@.provinces, tokens_view(csv@)).0,
                ..old(self)@
            }),
            final(errors).logged(old(errors), definition_step(old(self)@.provinces, tokens_view(csv@)).1),
    {
        broadcast use vstd::std_specs::hash::group_hash_axioms;
        let ghost row = tokens_view(csv@);
        let ghost before = self@;
        if let Some(province) = Province::parse(csv, errors) {
            let ghost e1 = *errors;
            let ghost pv = province@;
            if self.provinces.contains_key(&province.id) {
                err(ErrorKey::Duplicate).msg("duplicate entry for this province id").loc(&province.comment).push(errors);
            } else {
                proof {
                    lemma_logged_nothing(errors);
                }
            }
            let id = province.id;
            self.provinces.insert(id, province);
            proof {
                let dup = if before.provinces.contains_key(id) {
                    seq![duplicate_report(pv.comment)]
                } else {
                    Seq::empty()
                };
                lemma_logged_trans(old(errors), &e1, errors, province_reports(row), dup);
                assert(self@.provinces =~= before.provinces.insert(id, pv));
            }
        } else {
            proof {
                assert(province_reports(row) == definition_step(before.provinces, row).1);
            }
        }
    }

    /// Take in `adjacencies.csv`, at `entry`: its text, or why it could not be read. Its first
    /// line is a header.
    pub fn handle_adjacencies(&mut self, entry: Loc, content: Result<&str, &str>, errors: &mut Errors)
        requires
            content matches Ok(text) ==> text@.len() + 2 <= u32::MAX && rows_nonempty(csv_rows(entry, text@, 0, 1)),
        ensures
            final(self)@ == (ProvincesView {
                adjacencies: match content {
                    Ok(text) => old(self)@.adjacencies + adjacency_scan(csv_rows(entry, text@, 0, 1)).adjacencies,
                    Err(_) => old(self)@.adjacencies,
                },
                ..old(self)@
            }),
            final(errors).logged(
                old(errors),
                match content {
                    Ok(text) => adjacencies_reports(entry, csv_rows(entry, text@, 0, 1)),
                    Err(msg) => seq![read_report(entry, msg@)],
                },
            ),
    {
        let text = match content {
            Ok(text) => text,
            Err(msg) => {
                err(ErrorKey::ReadError).msg(msg).loc(entry).push(errors);
                return;
            },
        };
        let ghost s = text@;
        let ghost rows = csv_rows(entry, s, 0, 1);
        let ghost v0 = self@;
        let ghost e0 = *errors;
        let ghost mut done: int = 0;
        let mut seen_terminator = false;
        let mut reader = parse_csv(entry, 1, text);
        proof {
            assert(rows.skip(0) =~= rows);
            assert(rows.take(0) =~= Seq::<Seq<FieldView>>::empty());
            assert(v0.adjacencies + Seq::<AdjacencyView>::empty() =~= v0.adjacencies);
            lemma_logged_nothing(errors);
        }
        loop
            invariant_except_break
                csv_rows(entry, s, reader.position(), reader.headers_left()) == rows.skip(done),
                !adjacency_scan(rows.take(done)).stopped,
            invariant
                reader.wf(),
                reader.text() == s,
                reader.base() == entry,
                0 <= done <= rows.len(),
                rows == csv_rows(entry, s, 0, 1),
                rows_nonempty(rows),
                seen_terminator == adjacency_scan(rows.take(done)).seen_terminator,
                self@ == (ProvincesView { adjacencies: v0.adjacencies + adjacency_scan(rows.take(done)).adjacencies, ..v0 }),
                errors.logged(&e0, adjacency_scan(rows.take(done)).reports),
            ensures
                adjacency_scan(rows) == adjacency_scan(rows.take(done)),
            decreases s.len() - reader.position(),
        {
            let ghost pos = reader.position();
            let ghost h = reader.headers_left();
            let ghost nr = next_row(s, pos, h);
            let ghost st = adjacency_scan(rows.take(done));
            proof {
                reader.lemma_position();
                lemma_next_row_advances(s, pos, h);
            }
            match reader.next_row() {
                None => {
                    proof {
                        assert(csv_rows(entry, s, pos, h) =~= Seq::<Seq<FieldView>>::empty());
                        assert(rows.skip(done).len() == 0);
                        assert(rows.take(done) =~= rows);
                    }
                    break;
                },
                Some(csv) => {
                    proof {
                        let spans = nr.0->0;
                        assert(csv_rows(entry, s, pos, h) == seq![row_view(entry, s, spans)] + csv_rows(entry, s, nr.1, nr.2));
                        assert(rows.skip(done)[0] == rows[done]);
                        assert(rows[done] == tokens_view(csv@));
                        assert(rows.skip(done + 1) =~= rows.skip(done).skip(1));
                        assert(rows[done].len() > 0);
                        assert(rows.take(done + 1).drop_last() =~= rows.take(done));
                        assert(rows.take(done + 1).last() == rows[done]);
                        assert(tokens_view(csv@)[0] == (csv@[0]@, csv@[0].loc));
                    }
                    if csv[0].is("-1") {
                        seen_terminator = true;
                        proof {
                            done = done + 1;
                        }
                    } else if seen_terminator {
                        let ghost e1 = *errors;
                        warn(ErrorKey::ParseError).msg("the line with all `-1;` should be the last line in the file").loc(
                            &csv[0],
                        ).push(errors);
                        proof {
                            let r = late_terminator_report(rows[done][0]);
                            lemma_logged_trans(&e0, &e1, errors, st.reports, seq![r]);
                            assert(st.reports + seq![r] =~= st.reports.push(r));
                        }
                        proof {
                            done = done + 1;
                            lemma_scan_stopped(rows, done);
                        }
                        break;
                    } else {
                        let ghost e1 = *errors;
                        let ghost before = self.adjacencies@;
                        let ghost prev = self@.adjacencies;
                        match Adjacency::parse(csv.as_slice(), errors) {
                            Some(a) => {
                                let ghost av = a@;
                                self.adjacencies.push(a);
                                proof {
                                    assert(self@.adjacencies =~= prev.push(av));
                                    assert(v0.adjacencies + st.adjacencies.push(av) =~= (v0.adjacencies
                                        + st.adjacencies).push(av));
                                }
                            },
                            None => {},
                        }
                        proof {
                            lemma_logged_trans(&e0, &e1, errors, st.reports, adjacency_reports(rows[done]));
                            done = done + 1;
                        }
                    }
                },
            }
        }
        if !seen_terminator {
            let ghost e1 = *errors;
            err(ErrorKey::ParseError).msg("CK3 needs a line with all `-1;` at the end of this file").loc(entry).push(
                errors,
            );
            proof {
                lemma_logged_trans(&e0, &e1, errors, adjacency_scan(rows).reports, seq![missing_terminator_report(entry)]);
                assert(adjacency_scan(rows).reports + seq![missing_terminator_report(entry)] =~= adjacencies_reports(entry, rows));
            }
        }
    }

    /// Check the provinces once all map files are in. Returns whether there was a
    /// `definition.csv`; without one there is nothing to check.
    #[verifier::rlimit(30)]
    pub fn finalize(&mut self, errors: &mut Errors) -> (found: bool)
        ensures
            final(self)@ == old(self)@,
            found == old(self)@.definition_csv is Some,
            final(errors).logged(old(errors), finalize_reports(old(self)@)),
    {
        broadcast use vstd::std_specs::hash::group_hash_axioms;
        let ghost p = self@;
        let definition_csv = match self.definition_csv {
            None => {
                proof {
                    lemma_logged_nothing(errors);
                }
                return false;
            },
            Some(loc) => loc,
        };
        proof {
            assert(p.provinces.dom() =~= self.provinces@.dom());
        }
        let len = self.provinces.len();
        #[verifier::truncate]
        let n = len as u32;
        assert(n as int == (p.provinces.len() as u32) as int);
        let ghost e0 = *errors;
        let mut seen: HashMap<u32, u32> = HashMap::new();
        let mut i: u32 = 1;
        proof {
            lemma_logged_nothing(errors);
            assert(seen@ =~= color_check(p, definition_csv, 1).seen);
        }
        while i < n
            invariant
                p == self@,
                p.definition_csv == Some(definition_csv),
                1 <= i,
                i <= n || n < 1,
                n < 1 ==> i == 1,
                n as int == (p.provinces.len() as u32) as int,
                p == old(self)@,
                e0 == *old(errors),
                !color_check(p, definition_csv, i as int).aborted,
                seen@ == color_check(p, definition_csv, i as int).seen,
                errors.logged(&e0, color_check(p, definition_csv, i as int).reports),
            decreases n - i,
        {
            let ghost st = color_check(p, definition_csv, i as int);
            let ghost e1 = *errors;
            match self.provinces.get(&i) {
                None => {
                    let msg = concat_str(
                        concat_str("province ids must be sequential, but ", usize_to_string(i as usize).as_str()).as_str(),
                        " is missing",
                    );
                    err(ErrorKey::Validation).msg(msg.as_str()).loc(definition_csv).push(errors);
                    proof {
                        let r = missing_id_report(definition_csv, i);
                        assert(!p.provinces.contains_key(i));
                        lemma_logged_trans(&e0, &e1, errors, st.reports, seq![r]);
                        assert(st.reports + seq![r] =~= st.reports.push(r));
                        assert(color_check(p, definition_csv, i + 1).reports == st.reports.push(r));
                        assert(color_check(p, definition_csv, i + 1).aborted);
                        lemma_color_check_aborted(p, definition_csv, i + 1, n as int);
                        assert(color_check(p, definition_csv, n as int).aborted);
                        assert(finalize_reports(p) == st.reports.push(r));
                        assert(errors.logged(&e0, finalize_reports(p)));
                    }
                    return true;
                },
                Some(province) => {
                    proof {
                        assert(p.provinces.contains_key(i));
                        assert(p.provinces[i] == province@);
                    }
                    if province.valid {
                        let k = color_key_exec(province.color);
                        if !self.colors.contains(&k) {
                            warn(ErrorKey::Validation).msg("color is not in the provinces.png").loc(&province.comment).push(
                                errors,
                            );
                            proof {
                                let r = unknown_color_report(province@.comment);
                                lemma_logged_trans(&e0, &e1, errors, st.reports, seq![r]);
                                assert(st.reports + seq![r] =~= st.reports.push(r));
                            }
                        } else {
                            match seen.get(&k) {
                                Some(prev) => {
                                    let msg = concat_str("color was already used for id ", usize_to_string(*prev as usize).as_str());
                                    warn(ErrorKey::Validation).msg(msg.as_str()).loc(&province.comment).push(errors);
                                    proof {
                                        let r = reused_color_report(province@.comment, st.seen[k]);
                                        lemma_logged_trans(&e0, &e1, errors, st.reports, seq![r]);
                                        assert(st.reports + seq![r] =~= st.reports.push(r));
                                    }
                                },
                                None => {
                                    seen.insert(k, i);
                                    proof {
                                        lemma_logged_nothing(errors);
                                        lemma_logged_trans(&e0, &e1, errors, st.reports, Seq::empty());
                                        assert(st.reports + Seq::<ReportView>::empty() =~= st.reports);
                                    }
                                },
                            }
                        }
                    } else {
                        proof {
                            lemma_logged_nothing(errors);
                        }
                    }
                },
            }
            i = i + 1;
        }
        let ghost st = color_check(p, definition_csv, n as int);
        proof {
            if n < 1 {
                assert(color_check(p, definition_csv, n as int) == color_check(p, definition_csv, 1));
            }
        }
        let seen_len = seen.len();
        let colors_len = self.colors.len();
        if seen_len < colors_len {
            let ghost e1 = *errors;
            let msg = concat_str(
                concat_str("provinces.png contains ", usize_to_string(colors_len - seen_len).as_str()).as_str(),
                " colors with no provinces assigned",
            );
            warn(ErrorKey::Validation).msg(msg.as_str()).loc(definition_csv).push(errors);
            proof {
                let r = unassigned_colors_report(definition_csv, (p.colors.len() - st.seen.len()) as nat);
                lemma_logged_trans(&e0, &e1, errors, st.reports, seq![r]);
                assert(st.reports + seq![r] =~= st.reports.push(r));
            }
        }
        true
    }

    /// Take in `definition.csv`, at `entry`: its text, or why it could not be read.
    pub fn handle_definitions(&mut self, entry: Loc, content: Result<&str, &str>, errors: &mut Errors)
        requires
            content matches Ok(text) ==> text@.len() + 2 <= u32::MAX && rows_nonempty(csv_rows(entry, text@, 0, 0)),
        ensures
            final(self)@ == (ProvincesView {
                definition_csv: Some(entry),
                provinces: match content {
                    Ok(text) => definitions_after(old(self)@.provinces, csv_rows(entry, text@, 0, 0)).0,
                    Err(_) => old(self)@.provinces,
                },
                ..old(self)@
            }),
            final(errors).logged(
                old(errors),
                match content {
                    Ok(text) => definitions_after(old(self)@.provinces, csv_rows(entry, text@, 0, 0)).1,
                    Err(msg) => seq![read_report(entry, msg@)],
                },
            ),
    {
        self.definition_csv = Some(entry);
        let text = match content {
            Ok(text) => text,
            Err(msg) => {
                err(ErrorKey::ReadError).msg(msg).loc(entry).push(errors);
                return;
            },
        };
        let ghost s = text@;
        let ghost rows = csv_rows(entry, s, 0, 0);
        let ghost m0 = old(self)@.provinces;
        let ghost v0 = self@;
        let ghost e0 = *errors;
        let ghost mut done: int = 0;
        let mut reader = parse_csv(entry, 0, text);
        proof {
            assert(rows.skip(0) =~= rows);
            assert(rows.take(0) =~= Seq::<Seq<FieldView>>::empty());
            lemma_logged_nothing(errors);
        }
        loop
            invariant_except_break
                csv_rows(entry, s, reader.position(), reader.headers_left()) == rows.skip(done),
            invariant
                reader.wf(),
                reader.text() == s,
                reader.base() == entry,
                0 <= done <= rows.len(),
                rows == csv_rows(entry, s, 0, 0),
                rows_nonempty(rows),
                self@ == (ProvincesView { provinces: definitions_after(m0, rows.take(done)).0, ..v0 }),
                errors.logged(&e0, definitions_after(m0, rows.take(done)).1),
            ensures
                done == rows.len(),
            decreases s.len() - reader.position(),
        {
            let ghost pos = reader.position();
            let ghost h = reader.headers_left();
            let ghost nr = next_row(s, pos, h);
            proof {
                reader.lemma_position();
                lemma_next_row_advances(s, pos, h);
            }
            match reader.next_row() {
                None => {
                    proof {
                        assert(csv_rows(entry, s, pos, h) =~= Seq::<Seq<FieldView>>::empty());
                        assert(rows.skip(done).len() == 0);
                    }
                    break;
                },
                Some(row) => {
                    proof {
                        let spans = nr.0->0;
                        assert(csv_rows(entry, s, pos, h) == seq![row_view(entry, s, spans)] + csv_rows(entry, s, nr.1, nr.2));
                        assert(rows.skip(done)[0] == rows[done]);
                        assert(rows[done] == tokens_view(row@));
                        assert(rows.skip(done + 1) =~= rows.skip(done).skip(1));
                        assert(rows[done].len() > 0);
                    }
                    let ghost e1 = *errors;
                    self.parse_definition(row.as_slice(), errors);
                    proof {
                        assert(rows.take(done + 1).drop_last() =~= rows.take(done));
                        assert(rows.take(done + 1).last() == rows[done]);
                        lemma_logged_trans(
                            &e0,
                            &e1,
                            errors,
                            definitions_after(m0, rows.take(done)).1,
                            definition_step(definitions_after(m0, rows.take(done)).0, rows[done]).1,
                        );
                        done = done + 1;
                    }
                },
            }
        }
        proof {
            assert(rows.take(done) =~= rows);
        }
    }
}

} // verus!
