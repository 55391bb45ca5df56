//! The order in which collected reports are handed out: most severe first, then most
//! confident, then by location, then by message.
use vstd::prelude::*;
use vstd::multiset::Multiset;
use vstd::seq_lib::{to_multiset_build, to_multiset_insert};

use crate::report::errors::Errors;
use crate::report::report_struct::{LogReport, PointerView, ReportView};
use crate::text::chars_of;
use crate::token::Loc;

verus! {

/// -1, 0 or 1 as `a` is below, equal to or above `b`.
pub open spec fn order_int(a: int, b: int) -> int {
    if a < b {
        -1
    } else if a > b {
        1
    } else {
        0
    }
}

/// The order of two locations: by file, kind of file, line, column, and then macro link, with
/// no link before any link.
pub open spec fn loc_order(a: Loc, b: Loc) -> int {
    if a.idx.0 != b.idx.0 {
        order_int(a.idx.0 as int, b.idx.0 as int)
    } else if a.kind.spec_rank() != b.kind.spec_rank() {
        order_int(a.kind.spec_rank(), b.kind.spec_rank())
    } else if a.line != b.line {
        order_int(a.line as int, b.line as int)
    } else if a.column != b.column {
        order_int(a.column as int, b.column as int)
    } else {
        match (a.link_idx, b.link_idx) {
            (None, None) => 0,
            (None, Some(_)) => -1,
            (Some(_), None) => 1,
            (Some(x), Some(y)) => order_int(x as int, y as int),
        }
    }
}

/// The order of two pointer chains from position `i` on: by the first pair of locations that
/// differ, and if there is none, the longer chain first.
pub open spec fn pointers_order(a: Seq<PointerView>, b: Seq<PointerView>, i: int) -> int
    decreases a.len() - i,
{
    if 0 <= i < a.len() && i < b.len() {
        if loc_order(a[i].loc, b[i].loc) != 0 {
            loc_order(a[i].loc, b[i].loc)
        } else {
            pointers_order(a, b, i + 1)
        }
    } else {
        order_int(b.len() as int, a.len() as int)
    }
}

/// The order of two texts from position `i` on: by the first chars that differ, and if there is
/// none, the shorter text first.
pub open spec fn chars_order(a: Seq<char>, b: Seq<char>, i: int) -> int
    decreases a.len() - i,
{
    if 0 <= i < a.len() && i < b.len() {
        if a[i] < b[i] {
            -1
        } else if a[i] > b[i] {
            1
        } else {
            chars_order(a, b, i + 1)
        }
    } else {
        order_int(a.len() as int, b.len() as int)
    }
}

/// The order of two reports: higher severity first, then higher confidence, then by locations,
/// then by message.
pub open spec fn report_order(a: ReportView, b: ReportView) -> int {
    if a.severity.spec_rank() != b.severity.spec_rank() {
        order_int(b.severity.spec_rank(), a.severity.spec_rank())
    } else if a.confidence.spec_rank() != b.confidence.spec_rank() {
        order_int(b.confidence.spec_rank(), a.confidence.spec_rank())
    } else if pointers_order(a.pointers, b.pointers, 0) != 0 {
        pointers_order(a.pointers, b.pointers, 0)
    } else {
        chars_order(a.msg, b.msg, 0)
    }
}

/// Whether the reports are in order: each comes no later than the one after it.
pub open spec fn reports_sorted(rs: Seq<ReportView>) -> bool {
    forall|i: int| 0 <= i < rs.len() - 1 ==> report_order(#[trigger] rs[i], rs[i + 1]) <= 0
}

proof fn lemma_pointers_order_antisym(a: Seq<PointerView>, b: Seq<PointerView>, i: int)
    requires
        0 <= i,
    ensures
        pointers_order(a, b, i) == -pointers_order(b, a, i),
    decreases a.len() - i,
{
    if 0 <= i < a.len() && i < b.len() {
        if loc_order(a[i].loc, b[i].loc) == 0 {
            lemma_pointers_order_antisym(a, b, i + 1);
        }
    }
}

proof fn lemma_chars_order_antisym(a: Seq<char>, b: Seq<char>, i: int)
    requires
        0 <= i,
    ensures
        chars_order(a, b, i) == -chars_order(b, a, i),
    decreases a.len() - i,
{
    if 0 <= i < a.len() && i < b.len() {
        if a[i] == b[i] {
            lemma_chars_order_antisym(a, b, i + 1);
        }
    }
}

/// Swapping two reports reverses their order.
pub proof fn lemma_report_order_antisym(a: ReportView, b: ReportView)
    ensures
        report_order(a, b) == -report_order(b, a),
{
    lemma_pointers_order_antisym(a.pointers, b.pointers, 0);
    lemma_chars_order_antisym(a.msg, b.msg, 0);
}

/// -1, 0 or 1 as `a` is below, equal to or above `b`.
fn order_u32(a: u32, b: u32) -> (r: i8)
    ensures
        r == order_int(a as int, b as int),
{
    if a < b {
        -1
    } else if a > b {
        1
    } else {
        0
    }
}

/// The order of two locations.
fn loc_order_exec(a: &Loc, b: &Loc) -> (r: i8)
    ensures
        r == loc_order(*a, *b),
{
    if a.idx.0 != b.idx.0 {
        return order_u32(a.idx.0, b.idx.0);
    }
    let ka = a.kind.rank();
    let kb = b.kind.rank();
    if ka != kb {
        return order_u32(ka, kb);
    }
    if a.line != b.line {
        return order_u32(a.line, b.line);
    }
    if a.column != b.column {
        return order_u32(a.column, b.column);
    }
    match (a.link_idx, b.link_idx) {
        (None, None) => 0,
        (None, Some(_)) => -1,
        (Some(_), None) => 1,
        (Some(x), Some(y)) => order_u32(x, y),
    }
}

/// The order of two reports.
fn report_order_exec(a: &LogReport, b: &LogReport) -> (r: i8)
    ensures
        r == report_order(a@, b@),
{
    let sa = a.severity.rank();
    let sb = b.severity.rank();
    if sa != sb {
        return order_u32(sb as u32, sa as u32);
    }
    let ca = a.confidence.rank();
    let cb = b.confidence.rank();
    if ca != cb {
        return order_u32(cb as u32, ca as u32);
    }
    let ghost pa = a@.pointers;
    let ghost pb = b@.pointers;
    let mut i: usize = 0;
    while i < a.pointers.len() && i < b.pointers.len()
        invariant
            pa == a@.pointers,
            pb == b@.pointers,
            pa.len() == a.pointers@.len(),
            pb.len() == b.pointers@.len(),
            i <= pa.len(),
            a@.severity.spec_rank() == b@.severity.spec_rank(),
            a@.confidence.spec_rank() == b@.confidence.spec_rank(),
            pointers_order(pa, pb, 0) == pointers_order(pa, pb, i as int),
        decreases a.pointers.len() - i,
    {
        assert(pa[i as int].loc == a.pointers@[i as int].loc);
        assert(pb[i as int].loc == b.pointers@[i as int].loc);
        let o = loc_order_exec(&a.pointers[i].loc, &b.pointers[i].loc);
        if o != 0 {
            return o;
        }
        i = i + 1;
    }
    let la = a.pointers.len();
    let lb = b.pointers.len();
    if la != lb {
        return if lb < la {
            -1
        } else {
            1
        };
    }
    let ma = chars_of(a.msg.as_str());
    let mb = chars_of(b.msg.as_str());
    let mut j: usize = 0;
    while j < ma.len() && j < mb.len()
        invariant
            ma@ == a@.msg,
            mb@ == b@.msg,
            j <= ma@.len(),
            a@.severity.spec_rank() == b@.severity.spec_rank(),
            a@.confidence.spec_rank() == b@.confidence.spec_rank(),
            pointers_order(a@.pointers, b@.pointers, 0) == 0,
            chars_order(ma@, mb@, 0) == chars_order(ma@, mb@, j as int),
        decreases ma.len() - j,
    {
        if ma[j] < mb[j] {
            return -1;
        }
        if ma[j] > mb[j] {
            return 1;
        }
        j = j + 1;
    }
    if ma.len() < mb.len() {
        -1
    } else if ma.len() > mb.len() {
        1
    } else {
        0
    }
}

/// The views of the reports.
pub open spec fn views(v: Seq<LogReport>) -> Seq<ReportView> {
    v.map_values(|r: LogReport| r@)
}

/// The position at which `r` goes into the sorted reports `out`: after every report that does
/// not come after it.
fn insertion_point(out: &Vec<LogReport>, r: &LogReport) -> (k: usize)
    requires
        reports_sorted(views(out@)),
    ensures
        k <= out@.len(),
        k > 0 ==> report_order(out@[k - 1]@, r@) <= 0,
        k < out@.len() ==> report_order(r@, out@[k as int]@) < 0,
{
    let mut k: usize = 0;
    while k < out.len() && report_order_exec(r, &out[k]) >= 0
        invariant
            k <= out@.len(),
            k > 0 ==> report_order(out@[k - 1]@, r@) <= 0,
        decreases out.len() - k,
    {
        proof {
            lemma_report_order_antisym(r@, out@[k as int]@);
        }
        k = k + 1;
    }
    k
}

/// Take the stored reports out of `errors`, sorted: most severe first, then most confident,
/// then by location, then by message. The storage is left empty.
pub fn take_reports(errors: &mut Errors) -> (v: Vec<LogReport>)
    ensures
        final(errors).same_config(old(errors)),
        final(errors).reports() == Seq::<ReportView>::empty(),
        views(v@).to_multiset() == old(errors).reports().to_multiset(),
        reports_sorted(views(v@)),
{
    let mut rest = errors.drain_reports();
    let ghost all = views(rest@);
    assert(all == old(errors).reports());
    let mut out: Vec<LogReport> = Vec::new();
    assert(views(out@) =~= Seq::<ReportView>::empty());
    proof {
        views(out@).to_multiset_ensures();
    }
    assert(views(out@).to_multiset() =~= Multiset::<ReportView>::empty());
    while rest.len() > 0
        invariant
            reports_sorted(views(out@)),
            views(out@).to_multiset().add(views(rest@).to_multiset()) == all.to_multiset(),
        decreases rest.len(),
    {
        let ghost rest0 = rest@;
        let ghost out0 = out@;
        let r = rest.pop().unwrap();
        assert(views(rest0) =~= views(rest@).push(r@));
        let k = insertion_point(&out, &r);
        out.insert(k, r);
        proof {
            assert(views(out@) =~= views(out0).insert(k as int, r@));
            to_multiset_insert(views(out0), k as int, r@);
            to_multiset_build(views(rest@), r@);
            assert(views(out@).to_multiset().add(views(rest@).to_multiset()) =~= all.to_multiset());
            assert forall|i: int| 0 <= i < views(out@).len() - 1 implies report_order(
                #[trigger] views(out@)[i],
                views(out@)[i + 1],
            ) <= 0 by {
                if i < k - 1 {
                    assert(views(out@)[i] == views(out0)[i]);
                    assert(views(out@)[i + 1] == views(out0)[i + 1]);
                } else if i == k - 1 {
                } else if i == k {
                } else {
                    assert(views(out@)[i] == views(out0)[i - 1]);
                    assert(views(out@)[i + 1] == views(out0)[i]);
                }
            }
        }
    }
    assert(views(rest@) =~= Seq::<ReportView>::empty());
    assert(views(rest@).to_multiset() =~= Multiset::<ReportView>::empty());
    assert(views(out@).to_multiset().add(Multiset::empty()) =~= views(out@).to_multiset());
    out
}

} // verus!
