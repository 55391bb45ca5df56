//! Checking `map_data/rivers.png`, whose pixels must be laid out exactly as the game reads them.
//!
//! The image has an indexed palette whose colors do not matter, only the index values of the
//! pixels: 0 starts a river (a source, usually green), 1 joins a river into another (a tributary,
//! usually red), 2 splits a river off from another (a split, usually yellow), 3 to 15 are river
//! pixels of various widths, and 16 and up are ignored. River pixels must touch each other
//! horizontally or vertically, forming segments, and each segment must end at exactly one of the
//! special pixels 0 to 2.
use std::collections::{HashMap, HashSet};
use vstd::prelude::*;

use crate::report::builder::{err, info_of, simple_report, warn};
use crate::report::error_key::ErrorKey;
use crate::report::errors::{lemma_logged_nothing, lemma_logged_trans, will_maybe_log, Errors};
use crate::report::report_struct::{Confidence, ReportView, Severity};
use crate::text::{concat_str, nat_decimal, usize_to_string};
use crate::everything::Everything;
use crate::token::Loc;

verus! {

/// The first river pixel value.
pub const FIRST_NORMAL: u8 = 3;
/// The last river pixel value.
pub const LAST_NORMAL: u8 = 15;
/// The last special pixel value.
pub const LAST_SPECIAL: u8 = 2;
/// A pixel at the start of a river segment.
pub const SOURCE: u8 = 0;
/// A pixel that joins one river segment into another.
pub const TRIBUTARY: u8 = 1;
/// A pixel where a river splits off from another.
pub const SPLIT: u8 = 2;

/// A point of the image.
pub type Coords = (u32, u32);

/// The key under which a point is kept in the maps of segments and special pixels.
pub open spec fn key(c: Coords) -> u64 {
    (c.0 as int * 4294967296 + c.1 as int) as u64
}

fn key_exec(c: Coords) -> (k: u64)
    ensures
        k == key(c),
{
    (c.0 as u64) * 4294967296 + (c.1 as u64)
}

/// A decoded `rivers.png`, as much of it as was read.
pub struct RiverImage {
    pub width: u32,
    pub height: u32,
    /// Whether the image is in indexed color.
    pub indexed: bool,
    /// Whether the image has a palette.
    pub has_palette: bool,
    /// The palette indexes of the pixels, row by row.
    pub pixels: Vec<u8>,
}

/// The PNG colour type of indexed-colour images.
pub const PNG_INDEXED: u8 = 3;

/// The header of a PNG image, as its decoder read it. The colour type is the PNG colour type
/// code: 0 grayscale, 2 RGB, 3 indexed, 4 grayscale with alpha, 6 RGBA.
#[derive(Clone, Copy, Debug, PartialEq, Eq, Structural)]
pub struct PngInfo {
    pub width: u32,
    pub height: u32,
    pub color_type: u8,
    pub has_palette: bool,
}

/// The size and colour type of the first frame of a PNG image, as its decoder gave them.
#[derive(Clone, Copy, Debug, PartialEq, Eq, Structural)]
pub struct PngFrame {
    pub width: u32,
    pub height: u32,
    pub color_type: u8,
}

/// How far decoding a PNG image got.
pub enum PngDecoded {
    /// The header could not be read, for this reason.
    InfoError(String),
    /// The header was read but the first frame could not be: the header, the frame buffer as
    /// decoding left it, and the reason.
    FrameError(PngInfo, Vec<u8>, String),
    /// The header and the first frame were read: the header, the pixels and the frame.
    Frame(PngInfo, Vec<u8>, PngFrame),
}

/// The content of [`PngDecoded`].
pub enum PngDecodedView {
    InfoError(Seq<char>),
    FrameError(PngInfo, Seq<u8>, Seq<char>),
    Frame(PngInfo, Seq<u8>, PngFrame),
}

impl View for PngDecoded {
    type V = PngDecodedView;

    open spec fn view(&self) -> PngDecodedView {
        match self {
            PngDecoded::InfoError(e) => PngDecodedView::InfoError(e@),
            PngDecoded::FrameError(info, px, e) => PngDecodedView::FrameError(*info, px@, e@),
            PngDecoded::Frame(info, px, f) => PngDecodedView::Frame(*info, px@, *f),
        }
    }
}

/// What the `png` crate's decoder gives for the bytes `bytes`: its header, its first frame, or
/// the error at which it stopped.
pub uninterp spec fn png_decoded(bytes: Seq<u8>) -> PngDecodedView;

/// `png::Decoder::read_info` followed by `png::Reader::next_frame` into a buffer of
/// `png::Reader::output_buffer_size` bytes.
///
/// The contract names the result: decoding depends on the bytes alone. Errors are given in the
/// decoder's own words.
#[verifier::external_body]
fn png_decode(bytes: &[u8]) -> (r: PngDecoded)
    ensures
        r@ == png_decoded(bytes@),
{
    let mut reader = match png::Decoder::new(bytes).read_info() {
        Ok(reader) => reader,
        Err(e) => return PngDecoded::InfoError(format!("{e:#}")),
    };
    let i = reader.info();
    let info = PngInfo { width: i.width, height: i.height, color_type: i.color_type as u8, has_palette: i.palette.is_some() };
    let mut pixels = vec![0; reader.output_buffer_size()];
    match reader.next_frame(&mut pixels) {
        Ok(f) => PngDecoded::Frame(info, pixels, PngFrame { width: f.width, height: f.height, color_type: f.color_type as u8 }),
        Err(e) => PngDecoded::FrameError(info, pixels, format!("{e:#}")),
    }
}

/// Whether the first frame agrees with the header in size and colour type.
pub open spec fn frame_matches(info: PngInfo, frame: PngFrame) -> bool {
    frame.width == info.width && frame.height == info.height && frame.color_type == info.color_type
}

/// The error of a frame that does not agree with its header.
pub open spec fn frame_mismatch_msg() -> Seq<char> {
    "PNG frame did not match image info"@
}

/// Why loading `rivers.png` from what the decoder gave fails, if it does.
pub open spec fn png_load_error(d: PngDecodedView) -> Option<Seq<char>> {
    match d {
        PngDecodedView::InfoError(e) => Some(e),
        PngDecodedView::FrameError(_, _, e) => Some(e),
        PngDecodedView::Frame(info, _, f) => if frame_matches(info, f) {
            None
        } else {
            Some(frame_mismatch_msg())
        },
    }
}

/// What is known of `rivers.png` after loading it from what the decoder gave, starting from
/// `r`: the header's fields and the pixels are taken as soon as the header was read; a palette
/// once seen is kept.
pub open spec fn png_loaded(r: RiversView, d: PngDecodedView) -> RiversView {
    match d {
        PngDecodedView::InfoError(_) => r,
        PngDecodedView::FrameError(info, px, _) => png_header_loaded(r, info, px),
        PngDecodedView::Frame(info, px, _) => png_header_loaded(r, info, px),
    }
}

pub open spec fn png_header_loaded(r: RiversView, info: PngInfo, px: Seq<u8>) -> RiversView {
    RiversView {
        width: info.width,
        height: info.height,
        indexed: info.color_type == PNG_INDEXED,
        has_palette: r.has_palette || info.has_palette,
        pixels: px,
        ..r
    }
}

/// Decode `rivers.png` from its bytes, and fail if its first frame does not agree with its
/// header in size and colour type.
pub fn decode_rivers_png(bytes: &[u8]) -> (r: Result<RiverImage, String>)
    ensures
        r is Ok <==> png_load_error(png_decoded(bytes@)) is None,
        r matches Err(e) ==> png_load_error(png_decoded(bytes@)) == Some(e@),
        r matches Ok(img) ==> ({
            let v = png_loaded(Rivers::default_view(), png_decoded(bytes@));
            img.width == v.width && img.height == v.height && img.indexed == v.indexed
                && img.has_palette == v.has_palette && img.pixels@ == v.pixels
        }),
{
    let mut rivers = Rivers::default();
    match rivers.load_decoded(png_decode(bytes)) {
        Ok(()) => Ok(
            RiverImage {
                width: rivers.width,
                height: rivers.height,
                indexed: rivers.indexed,
                has_palette: rivers.has_palette,
                pixels: rivers.pixels,
            },
        ),
        Err(e) => Err(e),
    }
}

/// What is known of `rivers.png`.
#[derive(Debug)]
pub struct Rivers {
    /// Where the file is, for reports.
    entry: Option<Loc>,
    width: u32,
    height: u32,
    indexed: bool,
    has_palette: bool,
    pixels: Vec<u8>,
}

/// The content of [`Rivers`].
pub struct RiversView {
    pub entry: Option<Loc>,
    pub width: u32,
    pub height: u32,
    pub indexed: bool,
    pub has_palette: bool,
    pub pixels: Seq<u8>,
}

impl View for Rivers {
    type V = RiversView;

    closed spec fn view(&self) -> RiversView {
        RiversView {
            entry: self.entry,
            width: self.width,
            height: self.height,
            indexed: self.indexed,
            has_palette: self.has_palette,
            pixels: self.pixels@,
        }
    }
}

/// The pixels cover the image, and the image's index arithmetic fits in `u32`.
pub open spec fn pixels_cover(r: RiversView) -> bool {
    &&& r.width as int * r.height as int <= u32::MAX
    &&& r.pixels.len() >= r.width as int * r.height as int
}

/// The pixel at `(x, y)`.
pub open spec fn pix(r: RiversView, x: int, y: int) -> u8 {
    r.pixels[x + r.width * y]
}

/// Whether `(x, y)` is in the image.
pub open spec fn in_image(r: RiversView, x: int, y: int) -> bool {
    0 <= x < r.width && 0 <= y < r.height
}

/// Whether a pixel value is a river pixel.
pub open spec fn is_normal(p: u8) -> bool {
    FIRST_NORMAL <= p <= LAST_NORMAL
}

/// Whether a pixel value is a special pixel.
pub open spec fn is_special(p: u8) -> bool {
    p <= LAST_SPECIAL
}

/// The neighbors of `(x, y)`, left, above, right and below, whose pixels satisfy `f`.
pub open spec fn neighbors_where(r: RiversView, x: u32, y: u32, f: spec_fn(u8) -> bool) -> Seq<Coords> {
    let left: Seq<Coords> = if x > 0 && f(pix(r, x - 1, y as int)) {
        seq![((x - 1) as u32, y)]
    } else {
        Seq::empty()
    };
    let up: Seq<Coords> = if y > 0 && f(pix(r, x as int, y - 1)) {
        seq![(x, (y - 1) as u32)]
    } else {
        Seq::empty()
    };
    let right: Seq<Coords> = if x + 1 < r.width && f(pix(r, x + 1, y as int)) {
        seq![((x + 1) as u32, y)]
    } else {
        Seq::empty()
    };
    let down: Seq<Coords> = if y + 1 < r.height && f(pix(r, x as int, y + 1)) {
        seq![(x, (y + 1) as u32)]
    } else {
        Seq::empty()
    };
    left + up + right + down
}

/// The neighbors of `(x, y)` that are river pixels.
pub open spec fn river_neighbors(r: RiversView, x: u32, y: u32) -> Seq<Coords> {
    neighbors_where(r, x, y, |p: u8| is_normal(p))
}

/// The neighbors of `(x, y)` that are special pixels.
pub open spec fn special_neighbors(r: RiversView, x: u32, y: u32) -> Seq<Coords> {
    neighbors_where(r, x, y, |p: u8| is_special(p))
}

/// The decimal form of a point: `(x, y)`.
pub open spec fn coords_text(c: Coords) -> Seq<char> {
    "("@ + nat_decimal(c.0 as nat) + ", "@ + nat_decimal(c.1 as nat) + ")"@
}

fn coords_string(c: Coords) -> (s: String)
    ensures
        s@ == coords_text(c),
{
    let a = concat_str("(", usize_to_string(c.0 as usize).as_str());
    let b = concat_str(a.as_str(), ", ");
    let d = concat_str(b.as_str(), usize_to_string(c.1 as usize).as_str());
    concat_str(d.as_str(), ")")
}

/// A report about the rivers at `loc`.
pub open spec fn river_report(loc: Loc, msg: Seq<char>) -> ReportView {
    simple_report(ErrorKey::Rivers, Severity::Warning, Confidence::Reasonable, msg, None, loc)
}

/// Where scanning the pixels has got to.
pub struct RiverScan {
    /// Each end of a segment found so far, mapped to its other end; a single-pixel segment maps
    /// its pixel to itself. The pixels between the ends are not kept.
    pub segments: Map<u64, Coords>,
    /// The special pixels found so far, each mapped to whether it ends a segment.
    pub specials: Map<u64, bool>,
    pub reports: Seq<ReportView>,
    /// Whether a problem was found that makes checking the segments pointless.
    pub bad: bool,
}

/// Taking in the river neighbor `c` of the river pixel `p`, where `found` says whether a
/// neighbor was already at the end of a segment: extend that segment to `p`, or, if `p` already
/// ends one, join the two.
pub open spec fn join_step(st: RiverScan, found: bool, p: Coords, c: Coords, loc: Loc) -> (RiverScan, bool) {
    if st.segments.contains_key(key(c)) {
        let other_end = st.segments[key(c)];
        if st.segments.contains_key(key(p)) {
            let third_end = st.segments[key(p)];
            if third_end == p {
                (
                    RiverScan {
                        reports: st.reports.push(river_report(loc, coords_text(p) + " river forms a loop"@)),
                        bad: true,
                        ..st
                    },
                    true,
                )
            } else {
                (
                    RiverScan {
                        segments: st.segments.insert(key(other_end), third_end).insert(key(third_end), other_end).remove(
                            key(p),
                        ).remove(key(c)),
                        ..st
                    },
                    true,
                )
            }
        } else {
            (
                RiverScan {
                    segments: st.segments.insert(key(p), other_end).insert(key(other_end), p).remove(key(c)),
                    ..st
                },
                true,
            )
        }
    } else {
        (st, found)
    }
}

/// Taking in the river neighbors `ns` of the river pixel `p`, in order.
pub open spec fn join_all(st: RiverScan, found: bool, p: Coords, ns: Seq<Coords>, loc: Loc) -> (RiverScan, bool)
    decreases ns.len(),
{
    if ns.len() == 0 {
        (st, found)
    } else {
        let (s1, f1) = join_all(st, found, p, ns.drop_last(), loc);
        join_step(s1, f1, p, ns.last(), loc)
    }
}

/// The state with one more report, about a problem that stops the check of the segments.
pub open spec fn with_problem(st: RiverScan, loc: Loc, msg: Seq<char>) -> RiverScan {
    RiverScan { reports: st.reports.push(river_report(loc, msg)), bad: true, ..st }
}

/// Taking in the pixel at `(x, y)`: a source must have one river neighbor, a tributary or a split
/// at least two, and a river pixel at most two, which it joins into segments.
pub open spec fn pixel_step(r: RiversView, st: RiverScan, x: u32, y: u32, loc: Loc) -> RiverScan {
    let p = pix(r, x as int, y as int);
    let ns = river_neighbors(r, x, y);
    let c = (x, y);
    if p == SOURCE {
        if ns.len() == 1 {
            RiverScan { specials: st.specials.insert(key(c), false), ..st }
        } else {
            with_problem(st, loc, coords_text(c) + " river source (green) not at source of a river"@)
        }
    } else if p == TRIBUTARY {
        if ns.len() >= 2 {
            RiverScan { specials: st.specials.insert(key(c), false), ..st }
        } else {
            with_problem(st, loc, coords_text(c) + " river tributary (red) not joining another river"@)
        }
    } else if p == SPLIT {
        if ns.len() >= 2 {
            RiverScan { specials: st.specials.insert(key(c), false), ..st }
        } else {
            with_problem(st, loc, coords_text(c) + " river split (yellow) not splitting off from a river"@)
        }
    } else if is_normal(p) {
        if ns.len() <= 2 {
            let (s1, found) = join_all(st, false, c, ns, loc);
            if found {
                s1
            } else {
                RiverScan { segments: s1.segments.insert(key(c), c), ..s1 }
            }
        } else {
            with_problem(
                st,
                loc,
                coords_text(c) + " river pixel has "@ + nat_decimal(ns.len()) + " neighbors"@,
            )
        }
    } else {
        st
    }
}

/// Scanning the first `n` pixels of column `x`, from `st`.
pub open spec fn scan_column(r: RiversView, st: RiverScan, x: u32, n: int, loc: Loc) -> RiverScan
    decreases n,
{
    if n <= 0 {
        st
    } else {
        pixel_step(r, scan_column(r, st, x, n - 1, loc), x, (n - 1) as u32, loc)
    }
}

/// Scanning the first `n` columns.
pub open spec fn scan_columns(r: RiversView, n: int, loc: Loc) -> RiverScan
    decreases n,
{
    if n <= 0 {
        RiverScan { segments: Map::empty(), specials: Map::empty(), reports: Seq::empty(), bad: false }
    } else {
        scan_column(r, scan_columns(r, n - 1, loc), (n - 1) as u32, r.height as int, loc)
    }
}

/// Where walking the segments has got to.
pub struct SegmentWalk {
    /// The special pixels, each mapped to whether it ends a segment.
    pub specials: Map<u64, bool>,
    /// The far ends of the segments walked so far.
    pub seen: Set<u64>,
    pub reports: Seq<ReportView>,
}

/// Taking the special pixel `s` as the end of a segment: it may end only one.
pub open spec fn claim(w: SegmentWalk, s: Coords, loc: Loc) -> SegmentWalk {
    if w.specials[key(s)] {
        SegmentWalk {
            reports: w.reports.push(river_report(loc, coords_text(s) + " pixel terminates multiple river segments"@)),
            ..w
        }
    } else {
        SegmentWalk { specials: w.specials.insert(key(s), true), ..w }
    }
}

/// Taking in the segment with the end `start`, if `start` ends a segment whose other end was not
/// walked before: it must have exactly one special pixel next to its ends.
pub open spec fn segment_step(r: RiversView, segs: Map<u64, Coords>, w: SegmentWalk, start: Coords, loc: Loc) -> SegmentWalk {
    if !segs.contains_key(key(start)) || w.seen.contains(key(start)) {
        w
    } else {
        let end = segs[key(start)];
        let w1 = SegmentWalk { seen: w.seen.insert(key(end)), ..w };
        if start == end {
            let sn = special_neighbors(r, start.0, start.1);
            if sn.len() > 1 {
                SegmentWalk {
                    reports: w1.reports.push(river_report(loc, coords_text(start) + " river pixel connects two special pixels"@)),
                    ..w1
                }
            } else if sn.len() == 0 {
                SegmentWalk { reports: w1.reports.push(river_report(loc, coords_text(start) + " orphan river pixel"@)), ..w1 }
            } else {
                claim(w1, sn[0], loc)
            }
        } else {
            let sn = special_neighbors(r, start.0, start.1) + special_neighbors(r, end.0, end.1);
            if sn.len() == 0 {
                SegmentWalk {
                    reports: w1.reports.push(
                        river_report(loc, coords_text(start) + " - "@ + coords_text(end) + " orphan river segment"@),
                    ),
                    ..w1
                }
            } else if sn.len() > 1 {
                SegmentWalk {
                    reports: w1.reports.push(
                        river_report(
                            loc,
                            coords_text(start) + " - "@ + coords_text(end) + " river segment has two terminators"@,
                        ),
                    ),
                    ..w1
                }
            } else {
                claim(w1, sn[0], loc)
            }
        }
    }
}

/// Walking the ends in the first `n` pixels of column `x`, from `w`.
pub open spec fn walk_column(r: RiversView, segs: Map<u64, Coords>, w: SegmentWalk, x: u32, n: int, loc: Loc) -> SegmentWalk
    decreases n,
{
    if n <= 0 {
        w
    } else {
        segment_step(r, segs, walk_column(r, segs, w, x, n - 1, loc), (x, (n - 1) as u32), loc)
    }
}

/// Walking the ends in the first `n` columns, starting with the special pixels `specials`.
pub open spec fn walk_columns(r: RiversView, segs: Map<u64, Coords>, specials: Map<u64, bool>, n: int, loc: Loc) -> SegmentWalk
    decreases n,
{
    if n <= 0 {
        SegmentWalk { specials, seen: Set::empty(), reports: Seq::empty() }
    } else {
        walk_column(r, segs, walk_columns(r, segs, specials, n - 1, loc), (n - 1) as u32, r.height as int, loc)
    }
}

/// What checking `rivers.png`, at `loc`, reports: the image must be indexed and have a palette;
/// if reports about rivers at `loc` might be shown, the pixels are scanned column by column, and
/// if no problem stops it, the segments are walked from their ends, in the same order.
pub open spec fn rivers_reports(r: RiversView, loc: Loc, maybe_shown: bool) -> Seq<ReportView> {
    if !r.indexed {
        seq![
            simple_report(
                ErrorKey::ImageFormat,
                Severity::Error,
                Confidence::Reasonable,
                "rivers.png should be in indexed color format (with 8-bit palette)"@,
                None,
                loc,
            ),
        ]
    } else if !r.has_palette {
        seq![
            simple_report(
                ErrorKey::ImageFormat,
                Severity::Error,
                Confidence::Reasonable,
                "rivers.png must have an 8-bit palette"@,
                None,
                loc,
            ),
        ]
    } else if !maybe_shown {
        Seq::empty()
    } else {
        let st = scan_columns(r, r.width as int, loc);
        if st.bad {
            st.reports
        } else {
            st.reports + walk_columns(r, st.segments, st.specials, r.width as int, loc).reports
        }
    }
}

/// Every segment end in `m` is in the image.
pub open spec fn values_in_image(r: RiversView, m: Map<u64, Coords>) -> bool {
    forall|k: u64| #[trigger] m.contains_key(k) ==> in_image(r, m[k].0 as int, m[k].1 as int)
}

/// Whether the special pixel `c` has been taken in, unless a problem stopped the check.
pub open spec fn covers(st: RiverScan, c: Coords) -> bool {
    st.bad || st.specials.contains_key(key(c))
}

/// The later state keeps the problems and the special pixels of the earlier one.
pub open spec fn grows(a: RiverScan, b: RiverScan) -> bool {
    &&& a.bad ==> b.bad
    &&& forall|k: u64| #[trigger] a.specials.contains_key(k) ==> b.specials.contains_key(k)
}

/// Every special pixel in the first `n` columns has been taken in, unless a problem stopped
/// the check.
pub open spec fn cols_covered(r: RiversView, st: RiverScan, n: int) -> bool {
    forall|x: u32, y: u32|
        x < n && y < r.height && is_special(pix(r, x as int, y as int)) ==> #[trigger] covers(st, (x, y))
}

/// Every special pixel among the first `n` of column `x` has been taken in, unless a problem
/// stopped the check.
pub open spec fn col_covered(r: RiversView, st: RiverScan, x: u32, n: int) -> bool {
    forall|y: u32| y < n && is_special(pix(r, x as int, y as int)) ==> #[trigger] covers(st, (x, y))
}

proof fn lemma_neighbors_in_image(r: RiversView, x: u32, y: u32, f: spec_fn(u8) -> bool)
    requires
        in_image(r, x as int, y as int),
    ensures
        forall|j: int|
            0 <= j < neighbors_where(r, x, y, f).len() ==> in_image(
                r,
                (#[trigger] neighbors_where(r, x, y, f)[j]).0 as int,
                neighbors_where(r, x, y, f)[j].1 as int,
            ),
        neighbors_where(r, x, y, f).len() <= 4,
{
}

proof fn lemma_join_all(r: RiversView, st: RiverScan, found: bool, p: Coords, ns: Seq<Coords>, loc: Loc)
    requires
        values_in_image(r, st.segments),
        in_image(r, p.0 as int, p.1 as int),
        forall|j: int| 0 <= j < ns.len() ==> in_image(r, (#[trigger] ns[j]).0 as int, ns[j].1 as int),
    ensures
        values_in_image(r, join_all(st, found, p, ns, loc).0.segments),
        grows(st, join_all(st, found, p, ns, loc).0),
        join_all(st, found, p, ns, loc).0.specials == st.specials,
    decreases ns.len(),
{
    if ns.len() > 0 {
        lemma_join_all(r, st, found, p, ns.drop_last(), loc);
    }
}

proof fn lemma_pixel_step(r: RiversView, st: RiverScan, x: u32, y: u32, loc: Loc)
    requires
        pixels_cover(r),
        in_image(r, x as int, y as int),
        values_in_image(r, st.segments),
    ensures
        values_in_image(r, pixel_step(r, st, x, y, loc).segments),
        grows(st, pixel_step(r, st, x, y, loc)),
        is_special(pix(r, x as int, y as int)) ==> covers(pixel_step(r, st, x, y, loc), (x, y)),
{
    lemma_neighbors_in_image(r, x, y, |p: u8| is_normal(p));
    lemma_join_all(r, st, false, (x, y), river_neighbors(r, x, y), loc);
}

proof fn lemma_scan_column(r: RiversView, st: RiverScan, x: u32, n: int, loc: Loc)
    requires
        pixels_cover(r),
        x < r.width,
        0 <= n <= r.height,
        values_in_image(r, st.segments),
    ensures
        values_in_image(r, scan_column(r, st, x, n, loc).segments),
        grows(st, scan_column(r, st, x, n, loc)),
        col_covered(r, scan_column(r, st, x, n, loc), x, n),
    decreases n,
{
    if n > 0 {
        lemma_scan_column(r, st, x, n - 1, loc);
        let prev = scan_column(r, st, x, n - 1, loc);
        lemma_pixel_step(r, prev, x, (n - 1) as u32, loc);
        let next = scan_column(r, st, x, n, loc);
        assert forall|y: u32| y < n && is_special(pix(r, x as int, y as int)) implies #[trigger] covers(next, (x, y)) by {
            if y < n - 1 {
                assert(covers(prev, (x, y)));
                if !prev.bad {
                    assert(prev.specials.contains_key(key((x, y))));
                }
            }
        }
    }
}

proof fn lemma_scan_columns(r: RiversView, n: int, loc: Loc)
    requires
        pixels_cover(r),
        0 <= n <= r.width,
    ensures
        values_in_image(r, scan_columns(r, n, loc).segments),
        cols_covered(r, scan_columns(r, n, loc), n),
    decreases n,
{
    if n > 0 {
        lemma_scan_columns(r, n - 1, loc);
        let prev = scan_columns(r, n - 1, loc);
        lemma_scan_column(r, prev, (n - 1) as u32, r.height as int, loc);
        let next = scan_columns(r, n, loc);
        assert forall|x: u32, y: u32|
            x < n && y < r.height && is_special(pix(r, x as int, y as int)) implies #[trigger] covers(next, (x, y)) by {
            if x < n - 1 {
                assert(covers(prev, (x, y)));
                if !prev.bad {
                    assert(prev.specials.contains_key(key((x, y))));
                }
            }
        }
    }
}

impl Default for Rivers {
    fn default() -> (r: Rivers)
        ensures
            r@ == (RiversView {
                entry: None,
                width: 0,
                height: 0,
                indexed: false,
                has_palette: false,
                pixels: Seq::empty(),
            }),
    {
        Rivers { entry: None, width: 0, height: 0, indexed: false, has_palette: false, pixels: Vec::new() }
    }
}

impl Rivers {
    /// The content of a `Rivers` before anything is loaded.
    pub open spec fn default_view() -> RiversView {
        RiversView { entry: None, width: 0, height: 0, indexed: false, has_palette: false, pixels: Seq::empty() }
    }

    /// Take in what the PNG decoder gave for `rivers.png`: the header and the pixels as far as
    /// they were read, and `Err` if decoding stopped or the frame does not agree with the header.
    pub fn load_decoded(&mut self, decoded: PngDecoded) -> (r: Result<(), String>)
        ensures
            final(self)@ == png_loaded(old(self)@, decoded@),
            r is Ok <==> png_load_error(decoded@) is None,
            r matches Err(e) ==> png_load_error(decoded@) == Some(e@),
    {
        match decoded {
            PngDecoded::InfoError(e) => Err(e),
            PngDecoded::FrameError(info, pixels, e) => {
                self.take_header(info, pixels);
                Err(e)
            },
            PngDecoded::Frame(info, pixels, frame) => {
                self.take_header(info, pixels);
                if frame.width != info.width || frame.height != info.height || frame.color_type != info.color_type {
                    Err("PNG frame did not match image info".to_string())
                } else {
                    Ok(())
                }
            },
        }
    }

    fn take_header(&mut self, info: PngInfo, pixels: Vec<u8>)
        ensures
            final(self)@ == png_header_loaded(old(self)@, info, pixels@),
    {
        self.width = info.width;
        self.height = info.height;
        self.indexed = info.color_type == PNG_INDEXED;
        if info.has_palette {
            self.has_palette = true;
        }
        self.pixels = pixels;
    }

    /// Decode `rivers.png` from its bytes into this value, as [`Rivers::load_decoded`] says.
    pub fn load_png(&mut self, bytes: &[u8]) -> (r: Result<(), String>)
        ensures
            final(self)@ == png_loaded(old(self)@, png_decoded(bytes@)),
            r is Ok <==> png_load_error(png_decoded(bytes@)) is None,
            r matches Err(e) ==> png_load_error(png_decoded(bytes@)) == Some(e@),
    {
        self.load_decoded(png_decode(bytes))
    }

    /// Take in `rivers.png`, at `entry`: its bytes, or why they could not be read. Reading or
    /// decoding that fails is reported; what was decoded before it failed is kept.
    pub fn load_file(&mut self, entry: Loc, bytes: Result<&[u8], &str>, errors: &mut Errors)
        ensures
            final(self)@ == (match bytes {
                Ok(b) => RiversView { entry: Some(entry), ..png_loaded(old(self)@, png_decoded(b@)) },
                Err(_) => RiversView { entry: Some(entry), ..old(self)@ },
            }),
            final(errors).logged(
                old(errors),
                match (match bytes {
                    Ok(b) => png_load_error(png_decoded(b@)),
                    Err(e) => Some(e@),
                }) {
                    Some(e) => seq![
                        simple_report(
                            ErrorKey::ReadError,
                            Severity::Error,
                            Confidence::Reasonable,
                            "could not read image"@,
                            info_of(e),
                            entry,
                        ),
                    ],
                    None => Seq::empty(),
                },
            ),
    {
        self.entry = Some(entry);
        let result = match bytes {
            Ok(b) => self.load_png(b),
            Err(e) => Err(e.to_string()),
        };
        match result {
            Err(e) => {
                err(ErrorKey::ReadError).msg("could not read image").info(e.as_str()).loc(entry).push(errors);
            },
            Ok(()) => {
                proof {
                    lemma_logged_nothing(errors);
                }
            },
        }
    }

    /// Whether checking the pixels stays inside them: true unless the image is indexed with a
    /// palette and its pixels do not cover it.
    pub fn pixels_in_range(&self) -> (b: bool)
        ensures
            b == (self@.indexed && self@.has_palette ==> pixels_cover(self@)),
    {
        if !(self.indexed && self.has_palette) {
            return true;
        }
        let w = self.width as u64;
        let h = self.height as u64;
        proof {
            assert(w * h <= 0xffff_ffff * 0xffff_ffff) by (nonlinear_arith)
                requires
                    w <= 0xffff_ffff,
                    h <= 0xffff_ffff,
            ;
        }
        let area = w * h;
        area <= 0xffff_ffff && self.pixels.len() as u64 >= area
    }

    /// The path of the file, under the game or mod root.
    pub fn subpath() -> (s: &'static str)
        ensures
            s@ == "map_data/rivers.png"@,
    {
        "map_data/rivers.png"
    }

    /// Take in `rivers.png`, at `entry`: as much of the image as was read, and, if reading
    /// stopped early, why.
    pub fn handle_file(&mut self, entry: Loc, image: RiverImage, error: Option<&str>, errors: &mut Errors)
        ensures
            final(self)@ == (RiversView {
                entry: Some(entry),
                width: image.width,
                height: image.height,
                indexed: image.indexed,
                has_palette: image.has_palette,
                pixels: image.pixels@,
            }),
            final(errors).logged(
                old(errors),
                match error {
                    Some(e) => seq![
                        simple_report(
                            ErrorKey::ReadError,
                            Severity::Error,
                            Confidence::Reasonable,
                            "could not read image"@,
                            info_of(e@),
                            entry,
                        ),
                    ],
                    None => Seq::empty(),
                },
            ),
    {
        self.entry = Some(entry);
        self.width = image.width;
        self.height = image.height;
        self.indexed = image.indexed;
        self.has_palette = image.has_palette;
        self.pixels = image.pixels;
        match error {
            Some(e) => {
                err(ErrorKey::ReadError).msg("could not read image").info(e).loc(entry).push(errors);
            },
            None => {
                proof {
                    lemma_logged_nothing(errors);
                }
            },
        }
    }
}

impl Rivers {
    /// The pixel at `(x, y)`.
    fn pixel(&self, x: u32, y: u32) -> (p: u8)
        requires
            pixels_cover(self@),
            in_image(self@, x as int, y as int),
        ensures
            p == pix(self@, x as int, y as int),
    {
        proof {
            assert(x + self.width * y < self.width * self.height) by (nonlinear_arith)
                requires
                    x < self.width,
                    y < self.height,
            ;
        }
        let idx = x + self.width * y;
        self.pixels[idx as usize]
    }

    /// The neighbors of `(x, y)` that are river pixels.
    fn river_neighbors(&self, x: u32, y: u32) -> (v: Vec<Coords>)
        requires
            pixels_cover(self@),
            in_image(self@, x as int, y as int),
        ensures
            v@ == river_neighbors(self@, x, y),
    {
        let mut v: Vec<Coords> = Vec::new();
        let ghost r = self@;
        if x > 0 && FIRST_NORMAL <= self.pixel(x - 1, y) && self.pixel(x - 1, y) <= LAST_NORMAL {
            v.push((x - 1, y));
        }
        let ghost v1 = v@;
        if y > 0 && FIRST_NORMAL <= self.pixel(x, y - 1) && self.pixel(x, y - 1) <= LAST_NORMAL {
            v.push((x, y - 1));
        }
        let ghost v2 = v@;
        if x + 1 < self.width && FIRST_NORMAL <= self.pixel(x + 1, y) && self.pixel(x + 1, y) <= LAST_NORMAL {
            v.push((x + 1, y));
        }
        let ghost v3 = v@;
        if y + 1 < self.height && FIRST_NORMAL <= self.pixel(x, y + 1) && self.pixel(x, y + 1) <= LAST_NORMAL {
            v.push((x, y + 1));
        }
        proof {
            assert(v@ =~= river_neighbors(r, x, y));
        }
        v
    }

    /// Take in the pixel at `(x, y)`, as [`pixel_step`] does from the state `segs`, `specials`,
    /// `bad` and the reports logged since `base`.
    #[verifier::rlimit(40)]
    fn scan_pixel(
        &self,
        x: u32,
        y: u32,
        segs: &mut HashMap<u64, Coords>,
        specials: &mut HashMap<u64, bool>,
        bad: &mut bool,
        loc: Loc,
        errors: &mut Errors,
        Ghost(base): Ghost<Errors>,
        Ghost(reports): Ghost<Seq<ReportView>>,
    )
        requires
            pixels_cover(self@),
            in_image(self@, x as int, y as int),
            old(errors).logged(&base, reports),
        ensures
            ({
                let st0 = RiverScan { segments: old(segs)@, specials: old(specials)@, reports, bad: *old(bad) };
                let st1 = pixel_step(self@, st0, x, y, loc);
                &&& final(segs)@ == st1.segments
                &&& final(specials)@ == st1.specials
                &&& *final(bad) == st1.bad
                &&& final(errors).logged(&base, st1.reports)
            }),
    {
        broadcast use vstd::std_specs::hash::group_hash_axioms;
        let ghost r = self@;
        let ghost st0 = RiverScan { segments: segs@, specials: specials@, reports, bad: *bad };
        let c: Coords = (x, y);
        let kc = key_exec(c);
        let p = self.pixel(x, y);
        let ns = self.river_neighbors(x, y);
        let ghost e0 = *errors;
        if p == SOURCE || p == TRIBUTARY || p == SPLIT {
            let ok = if p == SOURCE {
                ns.len() == 1
            } else {
                ns.len() >= 2
            };
            if ok {
                specials.insert(kc, false);
            } else {
                let what = if p == SOURCE {
                    " river source (green) not at source of a river"
                } else if p == TRIBUTARY {
                    " river tributary (red) not joining another river"
                } else {
                    " river split (yellow) not splitting off from a river"
                };
                let msg = concat_str(coords_string(c).as_str(), what);
                warn(ErrorKey::Rivers).msg(msg.as_str()).loc(loc).push(errors);
                *bad = true;
                proof {
                    lemma_logged_trans(&base, &e0, errors, reports, seq![river_report(loc, msg@)]);
                    assert(reports + seq![river_report(loc, msg@)] =~= reports.push(river_report(loc, msg@)));
                }
            }
        } else if FIRST_NORMAL <= p && p <= LAST_NORMAL {
            if ns.len() <= 2 {
                let mut found = false;
                let mut j: usize = 0;
                let ghost mut rs = reports;
                proof {
                    assert(ns@.take(0) =~= Seq::<Coords>::empty());
                }
                while j < ns.len()
                    invariant
                        j <= ns@.len(),
                        ns@ == river_neighbors(r, x, y),
                        ({
                            let (st, f) = join_all(st0, false, c, ns@.take(j as int), loc);
                            &&& segs@ == st.segments
                            &&& specials@ == st.specials
                            &&& *bad == st.bad
                            &&& found == f
                            &&& rs == st.reports
                        }),
                        errors.logged(&base, rs),
                        kc == key(c),
                    decreases ns@.len() - j,
                {
                    proof {
                        assert(ns@.take(j + 1).drop_last() =~= ns@.take(j as int));
                        assert(ns@.take(j + 1).last() == ns@[j as int]);
                    }
                    let coords = ns[j];
                    let kn = key_exec(coords);
                    let other = match segs.get(&kn) {
                        Some(v) => Some(*v),
                        None => None,
                    };
                    match other {
                        Some(other_end) => {
                            found = true;
                            let third = match segs.get(&kc) {
                                Some(v) => Some(*v),
                                None => None,
                            };
                            match third {
                                Some(third_end) => {
                                    if third_end.0 == c.0 && third_end.1 == c.1 {
                                        let ghost e1 = *errors;
                                        let msg = concat_str(coords_string(c).as_str(), " river forms a loop");
                                        warn(ErrorKey::Rivers).msg(msg.as_str()).loc(loc).push(errors);
                                        *bad = true;
                                        proof {
                                            let rep = river_report(loc, msg@);
                                            lemma_logged_trans(&base, &e1, errors, rs, seq![rep]);
                                            assert(rs + seq![rep] =~= rs.push(rep));
                                            rs = rs.push(rep);
                                        }
                                    } else {
                                        segs.insert(key_exec(other_end), third_end);
                                        segs.insert(key_exec(third_end), other_end);
                                        segs.remove(&kc);
                                        segs.remove(&kn);
                                    }
                                },
                                None => {
                                    segs.insert(kc, other_end);
                                    segs.insert(key_exec(other_end), c);
                                    segs.remove(&kn);
                                },
                            }
                        },
                        None => {},
                    }
                    j = j + 1;
                }
                proof {
                    assert(ns@.take(j as int) =~= ns@);
                }
                if !found {
                    segs.insert(kc, c);
                }
            } else {
                let m1 = concat_str(coords_string(c).as_str(), " river pixel has ");
                let m2 = concat_str(m1.as_str(), usize_to_string(ns.len()).as_str());
                let msg = concat_str(m2.as_str(), " neighbors");
                warn(ErrorKey::Rivers).msg(msg.as_str()).loc(loc).push(errors);
                *bad = true;
                proof {
                    lemma_logged_trans(&base, &e0, errors, reports, seq![river_report(loc, msg@)]);
                    assert(reports + seq![river_report(loc, msg@)] =~= reports.push(river_report(loc, msg@)));
                }
            }
        }
    }

    /// Take the special pixel `s` as the end of a segment, as [`claim`] does.
    fn claim_special(
        &self,
        s: Coords,
        specials: &mut HashMap<u64, bool>,
        loc: Loc,
        errors: &mut Errors,
        Ghost(base): Ghost<Errors>,
        Ghost(w): Ghost<SegmentWalk>,
    )
        requires
            old(specials)@ == w.specials,
            old(specials)@.contains_key(key(s)),
            old(errors).logged(&base, w.reports),
        ensures
            final(specials)@ == claim(w, s, loc).specials,
            final(errors).logged(&base, claim(w, s, loc).reports),
    {
        broadcast use vstd::std_specs::hash::group_hash_axioms;
        let ks = key_exec(s);
        let taken = match specials.get(&ks) {
            Some(b) => *b,
            None => false,
        };
        if taken {
            let ghost e1 = *errors;
            let msg = concat_str(coords_string(s).as_str(), " pixel terminates multiple river segments");
            warn(ErrorKey::Rivers).msg(msg.as_str()).loc(loc).push(errors);
            proof {
                let rep = river_report(loc, msg@);
                lemma_logged_trans(&base, &e1, errors, w.reports, seq![rep]);
                assert(w.reports + seq![rep] =~= w.reports.push(rep));
            }
        } else {
            specials.insert(ks, true);
        }
    }

    /// Walk the segments from their ends, column by column, as [`walk_columns`] does.
    #[verifier::rlimit(60)]
    fn validate_segments(&self, segs: &HashMap<u64, Coords>, specials: HashMap<u64, bool>, loc: Loc, errors: &mut Errors)
        requires
            pixels_cover(self@),
            values_in_image(self@, segs@),
            forall|x: u32, y: u32|
                x < self@.width && y < self@.height && is_special(pix(self@, x as int, y as int))
                    ==> #[trigger] specials@.contains_key(key((x, y))),
        ensures
            final(errors).logged(old(errors), walk_columns(self@, segs@, specials@, self@.width as int, loc).reports),
    {
        broadcast use vstd::std_specs::hash::group_hash_axioms;
        let ghost r = self@;
        let ghost sp0 = specials@;
        let mut specials = specials;
        let mut seen: HashSet<u64> = HashSet::new();
        proof {
            lemma_logged_nothing(errors);
        }
        let mut x: u32 = 0;
        while x < self.width
            invariant
                r == self@,
                pixels_cover(r),
                values_in_image(r, segs@),
                x <= r.width,
                ({
                    let w = walk_columns(r, segs@, sp0, x as int, loc);
                    &&& specials@ == w.specials
                    &&& seen@ == w.seen
                    &&& errors.logged(old(errors), w.reports)
                }),
                forall|a: u32, b: u32|
                    a < r.width && b < r.height && is_special(pix(r, a as int, b as int))
                        ==> #[trigger] specials@.contains_key(key((a, b))),
            decreases r.width - x,
        {
            let ghost w0 = walk_columns(r, segs@, sp0, x as int, loc);
            let mut y: u32 = 0;
            while y < self.height
                invariant
                    r == self@,
                    pixels_cover(r),
                    values_in_image(r, segs@),
                    x < r.width,
                    y <= r.height,
                    w0 == walk_columns(r, segs@, sp0, x as int, loc),
                    ({
                        let w = walk_column(r, segs@, w0, x, y as int, loc);
                        &&& specials@ == w.specials
                        &&& seen@ == w.seen
                        &&& errors.logged(old(errors), w.reports)
                    }),
                    forall|a: u32, b: u32|
                        a < r.width && b < r.height && is_special(pix(r, a as int, b as int))
                            ==> #[trigger] specials@.contains_key(key((a, b))),
                decreases r.height - y,
            {
                let ghost w = walk_column(r, segs@, w0, x, y as int, loc);
                let start: Coords = (x, y);
                let ks = key_exec(start);
                let found = match segs.get(&ks) {
                    Some(v) => Some(*v),
                    None => None,
                };
                match found {
                    Some(end) => {
                        if !seen.contains(&ks) {
                            seen.insert(key_exec(end));
                            let ghost w1 = SegmentWalk { seen: w.seen.insert(key(end)), ..w };
                            proof {
                                assert(segs@.contains_key(ks));
                                assert(in_image(r, end.0 as int, end.1 as int));
                                lemma_neighbors_in_image(r, x, y, |p: u8| is_special(p));
                                lemma_neighbors_in_image(r, end.0, end.1, |p: u8| is_special(p));
                            }
                            if start.0 == end.0 && start.1 == end.1 {
                                let sn = self.special_neighbors(start);
                                if sn.len() > 1 {
                                    let ghost e1 = *errors;
                                    let msg = concat_str(coords_string(start).as_str(), " river pixel connects two special pixels");
                                    warn(ErrorKey::Rivers).msg(msg.as_str()).loc(loc).push(errors);
                                    proof {
                                        let rep = river_report(loc, msg@);
                                        lemma_logged_trans(old(errors), &e1, errors, w.reports, seq![rep]);
                                        assert(w.reports + seq![rep] =~= w.reports.push(rep));
                                    }
                                } else if sn.len() == 0 {
                                    let ghost e1 = *errors;
                                    let msg = concat_str(coords_string(start).as_str(), " orphan river pixel");
                                    warn(ErrorKey::Rivers).msg(msg.as_str()).loc(loc).push(errors);
                                    proof {
                                        let rep = river_report(loc, msg@);
                                        lemma_logged_trans(old(errors), &e1, errors, w.reports, seq![rep]);
                                        assert(w.reports + seq![rep] =~= w.reports.push(rep));
                                    }
                                } else {
                                    let s0 = sn[0];
                                    proof {
                                        assert(is_special(pix(r, s0.0 as int, s0.1 as int)));
                                        assert(in_image(r, s0.0 as int, s0.1 as int));
                                        assert(specials@.contains_key(key((s0.0, s0.1))));
                                    }
                                    self.claim_special(s0, &mut specials, loc, errors, Ghost(*old(errors)), Ghost(w1));
                                }
                            } else {
                                let mut sn = self.special_neighbors(start);
                                let mut sn2 = self.special_neighbors(end);
                                let ghost sa = sn@;
                                let ghost sb = sn2@;
                                sn.append(&mut sn2);
                                proof {
                                    assert(sn@ == sa + sb);
                                }
                                if sn.len() == 0 {
                                    let ghost e1 = *errors;
                                    let m1 = concat_str(coords_string(start).as_str(), " - ");
                                    let m2 = concat_str(m1.as_str(), coords_string(end).as_str());
                                    let msg = concat_str(m2.as_str(), " orphan river segment");
                                    warn(ErrorKey::Rivers).msg(msg.as_str()).loc(loc).push(errors);
                                    proof {
                                        let rep = river_report(loc, msg@);
                                        lemma_logged_trans(old(errors), &e1, errors, w.reports, seq![rep]);
                                        assert(w.reports + seq![rep] =~= w.reports.push(rep));
                                    }
                                } else if sn.len() > 1 {
                                    let ghost e1 = *errors;
                                    let m1 = concat_str(coords_string(start).as_str(), " - ");
                                    let m2 = concat_str(m1.as_str(), coords_string(end).as_str());
                                    let msg = concat_str(m2.as_str(), " river segment has two terminators");
                                    warn(ErrorKey::Rivers).msg(msg.as_str()).loc(loc).push(errors);
                                    proof {
                                        let rep = river_report(loc, msg@);
                                        lemma_logged_trans(old(errors), &e1, errors, w.reports, seq![rep]);
                                        assert(w.reports + seq![rep] =~= w.reports.push(rep));
                                    }
                                } else {
                                    let s0 = sn[0];
                                    proof {
                                        if sa.len() > 0 {
                                            assert(s0 == sa[0]);
                                        } else {
                                            assert(s0 == sb[0]);
                                        }
                                        assert(is_special(pix(r, s0.0 as int, s0.1 as int)));
                                        assert(in_image(r, s0.0 as int, s0.1 as int));
                                        assert(specials@.contains_key(key((s0.0, s0.1))));
                                    }
                                    self.claim_special(s0, &mut specials, loc, errors, Ghost(*old(errors)), Ghost(w1));
                                }
                            }
                        }
                    },
                    None => {},
                }
                proof {
                    assert forall|a: u32, b: u32|
                        a < r.width && b < r.height && is_special(pix(r, a as int, b as int))
                            implies #[trigger] specials@.contains_key(key((a, b))) by {
                        assert(w.specials.contains_key(key((a, b))));
                    }
                }
                y = y + 1;
            }
            x = x + 1;
        }
    }

    /// Check `rivers.png`: its format, its pixels, and the river segments they form. Nothing is
    /// checked of the rivers if their reports would not be shown anyway.
    pub fn validate(&self, _data: &Everything, errors: &mut Errors)
        requires
            self@.entry is Some,
            self@.indexed && self@.has_palette ==> pixels_cover(self@),
        ensures
            final(errors).logged(
                old(errors),
                rivers_reports(
                    self@,
                    self@.entry->0,
                    old(errors).filter.spec_should_maybe_print(ErrorKey::Rivers, self@.entry->0),
                ),
            ),
    {
        let loc = match self.entry {
            Some(l) => l,
            None => return,
        };
        if !self.indexed {
            err(ErrorKey::ImageFormat).msg("rivers.png should be in indexed color format (with 8-bit palette)").loc(loc).push(
                errors,
            );
            return;
        }
        if !self.has_palette {
            err(ErrorKey::ImageFormat).msg("rivers.png must have an 8-bit palette").loc(loc).push(errors);
            return;
        }
        if !will_maybe_log(errors, loc, ErrorKey::Rivers) {
            proof {
                lemma_logged_nothing(errors);
            }
            return;
        }
        let ghost r = self@;
        let mut segs: HashMap<u64, Coords> = HashMap::new();
        let mut specials: HashMap<u64, bool> = HashMap::new();
        let mut bad = false;
        proof {
            lemma_logged_nothing(errors);
            assert(segs@ =~= Map::<u64, Coords>::empty());
            assert(specials@ =~= Map::<u64, bool>::empty());
        }
        let mut x: u32 = 0;
        while x < self.width
            invariant
                r == self@,
                pixels_cover(r),
                x <= r.width,
                ({
                    let st = scan_columns(r, x as int, loc);
                    &&& segs@ == st.segments
                    &&& specials@ == st.specials
                    &&& bad == st.bad
                    &&& errors.logged(old(errors), st.reports)
                }),
            decreases r.width - x,
        {
            let ghost st0 = scan_columns(r, x as int, loc);
            let mut y: u32 = 0;
            while y < self.height
                invariant
                    r == self@,
                    pixels_cover(r),
                    x < r.width,
                    y <= r.height,
                    st0 == scan_columns(r, x as int, loc),
                    ({
                        let st = scan_column(r, st0, x, y as int, loc);
                        &&& segs@ == st.segments
                        &&& specials@ == st.specials
                        &&& bad == st.bad
                        &&& errors.logged(old(errors), st.reports)
                    }),
                decreases r.height - y,
            {
                let ghost st = scan_column(r, st0, x, y as int, loc);
                self.scan_pixel(x, y, &mut segs, &mut specials, &mut bad, loc, errors, Ghost(*old(errors)), Ghost(st.reports));
                y = y + 1;
            }
            x = x + 1;
        }
        let ghost st = scan_columns(r, r.width as int, loc);
        if !bad {
            proof {
                lemma_scan_columns(r, r.width as int, loc);
                assert forall|a: u32, b: u32|
                    a < r.width && b < r.height && is_special(pix(r, a as int, b as int))
                        implies #[trigger] specials@.contains_key(key((a, b))) by {
                    assert(covers(st, (a, b)));
                }
            }
            let ghost e1 = *errors;
            self.validate_segments(&segs, specials, loc, errors);
            proof {
                lemma_logged_trans(old(errors), &e1, errors, st.reports, walk_columns(r, st.segments, st.specials, r.width as int, loc).reports);
            }
        }
    }

    /// The neighbors of `(x, y)` that are special pixels.
    fn special_neighbors(&self, c: Coords) -> (v: Vec<Coords>)
        requires
            pixels_cover(self@),
            in_image(self@, c.0 as int, c.1 as int),
        ensures
            v@ == special_neighbors(self@, c.0, c.1),
    {
        let (x, y) = c;
        let mut v: Vec<Coords> = Vec::new();
        let ghost r = self@;
        if x > 0 && self.pixel(x - 1, y) <= LAST_SPECIAL {
            v.push((x - 1, y));
        }
        if y > 0 && self.pixel(x, y - 1) <= LAST_SPECIAL {
            v.push((x, y - 1));
        }
        if x + 1 < self.width && self.pixel(x + 1, y) <= LAST_SPECIAL {
            v.push((x + 1, y));
        }
        if y + 1 < self.height && self.pixel(x, y + 1) <= LAST_SPECIAL {
            v.push((x, y + 1));
        }
        proof {
            assert(v@ =~= special_neighbors(r, x, y));
        }
        v
    }
}

} // verus!
