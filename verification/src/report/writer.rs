//! Laying out a report for the terminal: a title line, then for each pointer its file, the
//! source line and carets under the place it points at, and the info line. Each line is a list
//! of pieces of text with the style to print them in.
use vstd::prelude::*;

use crate::fileset::FileKind;
use crate::pathtable::PathTable;
use crate::report::report_struct::{max_line_len, LogReport, PointedMessage, PointerView, ReportView, Severity};
use crate::report::errors::Errors;
use crate::text::{concat_str, nat_decimal, string_from_chars, string_of, string_push, usize_to_string};

verus! {

/// The parts of the output that each have their own style.
#[derive(Clone, Copy, Debug, PartialEq, Eq, Hash, Structural)]
pub enum Styled {
    Default,
    /// The severity (with `true`) or the error key (with `false`) of a report.
    Tag(Severity, bool),
    /// The error message, telling the user what is wrong.
    ErrorMessage,
    /// Introduces the info of a report.
    InfoTag,
    /// The info of a report.
    Info,
    /// File names, line numbers and their frames.
    Location,
    /// The carets under the place a report points at.
    Caret,
    /// Text from the source file.
    SourceText,
    /// Text to emphasize.
    Emphasis,
}

/// A piece of a line: its style and its text.
pub type Piece = (Styled, Seq<char>);

/// The content of a line of pieces.
pub open spec fn line_view(l: Seq<(Styled, String)>) -> Seq<Piece> {
    l.map_values(|p: (Styled, String)| (p.0, p.1@))
}

/// The content of lines of pieces.
pub open spec fn lines_view(v: Seq<Vec<(Styled, String)>>) -> Seq<Seq<Piece>> {
    v.map_values(|l: Vec<(Styled, String)>| line_view(l@))
}

/// The display width that the `unicode-width` crate gives a char, or none for a control char.
pub uninterp spec fn unicode_char_width(c: char) -> Option<usize>;

/// `UnicodeWidthChar::width` of the `unicode-width` crate: the columns that `c` takes up when
/// displayed, or `None` for a control char. The contract names the result and states what the
/// crate's code decides before it consults its tables: printable ASCII is one column wide, the
/// other chars below U+00A0 are control chars, and every char from U+00A0 up has a width. Which
/// width that is, the tables decide; it is not stated.
#[verifier::external_body]
fn char_width(c: char) -> (r: Option<usize>)
    ensures
        r == unicode_char_width(c),
        (c as u32) < 0x20 ==> r is None,
        0x20 <= (c as u32) < 0x7F ==> r == Some(1usize),
        0x7F <= (c as u32) < 0xA0 ==> r is None,
        0xA0 <= (c as u32) ==> r is Some,
{
    unicode_width::UnicodeWidthChar::width(c)
}

/// `n` spaces.
pub open spec fn spaces(n: int) -> Seq<char> {
    Seq::new(n as nat, |i: int| ' ')
}

/// `n` carets.
pub open spec fn carets(n: int) -> Seq<char> {
    Seq::new(n as nat, |i: int| '^')
}

/// `s` padded with spaces on the left to `width` chars.
pub open spec fn pad_left(s: Seq<char>, width: int) -> Seq<char> {
    if s.len() < width {
        spaces(width - s.len()) + s
    } else {
        s
    }
}

/// The name of a severity in reports.
pub open spec fn severity_text(s: Severity) -> Seq<char> {
    match s {
        Severity::Tips => "tips"@,
        Severity::Untidy => "untidy"@,
        Severity::Warning => "warning"@,
        Severity::Error => "error"@,
        Severity::Fatal => "fatal"@,
    }
}

/// The name of a severity in reports.
pub fn severity_name(s: Severity) -> (r: &'static str)
    ensures
        r@ == severity_text(s),
{
    match s {
        Severity::Tips => "tips",
        Severity::Untidy => "untidy",
        Severity::Warning => "warning",
        Severity::Error => "error",
        Severity::Fatal => "fatal",
    }
}

/// The tag of a kind of file, given the labels of the extra loaded mods and of the DLCs.
pub open spec fn kind_tag_text(kind: FileKind, mods: Seq<Seq<char>>, dlcs: Seq<Seq<char>>) -> Seq<char> {
    match kind {
        FileKind::Internal => "Internal"@,
        FileKind::Clausewitz => "Clausewitz"@,
        FileKind::Jomini => "Jomini"@,
        FileKind::Vanilla => "CK3"@,
        FileKind::Dlc(i) => dlcs[i as int],
        FileKind::LoadedMod(i) => mods[i as int],
        FileKind::Mod => "MOD"@,
    }
}

/// Whether the tag of the kind of file can be looked up.
pub open spec fn kind_ok(kind: FileKind, mods: Seq<Seq<char>>, dlcs: Seq<Seq<char>>) -> bool {
    match kind {
        FileKind::Dlc(i) => (i as int) < dlcs.len(),
        FileKind::LoadedMod(i) => (i as int) < mods.len(),
        _ => true,
    }
}

/// What the output refers to: the file paths and the labels of loaded mods and DLCs.
pub struct Frame {
    pub paths: Seq<(Seq<char>, Seq<char>)>,
    pub mods: Seq<Seq<char>>,
    pub dlcs: Seq<Seq<char>>,
}

/// The path of the file a pointer points into.
pub open spec fn path_of(f: Frame, p: PointerView) -> Seq<char> {
    f.paths[p.loc.idx.0 as int].0
}

/// The title line: severity, error key and message.
pub open spec fn title_line(r: ReportView) -> Seq<Piece> {
    seq![
        (Styled::Tag(r.severity, true), severity_text(r.severity)),
        (Styled::Tag(r.severity, false), "("@ + r.key.spec_name() + ")"@),
        (Styled::Default, ": "@),
        (Styled::ErrorMessage, r.msg),
    ]
}

/// The info line.
pub open spec fn info_line(ind: int, info: Seq<char>) -> Seq<Piece> {
    seq![
        (Styled::Default, spaces(ind)),
        (Styled::Default, " "@),
        (Styled::Location, "="@),
        (Styled::Default, " "@),
        (Styled::InfoTag, "Info:"@),
        (Styled::Default, " "@),
        (Styled::Info, info),
    ]
}

/// The line that names the file a pointer points into.
pub open spec fn file_line(f: Frame, p: PointerView, ind: int) -> Seq<Piece> {
    seq![
        (Styled::Default, spaces(ind)),
        (Styled::Location, "-->"@),
        (Styled::Default, " "@),
        (Styled::Location, "["@ + kind_tag_text(p.loc.kind, f.mods, f.dlcs) + "]"@),
        (Styled::Default, " "@),
        (Styled::Location, path_of(f, p)),
    ]
}

/// The source line, after its line number.
pub open spec fn source_line(p: PointerView, ind: int, line: Seq<char>) -> Seq<Piece> {
    seq![
        (Styled::Location, pad_left(nat_decimal(p.loc.line as nat), ind)),
        (Styled::Default, " "@),
        (Styled::Location, "|"@),
        (Styled::Default, " "@),
        (Styled::SourceText, line),
    ]
}

/// The columns that the chars of `s` take up, control chars taking none.
pub open spec fn width_sum(s: Seq<char>) -> int
    decreases s.len(),
{
    if s.len() == 0 {
        0
    } else {
        width_sum(s.drop_last()) + match unicode_char_width(s.last()) {
            Some(w) => w as int,
            None => 0,
        }
    }
}

proof fn lemma_width_sum_nonneg(s: Seq<char>)
    ensures
        width_sum(s) >= 0,
    decreases s.len(),
{
    if s.len() > 0 {
        lemma_width_sum_nonneg(s.drop_last());
    }
}

/// The column before the pointer, counted after the `skip` skipped chars.
pub open spec fn lead_cols(col: int, skip: int) -> int {
    if col > skip + 1 {
        col - (skip + 1)
    } else {
        0
    }
}

/// The line of carets under the place the pointer points at, with its message.
pub open spec fn caret_line(p: PointerView, line: Seq<char>, skip: int, ind: int, sev: Severity) -> Seq<Piece> {
    let rest = line.skip(if skip < line.len() { skip } else { line.len() as int });
    let n = lead_cols(p.loc.column as int, skip);
    let before = rest.take(if n < rest.len() { n } else { rest.len() as int });
    seq![
        (Styled::Default, spaces(ind)),
        (Styled::Default, " "@),
        (Styled::Location, "|"@),
        (Styled::Default, " "@),
        (Styled::Default, spaces(width_sum(before))),
        (Styled::Tag(sev, true), carets(p.length as int)),
        (Styled::Default, " "@),
        (Styled::Tag(sev, true), if p.msg is Some {
            "<-- "@
        } else {
            ""@
        }),
        (Styled::Tag(sev, true), match p.msg {
            Some(m) => m,
            None => ""@,
        }),
    ]
}

/// The lines for a pointer: the file if it differs from the previous pointer's, and unless the
/// pointer is to a whole file, its source line (if known) with carets under it.
pub open spec fn pointer_lines(
    f: Frame,
    prev: Option<PointerView>,
    p: PointerView,
    line: Option<Seq<char>>,
    skip: int,
    ind: int,
    sev: Severity,
) -> Seq<Seq<Piece>> {
    let head = match prev {
        Some(q) => if path_of(f, q) != path_of(f, p) || q.loc.kind != p.loc.kind {
            seq![file_line(f, p, ind)]
        } else {
            Seq::empty()
        },
        None => seq![file_line(f, p, ind)],
    };
    if p.loc.line == 0 {
        head
    } else {
        match line {
            Some(l) => {
                let l2 = l.skip(skip);
                head + seq![source_line(p, ind, l2), caret_line(p, l2, skip, ind, sev)]
            },
            None => head,
        }
    }
}

/// The source line with its tabs replaced by spaces.
pub open spec fn untab(s: Seq<char>) -> Seq<char> {
    s.map_values(|c: char| if c == '\t' { ' ' } else { c })
}

/// The number of spaces that `s` starts with.
pub open spec fn lead_spaces(s: Seq<char>) -> int
    decreases s.len(),
{
    if s.len() > 0 && s[0] == ' ' {
        1 + lead_spaces(s.skip(1))
    } else {
        0
    }
}

/// The fewest leading spaces of the known lines among the first `n`.
pub open spec fn min_lead(ls: Seq<Option<Seq<char>>>, n: int) -> Option<int>
    decreases n,
{
    if n <= 0 {
        None
    } else {
        let m = min_lead(ls, n - 1);
        match ls[n - 1] {
            Some(l) => match m {
                Some(k) => Some(if lead_spaces(l) < k { lead_spaces(l) } else { k }),
                None => Some(lead_spaces(l)),
            },
            None => m,
        }
    }
}

/// How many leading spaces to skip on each source line: all but four of the fewest.
pub open spec fn skippable(ls: Seq<Option<Seq<char>>>) -> int {
    match min_lead(ls, ls.len() as int) {
        Some(k) => if k > 4 { k - 4 } else { 0 },
        None => 0,
    }
}

/// The source line at pointer `i`, if known, with its tabs replaced.
pub open spec fn line_at(ls: Seq<Option<Seq<char>>>, i: int) -> Option<Seq<char>> {
    if 0 <= i < ls.len() {
        match ls[i] {
            Some(l) => Some(untab(l)),
            None => None,
        }
    } else {
        None
    }
}

/// The source lines with their tabs replaced.
pub open spec fn untabbed(ls: Seq<Option<Seq<char>>>) -> Seq<Option<Seq<char>>> {
    Seq::new(ls.len(), |i: int| line_at(ls, i))
}

/// The lines for the pointers after the first, up to pointer `n`.
pub open spec fn later_pointer_lines(
    f: Frame,
    r: ReportView,
    ls: Seq<Option<Seq<char>>>,
    skip: int,
    ind: int,
    n: int,
) -> Seq<Seq<Piece>>
    decreases n,
{
    if n <= 1 {
        Seq::empty()
    } else {
        later_pointer_lines(f, r, ls, skip, ind, n - 1) + pointer_lines(
            f,
            Some(r.pointers[n - 2]),
            r.pointers[n - 1],
            line_at(ls, n - 1),
            skip,
            ind,
            r.severity,
        )
    }
}

/// The lines of a report, given the source line at each pointer where it is known: the title,
/// the lines of each pointer, the info line if there is info, and a blank line.
pub open spec fn spec_report_lines(f: Frame, r: ReportView, ls: Seq<Option<Seq<char>>>) -> Seq<Seq<Piece>> {
    let skip = skippable(untabbed(ls));
    let ind = max_line_len(r.pointers);
    seq![title_line(r)] + pointer_lines(f, None, r.pointers[0], line_at(ls, 0), skip, ind, r.severity)
        + later_pointer_lines(f, r, ls, skip, ind, r.pointers.len() as int) + (match r.info {
        Some(i) => seq![info_line(ind, i)],
        None => Seq::empty(),
    }) + seq![Seq::empty()]
}

/// What the errors' reports refer to.
pub open spec fn frame_of(e: &Errors) -> Frame {
    Frame {
        paths: e.paths.entries(),
        mods: e.loaded_mods_labels@.map_values(|s: String| s@),
        dlcs: e.loaded_dlcs_labels@.map_values(|s: String| s@),
    }
}

/// The pointers can be laid out: each points into a known file of a known kind.
pub open spec fn pointers_ok(f: Frame, r: ReportView) -> bool {
    &&& r.pointers.len() > 0
    &&& forall|i: int|
        0 <= i < r.pointers.len() ==> (#[trigger] r.pointers[i]).loc.idx.0 < f.paths.len() && kind_ok(
            r.pointers[i].loc.kind,
            f.mods,
            f.dlcs,
        )
}

fn push_piece(line: &mut Vec<(Styled, String)>, st: Styled, text: String)
    ensures
        line_view(final(line)@) == line_view(old(line)@).push((st, text@)),
{
    let ghost before = line@;
    line.push((st, text));
    proof {
        assert(line_view(line@) =~= line_view(before).push((st, text@)));
    }
}

fn push_line(lines: &mut Vec<Vec<(Styled, String)>>, line: Vec<(Styled, String)>)
    ensures
        lines_view(final(lines)@) == lines_view(old(lines)@).push(line_view(line@)),
{
    let ghost before = lines@;
    lines.push(line);
    proof {
        assert(lines_view(lines@) =~= lines_view(before).push(line_view(line@)));
    }
}

fn repeat_char(c: char, n: usize) -> (s: String)
    ensures
        s@ == Seq::new(n as nat, |i: int| c),
{
    let mut s = String::new();
    let mut i: usize = 0;
    while i < n
        invariant
            i <= n,
            s@ == Seq::new(i as nat, |j: int| c),
        decreases n - i,
    {
        string_push(&mut s, c);
        i = i + 1;
        proof {
            assert(s@ =~= Seq::new(i as nat, |j: int| c));
        }
    }
    s
}

fn title_line_of(r: &LogReport) -> (l: Vec<(Styled, String)>)
    ensures
        line_view(l@) == title_line(r@),
{
    let mut l: Vec<(Styled, String)> = Vec::new();
    push_piece(&mut l, Styled::Tag(r.severity, true), string_of(severity_name(r.severity)));
    let key = concat_str("(", r.key.name());
    push_piece(&mut l, Styled::Tag(r.severity, false), concat_str(key.as_str(), ")"));
    push_piece(&mut l, Styled::Default, string_of(": "));
    push_piece(&mut l, Styled::ErrorMessage, r.msg.clone());
    proof {
        assert(line_view(l@) =~= title_line(r@));
    }
    l
}

fn info_line_of(ind: usize, info: &String) -> (l: Vec<(Styled, String)>)
    ensures
        line_view(l@) == info_line(ind as int, info@),
{
    let mut l: Vec<(Styled, String)> = Vec::new();
    push_piece(&mut l, Styled::Default, repeat_char(' ', ind));
    push_piece(&mut l, Styled::Default, string_of(" "));
    push_piece(&mut l, Styled::Location, string_of("="));
    push_piece(&mut l, Styled::Default, string_of(" "));
    push_piece(&mut l, Styled::InfoTag, string_of("Info:"));
    push_piece(&mut l, Styled::Default, string_of(" "));
    push_piece(&mut l, Styled::Info, info.clone());
    proof {
        assert(line_view(l@) =~= info_line(ind as int, info@));
    }
    l
}

fn kind_tag(e: &Errors, kind: FileKind) -> (t: String)
    requires
        kind_ok(kind, frame_of(e).mods, frame_of(e).dlcs),
    ensures
        t@ == kind_tag_text(kind, frame_of(e).mods, frame_of(e).dlcs),
{
    match kind {
        FileKind::Internal => string_of("Internal"),
        FileKind::Clausewitz => string_of("Clausewitz"),
        FileKind::Jomini => string_of("Jomini"),
        FileKind::Vanilla => string_of("CK3"),
        FileKind::Dlc(i) => e.loaded_dlcs_labels[i as usize].clone(),
        FileKind::LoadedMod(i) => e.loaded_mods_labels[i as usize].clone(),
        FileKind::Mod => string_of("MOD"),
    }
}

fn file_line_of(e: &Errors, p: &PointedMessage, ind: usize) -> (l: Vec<(Styled, String)>)
    requires
        p.loc.idx.0 < frame_of(e).paths.len(),
        kind_ok(p.loc.kind, frame_of(e).mods, frame_of(e).dlcs),
    ensures
        line_view(l@) == file_line(frame_of(e), p@, ind as int),
{
    let mut l: Vec<(Styled, String)> = Vec::new();
    push_piece(&mut l, Styled::Default, repeat_char(' ', ind));
    push_piece(&mut l, Styled::Location, string_of("-->"));
    push_piece(&mut l, Styled::Default, string_of(" "));
    let tag = kind_tag(e, p.loc.kind);
    let tag = concat_str("[", tag.as_str());
    push_piece(&mut l, Styled::Location, concat_str(tag.as_str(), "]"));
    push_piece(&mut l, Styled::Default, string_of(" "));
    push_piece(&mut l, Styled::Location, e.paths.lookup_path(p.loc.idx).clone());
    proof {
        assert(line_view(l@) =~= file_line(frame_of(e), p@, ind as int));
    }
    l
}

fn source_line_of(p: &PointedMessage, ind: usize, line: &Vec<char>) -> (l: Vec<(Styled, String)>)
    ensures
        line_view(l@) == source_line(p@, ind as int, line@),
{
    let mut l: Vec<(Styled, String)> = Vec::new();
    let num = usize_to_string(p.loc.line as usize);
    let n = crate::text::chars_of(num.as_str()).len();
    let padded = if n < ind {
        let pad = repeat_char(' ', ind - n);
        concat_str(pad.as_str(), num.as_str())
    } else {
        num
    };
    proof {
        assert(padded@ =~= pad_left(nat_decimal(p.loc.line as nat), ind as int));
    }
    push_piece(&mut l, Styled::Location, padded);
    push_piece(&mut l, Styled::Default, string_of(" "));
    push_piece(&mut l, Styled::Location, string_of("|"));
    push_piece(&mut l, Styled::Default, string_of(" "));
    push_piece(&mut l, Styled::SourceText, string_from_chars(line.as_slice(), 0, line.len()));
    proof {
        assert(line@.subrange(0, line@.len() as int) =~= line@);
        assert(line_view(l@) =~= source_line(p@, ind as int, line@));
    }
    l
}

/// Spaces as wide as the chars of `v`.
fn width_spaces(v: &Vec<char>, start: usize, end: usize) -> (s: String)
    requires
        start <= end <= v@.len(),
    ensures
        s@ == spaces(width_sum(v@.subrange(start as int, end as int))),
{
    let mut s = String::new();
    let mut i = start;
    proof {
        assert(v@.subrange(start as int, start as int) =~= Seq::<char>::empty());
        assert(s@ =~= spaces(0));
    }
    while i < end
        invariant
            start <= i <= end <= v@.len(),
            s@ == spaces(width_sum(v@.subrange(start as int, i as int))),
        decreases end - i,
    {
        let cw = char_width(v[i]);
        let w = match cw {
            Some(w) => w,
            None => 0,
        };
        let ghost before = s@;
        let mut k: usize = 0;
        while k < w
            invariant
                k <= w,
                s@ == before + spaces(k as int),
            decreases w - k,
        {
            string_push(&mut s, ' ');
            k = k + 1;
            proof {
                assert(s@ =~= before + spaces(k as int));
            }
        }
        proof {
            let t = v@.subrange(start as int, i + 1);
            assert(t.drop_last() =~= v@.subrange(start as int, i as int));
            assert(t.last() == v@[i as int]);
            assert(width_sum(t) == width_sum(t.drop_last()) + w);
            lemma_width_sum_nonneg(t.drop_last());
            assert(s@ =~= spaces(width_sum(t)));
        }
        i = i + 1;
    }
    s
}

fn caret_line_of(p: &PointedMessage, line: &Vec<char>, skip: usize, ind: usize, sev: Severity) -> (l: Vec<
    (Styled, String),
>)
    ensures
        line_view(l@) == caret_line(p@, line@, skip as int, ind as int, sev),
{
    let mut l: Vec<(Styled, String)> = Vec::new();
    push_piece(&mut l, Styled::Default, repeat_char(' ', ind));
    push_piece(&mut l, Styled::Default, string_of(" "));
    push_piece(&mut l, Styled::Location, string_of("|"));
    push_piece(&mut l, Styled::Default, string_of(" "));
    let start = if skip < line.len() {
        skip
    } else {
        line.len()
    };
    let col = p.loc.column as usize;
    let n: usize = if skip < col && col - skip > 1 {
        col - skip - 1
    } else {
        0
    };
    let end = if n < line.len() - start {
        start + n
    } else {
        line.len()
    };
    proof {
        let rest = line@.skip(start as int);
        assert(n as int == lead_cols(p.loc.column as int, skip as int));
        assert(line@.subrange(start as int, end as int) =~= rest.take(
            if n < rest.len() {
                n as int
            } else {
                rest.len() as int
            },
        ));
    }
    push_piece(&mut l, Styled::Default, width_spaces(line, start, end));
    push_piece(&mut l, Styled::Tag(sev, true), repeat_char('^', p.length));
    push_piece(&mut l, Styled::Default, string_of(" "));
    match &p.msg {
        Some(m) => {
            push_piece(&mut l, Styled::Tag(sev, true), string_of("<-- "));
            push_piece(&mut l, Styled::Tag(sev, true), m.clone());
        },
        None => {
            push_piece(&mut l, Styled::Tag(sev, true), string_of(""));
            push_piece(&mut l, Styled::Tag(sev, true), string_of(""));
        },
    }
    proof {
        assert(line_view(l@) =~= caret_line(p@, line@, skip as int, ind as int, sev));
    }
    l
}

/// The content of optional source lines.
pub open spec fn source_view(v: Seq<Option<String>>) -> Seq<Option<Seq<char>>> {
    v.map_values(|o: Option<String>| match o {
        Some(s) => Some(s@),
        None => None,
    })
}

/// The content of optional lines of chars.
pub open spec fn chars_view(v: Seq<Option<Vec<char>>>) -> Seq<Option<Seq<char>>> {
    v.map_values(|o: Option<Vec<char>>| match o {
        Some(s) => Some(s@),
        None => None,
    })
}

proof fn lemma_lead_spaces(s: Seq<char>)
    ensures
        0 <= lead_spaces(s) <= s.len(),
    decreases s.len(),
{
    if s.len() > 0 && s[0] == ' ' {
        lemma_lead_spaces(s.skip(1));
    }
}

proof fn lemma_min_lead(ls: Seq<Option<Seq<char>>>, n: int, i: int)
    requires
        0 <= i < n <= ls.len(),
        ls[i] is Some,
    ensures
        min_lead(ls, n) is Some,
        min_lead(ls, n)->0 <= lead_spaces(ls[i]->0),
        min_lead(ls, n)->0 >= 0,
    decreases n,
{
    lemma_lead_spaces(ls[i]->0);
    lemma_min_lead_nonneg(ls, n - 1);
    if i < n - 1 {
        lemma_min_lead(ls, n - 1, i);
        if let Some(l) = ls[n - 1] {
            lemma_lead_spaces(l);
        }
    }
}

proof fn lemma_min_lead_nonneg(ls: Seq<Option<Seq<char>>>, n: int)
    ensures
        min_lead(ls, n) matches Some(k) ==> k >= 0,
    decreases n,
{
    if n > 0 {
        lemma_min_lead_nonneg(ls, n - 1);
        if let Some(l) = ls[n - 1] {
            lemma_lead_spaces(l);
        }
    }
}

/// `s` with its tabs replaced by spaces.
fn untab_chars(s: &String) -> (v: Vec<char>)
    ensures
        v@ == untab(s@),
{
    let c = crate::text::chars_of(s.as_str());
    let mut v: Vec<char> = Vec::new();
    let mut i: usize = 0;
    while i < c.len()
        invariant
            i <= c@.len(),
            c@ == s@,
            v@ == untab(c@.take(i as int)),
        decreases c.len() - i,
    {
        v.push(if c[i] == '\t' {
            ' '
        } else {
            c[i]
        });
        i = i + 1;
        proof {
            assert(v@ =~= untab(c@.take(i as int)));
        }
    }
    proof {
        assert(c@.take(c@.len() as int) =~= c@);
    }
    v
}

/// The number of spaces that `v` starts with.
fn lead_spaces_of(v: &Vec<char>) -> (n: usize)
    ensures
        n == lead_spaces(v@),
{
    let mut k: usize = 0;
    proof {
        assert(v@.skip(0) =~= v@);
    }
    while k < v.len() && v[k] == ' '
        invariant
            k <= v@.len(),
            lead_spaces(v@) == k + lead_spaces(v@.skip(k as int)),
        decreases v.len() - k,
    {
        proof {
            assert(v@.skip(k as int).skip(1) =~= v@.skip(k + 1));
        }
        k = k + 1;
    }
    k
}

/// How many leading spaces to skip on each line.
fn skippable_of(ls: &Vec<Option<Vec<char>>>) -> (n: usize)
    ensures
        n == skippable(chars_view(ls@)),
{
    let ghost cv = chars_view(ls@);
    let mut best: Option<usize> = None;
    let mut i: usize = 0;
    while i < ls.len()
        invariant
            i <= ls@.len(),
            cv == chars_view(ls@),
            match best {
                Some(b) => min_lead(cv, i as int) == Some(b as int),
                None => min_lead(cv, i as int) is None,
            },
        decreases ls.len() - i,
    {
        match &ls[i] {
            Some(l) => {
                let k = lead_spaces_of(l);
                best = match best {
                    Some(b) => Some(if k < b {
                        k
                    } else {
                        b
                    }),
                    None => Some(k),
                };
            },
            None => {},
        }
        i = i + 1;
    }
    match best {
        Some(b) => if b > 4 {
            b - 4
        } else {
            0
        },
        None => 0,
    }
}

/// The lines for one pointer, added to `out`.
fn pointer_lines_of(
    e: &Errors,
    prev: Option<&PointedMessage>,
    p: &PointedMessage,
    line: &Option<Vec<char>>,
    skip: usize,
    ind: usize,
    sev: Severity,
    out: &mut Vec<Vec<(Styled, String)>>,
)
    requires
        p.loc.idx.0 < frame_of(e).paths.len(),
        kind_ok(p.loc.kind, frame_of(e).mods, frame_of(e).dlcs),
        prev matches Some(q) ==> q.loc.idx.0 < frame_of(e).paths.len(),
        line matches Some(l) ==> skip <= l@.len(),
    ensures
        lines_view(final(out)@) == lines_view(old(out)@) + pointer_lines(
            frame_of(e),
            match prev {
                Some(q) => Some(q@),
                None => None,
            },
            p@,
            match line {
                Some(l) => Some(l@),
                None => None,
            },
            skip as int,
            ind as int,
            sev,
        ),
{
    let ghost before = lines_view(out@);
    let new_file = match prev {
        Some(q) => !crate::text::str_eq(e.paths.lookup_path(q.loc.idx).as_str(), e.paths.lookup_path(p.loc.idx).as_str())
            || q.loc.kind != p.loc.kind,
        None => true,
    };
    if new_file {
        push_line(out, file_line_of(e, p, ind));
    }
    let ghost head = lines_view(out@).skip(before.len() as int);
    proof {
        assert(lines_view(out@) =~= before + head);
    }
    if p.loc.line == 0 {
        return;
    }
    match line {
        Some(l) => {
            let rest: Vec<char> = slice_from(l, skip);
            let src = source_line_of(p, ind, &rest);
            push_line(out, src);
            let car = caret_line_of(p, &rest, skip, ind, sev);
            push_line(out, car);
            proof {
                assert(lines_view(out@) =~= before + (head + seq![line_view(src@), line_view(car@)]));
            }
        },
        None => {},
    }
}

/// The chars of `v` from `start` on.
fn slice_from(v: &Vec<char>, start: usize) -> (r: Vec<char>)
    requires
        start <= v@.len(),
    ensures
        r@ == v@.skip(start as int),
{
    let mut r: Vec<char> = Vec::new();
    let mut i = start;
    while i < v.len()
        invariant
            start <= i <= v@.len(),
            r@ == v@.subrange(start as int, i as int),
        decreases v.len() - i,
    {
        r.push(v[i]);
        i = i + 1;
        proof {
            assert(r@ =~= v@.subrange(start as int, i as int));
        }
    }
    r
}

/// Lay out a report for the terminal, given the source line at each of its pointers where it
/// could be read: the title, the file, source line and carets of each pointer, the info line if
/// the report has info, and a blank line. Each line is a list of pieces with their styles.
pub fn report_lines(errors: &Errors, report: &LogReport, source: &Vec<Option<String>>) -> (lines: Vec<
    Vec<(Styled, String)>,
>)
    requires
        pointers_ok(frame_of(errors), report@),
        source@.len() == report.pointers@.len(),
    ensures
        lines_view(lines@) == spec_report_lines(frame_of(errors), report@, source_view(source@)),
{
    let ghost f = frame_of(errors);
    let ghost r = report@;
    let ghost sv = source_view(source@);
    let n = report.pointers.len();
    let mut ls: Vec<Option<Vec<char>>> = Vec::new();
    let mut i: usize = 0;
    while i < n
        invariant
            i <= n == source@.len(),
            sv == source_view(source@),
            ls@.len() == i,
            forall|k: int| 0 <= k < i ==> #[trigger] chars_view(ls@)[k] == line_at(sv, k),
        decreases n - i,
    {
        let l = match &source[i] {
            Some(s) => Some(untab_chars(s)),
            None => None,
        };
        let ghost old_ls = ls@;
        ls.push(l);
        proof {
            assert forall|k: int| 0 <= k < i + 1 implies #[trigger] chars_view(ls@)[k] == line_at(sv, k) by {
                if k < i {
                    assert(ls@[k] == old_ls[k]);
                    assert(chars_view(old_ls)[k] == line_at(sv, k));
                } else {
                    assert(ls@[k] == l);
                }
            }
        }
        i = i + 1;
    }
    proof {
        assert(chars_view(ls@) =~= untabbed(sv));
    }
    let skip = skippable_of(&ls);
    proof {
        let cv = chars_view(ls@);
        assert forall|k: int| 0 <= k < cv.len() && (#[trigger] cv[k]) is Some implies skip <= (cv[k]->0).len() by {
            lemma_min_lead(cv, cv.len() as int, k);
            lemma_lead_spaces(cv[k]->0);
        }
    }
    let ind = report.indentation();
    let sev = report.severity;
    let mut out: Vec<Vec<(Styled, String)>> = Vec::new();
    push_line(&mut out, title_line_of(report));
    proof {
        assert(r.pointers[0] == report.pointers@[0]@);
        assert(chars_view(ls@)[0] == line_at(sv, 0));
    }
    pointer_lines_of(errors, None, &report.pointers[0], &ls[0], skip, ind, sev, &mut out);
    let ghost first = lines_view(out@);
    let mut i: usize = 1;
    while i < n
        invariant
            1 <= i <= n == report.pointers@.len() == ls@.len(),
            f == frame_of(errors),
            r == report@,
            sev == report.severity,
            pointers_ok(f, r),
            forall|k: int| 0 <= k < n ==> #[trigger] chars_view(ls@)[k] == line_at(sv, k),
            forall|k: int|
                0 <= k < n && (#[trigger] chars_view(ls@)[k]) is Some ==> skip <= (chars_view(ls@)[k]->0).len(),
            lines_view(out@) == first + later_pointer_lines(f, r, sv, skip as int, ind as int, i as int),
        decreases n - i,
    {
        proof {
            assert(r.pointers[i as int] == report.pointers@[i as int]@);
            assert(r.pointers[i - 1] == report.pointers@[i - 1]@);
            assert(pointers_ok(f, r) ==> r.pointers[i as int].loc.idx.0 < f.paths.len());
            assert(chars_view(ls@)[i as int] == line_at(sv, i as int));
        }
        pointer_lines_of(errors, Some(&report.pointers[i - 1]), &report.pointers[i], &ls[i], skip, ind, sev, &mut out);
        i = i + 1;
        proof {
            assert(lines_view(out@) =~= first + later_pointer_lines(f, r, sv, skip as int, ind as int, i as int));
        }
    }
    match &report.info {
        Some(info) => {
            push_line(&mut out, info_line_of(ind, info));
        },
        None => {},
    }
    let blank: Vec<(Styled, String)> = Vec::new();
    proof {
        assert(line_view(blank@) =~= Seq::<Piece>::empty());
    }
    push_line(&mut out, blank);
    proof {
        assert(lines_view(out@) =~= spec_report_lines(f, r, sv));
    }
    out
}

} // verus!
