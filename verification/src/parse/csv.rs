//! Reading `.csv` files: rows of fields separated by `;`, with `#` comments.
use encoding::all::WINDOWS_1252;
use encoding::{DecoderTrap, Encoding};
use vstd::prelude::*;

use crate::text::{chars_of, spec_ascii_whitespace, string_from_chars};
use crate::token::{Loc, Token, count_newlines};

verus! {

/// The first position at or after `i` that does not hold ASCII whitespace.
pub open spec fn skip_ascii_ws(s: Seq<char>, i: int) -> int
    decreases s.len() - i,
{
    if 0 <= i < s.len() && spec_ascii_whitespace(s[i]) {
        skip_ascii_ws(s, i + 1)
    } else {
        i
    }
}

/// The position of the first newline at or after `i`, or the end of `s`.
pub open spec fn line_end(s: Seq<char>, i: int) -> int
    decreases s.len() - i,
{
    if 0 <= i < s.len() && s[i] != '\n' {
        line_end(s, i + 1)
    } else {
        i
    }
}

/// The position after the rest of the line at `i` and its newline.
pub open spec fn after_line(s: Seq<char>, i: int) -> int {
    let j = line_end(s, i);
    if j < s.len() {
        j + 1
    } else {
        j
    }
}

proof fn lemma_skip_ascii_ws(s: Seq<char>, i: int)
    requires
        0 <= i <= s.len(),
    ensures
        i <= skip_ascii_ws(s, i) <= s.len(),
    decreases s.len() - i,
{
    if i < s.len() && spec_ascii_whitespace(s[i]) {
        lemma_skip_ascii_ws(s, i + 1);
    }
}

proof fn lemma_line_end(s: Seq<char>, i: int)
    requires
        0 <= i <= s.len(),
    ensures
        i <= line_end(s, i) <= s.len(),
        line_end(s, i) < s.len() ==> s[line_end(s, i)] == '\n',
    decreases s.len() - i,
{
    if i < s.len() && s[i] != '\n' {
        lemma_line_end(s, i + 1);
    }
}

/// Where the next row starts, after whitespace, comment lines and the header lines still to
/// skip; and how many header lines are left to skip.
pub open spec fn row_start(s: Seq<char>, i: int, h: nat) -> (int, nat)
    decreases s.len() - i, h,
{
    if !(0 <= i <= s.len()) {
        (i, h)
    } else {
        let k = skip_ascii_ws(s, i);
        let n = after_line(s, k);
        if k < s.len() && s[k] == '#' {
            if i < n <= s.len() {
                row_start(s, n, h)
            } else {
                (k, h)
            }
        } else if h > 0 {
            if i <= n <= s.len() {
                row_start(s, n, (h - 1) as nat)
            } else {
                (k, h)
            }
        } else {
            (k, h)
        }
    }
}

/// The spans of the fields of the row from `j` on, the current field starting at `start`, and
/// where the row ends. A field that the text ends in is dropped.
pub open spec fn row_fields(s: Seq<char>, start: int, j: int) -> (Seq<(int, int)>, int)
    decreases s.len() - j,
{
    if !(0 <= j < s.len()) {
        (Seq::empty(), j)
    } else if s[j] == '#' || s[j] == '\n' {
        (seq![(start, j)], j)
    } else if s[j] == ';' {
        let (rest, e) = row_fields(s, j + 1, j + 1);
        (seq![(start, j)] + rest, e)
    } else {
        row_fields(s, start, j + 1)
    }
}

/// The next row after position `i` with `h` header lines left to skip: its field spans, if
/// there is a row, and the position and header lines left after it.
pub open spec fn next_row(s: Seq<char>, i: int, h: nat) -> (Option<Seq<(int, int)>>, int, nat) {
    let (k, h2) = row_start(s, i, h);
    if k >= s.len() {
        (None, k, h2)
    } else {
        let (f, e) = row_fields(s, k, k);
        (Some(f), after_line(s, e), h2)
    }
}

/// The column of position `i`: one more than the chars since the last newline before it.
pub open spec fn column_at(s: Seq<char>, i: int) -> int
    decreases i,
{
    if i <= 0 {
        1
    } else if s[i - 1] == '\n' {
        1
    } else {
        column_at(s, i - 1) + 1
    }
}

/// The location of position `i` in a file whose location is `base`.
pub open spec fn loc_at(base: Loc, s: Seq<char>, i: int) -> Loc {
    Loc { line: (1 + count_newlines(s.take(i))) as u32, column: column_at(s, i) as u32, ..base }
}

proof fn lemma_loc_bounds(s: Seq<char>, i: int)
    requires
        0 <= i <= s.len(),
    ensures
        1 <= column_at(s, i) <= i + 1,
        0 <= count_newlines(s.take(i)) <= i,
    decreases i,
{
    if i > 0 {
        lemma_loc_bounds(s, i - 1);
        assert(s.take(i).drop_last() =~= s.take(i - 1));
    } else {
        assert(s.take(0) =~= Seq::<char>::empty());
    }
}

proof fn lemma_after_line(s: Seq<char>, i: int)
    requires
        0 <= i <= s.len(),
    ensures
        i <= after_line(s, i) <= s.len(),
        i < s.len() ==> i < after_line(s, i),
{
    lemma_line_end(s, i);
}

proof fn lemma_row_start(s: Seq<char>, i: int, h: nat)
    requires
        0 <= i <= s.len(),
    ensures
        i <= row_start(s, i, h).0 <= s.len(),
    decreases s.len() - i, h,
{
    let k = skip_ascii_ws(s, i);
    lemma_skip_ascii_ws(s, i);
    let n = after_line(s, k);
    lemma_after_line(s, k);
    if k < s.len() && s[k] == '#' {
        if i < n <= s.len() {
            lemma_row_start(s, n, h);
        }
    } else if h > 0 {
        if i <= n <= s.len() {
            lemma_row_start(s, n, (h - 1) as nat);
        }
    }
}

proof fn lemma_row_fields(s: Seq<char>, start: int, j: int)
    requires
        0 <= j <= s.len(),
    ensures
        j <= row_fields(s, start, j).1 <= s.len(),
    decreases s.len() - j,
{
    if j < s.len() {
        if s[j] == '#' || s[j] == '\n' {
        } else if s[j] == ';' {
            lemma_row_fields(s, j + 1, j + 1);
        } else {
            lemma_row_fields(s, start, j + 1);
        }
    }
}

/// Reading a row moves forward in the text and stays in it.
pub proof fn lemma_next_row_advances(s: Seq<char>, i: int, h: nat)
    requires
        0 <= i <= s.len(),
    ensures
        i <= next_row(s, i, h).1 <= s.len(),
        next_row(s, i, h).0 is Some ==> i < next_row(s, i, h).1,
{
    lemma_row_start(s, i, h);
    let k = row_start(s, i, h).0;
    if k < s.len() {
        lemma_row_fields(s, k, k);
        let e = row_fields(s, k, k).1;
        lemma_after_line(s, e);
        lemma_line_end(s, e);
    }
}

/// The text and location of each field of a row, from the spans of its fields.
pub open spec fn row_view(base: Loc, s: Seq<char>, spans: Seq<(int, int)>) -> Seq<(Seq<char>, Loc)> {
    Seq::new(spans.len(), |k: int| (s.subrange(spans[k].0, spans[k].1), loc_at(base, s, spans[k].0)))
}

/// The text and location of each of `tokens`.
pub open spec fn tokens_view(tokens: Seq<Token>) -> Seq<(Seq<char>, Loc)> {
    tokens.map_values(|t: Token| (t@, t.loc))
}

/// The rows of `s`, a file at `base`, from position `i` on with `h` header lines left to skip:
/// for each row, the text and location of each field.
pub open spec fn csv_rows(base: Loc, s: Seq<char>, i: int, h: nat) -> Seq<Seq<(Seq<char>, Loc)>>
    decreases s.len() - i,
{
    if !(0 <= i <= s.len()) {
        Seq::empty()
    } else {
        let (r, p, h2) = next_row(s, i, h);
        match r {
            None => Seq::empty(),
            Some(spans) => {
                proof {
                    lemma_next_row_advances(s, i, h);
                }
                seq![row_view(base, s, spans)] + csv_rows(base, s, p, h2)
            },
        }
    }
}

/// Reads the rows of a `.csv` file one by one.
pub struct CsvReader {
    chars: Vec<char>,
    pos: usize,
    header_lines: usize,
    line: u32,
    column: u32,
    base: Loc,
}

impl CsvReader {
    /// The text being read.
    pub closed spec fn text(&self) -> Seq<char> {
        self.chars@
    }

    /// Where the reader is in the text.
    pub closed spec fn position(&self) -> int {
        self.pos as int
    }

    /// How many header lines are still to be skipped.
    pub closed spec fn headers_left(&self) -> nat {
        self.header_lines as nat
    }

    /// The location of the file.
    pub closed spec fn base(&self) -> Loc {
        self.base
    }

    /// The reader's position is in the text, and the lines and columns of the text fit.
    pub closed spec fn wf(&self) -> bool {
        &&& self.pos <= self.chars@.len()
        &&& self.chars@.len() + 2 <= u32::MAX
        &&& self.line == 1 + count_newlines(self.chars@.take(self.pos as int))
        &&& self.column == column_at(self.chars@, self.pos as int)
    }

    /// The position of a well-formed reader is within its text.
    pub proof fn lemma_position(&self)
        requires
            self.wf(),
        ensures
            0 <= self.position() <= self.text().len(),
    {
    }

    /// Step over one char.
    fn next_char(&mut self)
        requires
            old(self).wf(),
            old(self).pos < old(self).chars@.len(),
        ensures
            final(self).wf(),
            final(self).pos == old(self).pos + 1,
            final(self).chars == old(self).chars,
            final(self).header_lines == old(self).header_lines,
            final(self).base == old(self).base,
    {
        proof {
            lemma_loc_bounds(self.chars@, self.pos + 1);
            assert(self.chars@.take(self.pos + 1).drop_last() =~= self.chars@.take(self.pos as int));
        }
        if self.chars[self.pos] == '\n' {
            self.line = self.line + 1;
            self.column = 1;
        } else {
            self.column = self.column + 1;
        }
        self.pos = self.pos + 1;
    }

    /// Step over ASCII whitespace.
    fn skip_whitespace(&mut self)
        requires
            old(self).wf(),
        ensures
            final(self).wf(),
            final(self).pos == skip_ascii_ws(old(self).chars@, old(self).pos as int),
            final(self).chars == old(self).chars,
            final(self).header_lines == old(self).header_lines,
            final(self).base == old(self).base,
    {
        let ghost start = self.pos as int;
        while self.pos < self.chars.len() && (self.chars[self.pos] == ' ' || self.chars[self.pos] == '\t' || self.chars[self.pos] == '\n' || self.chars[self.pos] == '\x0C' || self.chars[self.pos] == '\r')
            invariant
                self.wf(),
                self.chars == old(self).chars,
                self.header_lines == old(self).header_lines,
                self.base == old(self).base,
                skip_ascii_ws(self.chars@, start) == skip_ascii_ws(self.chars@, self.pos as int),
            decreases self.chars@.len() - self.pos,
        {
            self.next_char();
        }
    }

    /// Step over the rest of the line and its newline.
    fn skip_line(&mut self)
        requires
            old(self).wf(),
        ensures
            final(self).wf(),
            final(self).pos == after_line(old(self).chars@, old(self).pos as int),
            final(self).chars == old(self).chars,
            final(self).header_lines == old(self).header_lines,
            final(self).base == old(self).base,
    {
        let ghost start = self.pos as int;
        while self.pos < self.chars.len() && self.chars[self.pos] != '\n'
            invariant
                self.wf(),
                self.chars == old(self).chars,
                self.header_lines == old(self).header_lines,
                self.base == old(self).base,
                line_end(self.chars@, start) == line_end(self.chars@, self.pos as int),
            decreases self.chars@.len() - self.pos,
        {
            self.next_char();
        }
        if self.pos < self.chars.len() {
            self.next_char();
        }
    }

    /// The next row of fields, if there is one. Lines that start with `#`, blank lines, and the
    /// header lines are skipped. Each field is a token at the place it starts; a field that the
    /// text ends in, with no `;`, `#` or newline after it, is dropped.
    pub fn next_row(&mut self) -> (r: Option<Vec<Token>>)
        requires
            old(self).wf(),
        ensures
            final(self).wf(),
            final(self).text() == old(self).text(),
            final(self).base() == old(self).base(),
            ({
                let (rows, pos, h) = next_row(old(self).text(), old(self).position(), old(self).headers_left());
                &&& final(self).position() == pos
                &&& final(self).headers_left() == h
                &&& match rows {
                    None => r is None,
                    Some(spans) => r matches Some(v) && v@.len() == spans.len() && forall|k: int|
                        0 <= k < spans.len() ==> {
                            &&& (#[trigger] v@[k])@ == old(self).text().subrange(spans[k].0, spans[k].1)
                            &&& v@[k].loc == loc_at(old(self).base(), old(self).text(), spans[k].0)
                        },
                }
            }),
            match next_row(old(self).text(), old(self).position(), old(self).headers_left()).0 {
                Some(spans) => r matches Some(v) && tokens_view(v@) == row_view(old(self).base(), old(self).text(), spans),
                None => true,
            },
    {
        let ghost s = self.chars@;
        let ghost i0 = self.pos as int;
        let ghost h0 = self.header_lines as nat;
        loop
            invariant_except_break
                row_start(s, self.pos as int, self.header_lines as nat) == row_start(s, i0, h0),
            invariant
                self.wf(),
                self.chars@ == s,
                self.base == old(self).base,
            ensures
                (self.pos as int, self.header_lines as nat) == row_start(s, i0, h0),
            decreases s.len() - self.pos, self.header_lines,
        {
            let ghost i = self.pos as int;
            let ghost h = self.header_lines as nat;
            self.skip_whitespace();
            proof {
                lemma_skip_ascii_ws(s, i);
                lemma_line_end(s, self.pos as int);
                if self.pos < s.len() {
                    lemma_line_end(s, self.pos + 1);
                }
            }
            if self.pos < self.chars.len() && self.chars[self.pos] == '#' {
                self.skip_line();
            } else if self.header_lines > 0 {
                self.skip_line();
                self.header_lines = self.header_lines - 1;
            } else {
                assert(row_start(s, i, h) == (self.pos as int, h));
                break;
            }
        }
        let ghost k = self.pos as int;
        let ghost h1 = self.header_lines;
        proof {
            lemma_skip_ascii_ws(s, k);
        }
        if self.pos >= self.chars.len() {
            return None;
        }
        let mut vec: Vec<Token> = Vec::new();
        let mut start = self.pos;
        let mut loc = Loc { line: self.line, column: self.column, ..self.base };
        let ghost spans0: Seq<(int, int)> = Seq::empty();
        let ghost mut done: Seq<(int, int)> = Seq::empty();
        loop
            invariant_except_break
                row_fields(s, k, k) == ({
                    let (rest, e) = row_fields(s, start as int, self.pos as int);
                    (done + rest, e)
                }),
            invariant
                self.wf(),
                self.chars@ == s,
                self.base == old(self).base,
                self.header_lines == h1,
                k <= start <= self.pos <= s.len(),
                loc == loc_at(self.base, s, start as int),
                vec@.len() == done.len(),
                forall|q: int|
                    0 <= q < done.len() ==> {
                        &&& (#[trigger] vec@[q])@ == s.subrange(done[q].0, done[q].1)
                        &&& vec@[q].loc == loc_at(self.base, s, done[q].0)
                    },
            ensures
                self.wf(),
                self.chars@ == s,
                self.base == old(self).base,
                self.header_lines == h1,
                row_fields(s, k, k) == (done, self.pos as int),
                vec@.len() == done.len(),
                forall|q: int|
                    0 <= q < done.len() ==> {
                        &&& (#[trigger] vec@[q])@ == s.subrange(done[q].0, done[q].1)
                        &&& vec@[q].loc == loc_at(self.base, s, done[q].0)
                    },
            decreases s.len() - self.pos,
        {
            if self.pos >= self.chars.len() {
                assert(done + Seq::<(int, int)>::empty() =~= done);
                assert(row_fields(s, start as int, self.pos as int) == (Seq::<(int, int)>::empty(), self.pos as int));
                break;
            }
            let c = self.chars[self.pos];
            if c == '#' || c == '\n' || c == ';' {
                let t = Token { s: string_from_chars(self.chars.as_slice(), start, self.pos), loc };
                vec.push(t);
                proof {
                    let (rest, e) = row_fields(s, self.pos + 1, self.pos + 1);
                    if c == ';' {
                        assert(done + (seq![(start as int, self.pos as int)] + rest) =~= done.push((start as int, self.pos as int)) + rest);
                    } else {
                        assert(done + seq![(start as int, self.pos as int)] =~= done.push((start as int, self.pos as int)));
                    }
                    done = done.push((start as int, self.pos as int));
                }
                if c == ';' {
                    self.next_char();
                    start = self.pos;
                    loc = Loc { line: self.line, column: self.column, ..self.base };
                } else {
                    break;
                }
            } else {
                self.next_char();
            }
        }
        self.skip_line();
        proof {
            assert(tokens_view(vec@) =~= row_view(self.base, s, done));
        }
        Some(vec)
    }
}

/// A reader of the rows of `content`, a `.csv` file at `loc`, whose first `header_lines`
/// non-comment lines are headers.
pub fn parse_csv(loc: Loc, header_lines: usize, content: &str) -> (r: CsvReader)
    requires
        content@.len() + 2 <= u32::MAX,
    ensures
        r.wf(),
        r.text() == content@,
        r.position() == 0,
        r.headers_left() == header_lines,
        r.base() == loc,
{
    let chars = chars_of(content);
    proof {
        assert(chars@.take(0) =~= Seq::<char>::empty());
    }
    CsvReader { chars, pos: 0, header_lines, line: 1, column: 1, base: loc }
}

/// The text that the `encoding` crate's Windows-1252 decoder makes of `bytes`.
pub uninterp spec fn windows_1252_text(bytes: Seq<u8>) -> Seq<char>;

/// `encoding::all::WINDOWS_1252.decode(bytes, DecoderTrap::Strict)`.
///
/// The crate decodes single-byte encodings byte by byte through a table, and its Windows-1252
/// table maps every byte, so strict decoding never fails. The contract claims that: the result
/// is `Ok`, its text is named `windows_1252_text` of the bytes, it has one char per byte, and a
/// byte below 0x80 or from 0xA0 up stands for the char with its value. Which char each byte from
/// 0x80 to 0x9F becomes is left to the table.
#[verifier::external_body]
fn windows_1252_decode(bytes: &[u8]) -> (r: Result<String, String>)
    ensures
        match r {
            Ok(s) => {
                &&& s@ == windows_1252_text(bytes@)
                &&& s@.len() == bytes@.len()
                &&& forall|i: int|
                    0 <= i < bytes@.len() && (bytes@[i] < 0x80 || bytes@[i] >= 0xA0) ==> s@[i] == (bytes@[i] as char)
            },
            Err(_) => false,
        },
{
    match WINDOWS_1252.decode(bytes, DecoderTrap::Strict) {
        Ok(s) => Ok(s),
        Err(e) => Err(e.into_owned()),
    }
}

/// The text of a `.csv` file from its bytes, which are in the Windows-1252 encoding.
pub fn read_csv(bytes: &[u8]) -> (r: Result<String, String>)
    ensures
        r matches Ok(s) && s@ == windows_1252_text(bytes@) && s@.len() == bytes@.len(),
        r matches Ok(s) && forall|i: int| 0 <= i < bytes@.len() && bytes@[i] < 0x80 ==> s@[i] == (bytes@[i] as char),
{
    windows_1252_decode(bytes)
}

} // verus!
