//! Finding the Steam library that holds the game, from Steam's `libraryfolders.vdf`.
use vstd::prelude::*;

use crate::text::{is_ascii_whitespace, spec_ascii_whitespace, str_eq, string_from_chars};

verus! {

/// Steam's code for Crusader Kings 3.
pub const CK3_APP_ID: &'static str = "1158310";

/// The lines of `s`, cut at every newline.
pub open spec fn lines(s: Seq<char>) -> Seq<Seq<char>>
    decreases s.len(),
{
    if s.len() == 0 {
        seq![Seq::empty()]
    } else {
        let l = lines(s.drop_last());
        if s.last() == '\n' {
            l.push(Seq::empty())
        } else {
            l.update(l.len() - 1, l.last().push(s.last()))
        }
    }
}

/// The words of `s`: its runs of chars other than ASCII whitespace.
pub open spec fn words(s: Seq<char>) -> Seq<Seq<char>>
    decreases s.len(),
{
    if s.len() == 0 {
        Seq::empty()
    } else {
        let w = words(s.drop_last());
        let c = s.last();
        if spec_ascii_whitespace(c) {
            w
        } else if s.len() >= 2 && !spec_ascii_whitespace(s[s.len() - 2]) {
            w.update(w.len() - 1, w.last().push(c))
        } else {
            w.push(seq![c])
        }
    }
}

/// `s` without the `"` at its start.
pub open spec fn trim_start_quotes(s: Seq<char>) -> Seq<char>
    decreases s.len(),
{
    if s.len() > 0 && s[0] == '"' {
        trim_start_quotes(s.skip(1))
    } else {
        s
    }
}

/// `s` without the `"` at its end.
pub open spec fn trim_end_quotes(s: Seq<char>) -> Seq<char>
    decreases s.len(),
{
    if s.len() > 0 && s.last() == '"' {
        trim_end_quotes(s.drop_last())
    } else {
        s
    }
}

/// `s` without the `"` at either end.
pub open spec fn trim_quotes(s: Seq<char>) -> Seq<char> {
    trim_end_quotes(trim_start_quotes(s))
}

/// Reading the lines from line `i` on, where `found` is the last library path seen: the path
/// of the library whose app list holds the game. Only lines of two words count, as a key and
/// a value, both without their quotes.
pub open spec fn library_scan(ls: Seq<Seq<char>>, i: int, found: Option<Seq<char>>) -> Option<Seq<char>>
    decreases ls.len() - i,
{
    if i < 0 || i >= ls.len() {
        None
    } else {
        let f = words(ls[i]);
        if f.len() == 2 && trim_quotes(f[0]) == "path"@ {
            library_scan(ls, i + 1, Some(trim_quotes(f[1])))
        } else if f.len() == 2 && trim_quotes(f[0]) == CK3_APP_ID@ && found is Some {
            found
        } else {
            library_scan(ls, i + 1, found)
        }
    }
}

/// The path of the Steam library that lists the game, according to the text of
/// `libraryfolders.vdf`.
pub open spec fn spec_library_with_game(vdf: Seq<char>) -> Option<Seq<char>> {
    library_scan(lines(vdf), 0, None)
}

/// Cut `v` at every newline.
fn lines_of(v: &Vec<char>) -> (r: Vec<Vec<char>>)
    ensures
        r@.len() == lines(v@).len(),
        forall|k: int| 0 <= k < r@.len() ==> #[trigger] r@[k]@ == lines(v@)[k],
{
    let mut r: Vec<Vec<char>> = Vec::new();
    r.push(Vec::new());
    let mut i: usize = 0;
    proof {
        assert(v@.take(0) =~= Seq::<char>::empty());
        assert(r@[0]@ =~= Seq::<char>::empty());
    }
    while i < v.len()
        invariant
            i <= v@.len(),
            r@.len() == lines(v@.take(i as int)).len(),
            r@.len() >= 1,
            forall|k: int| 0 <= k < r@.len() ==> #[trigger] r@[k]@ == lines(v@.take(i as int))[k],
        decreases v.len() - i,
    {
        let c = v[i];
        proof {
            assert(v@.take(i + 1).drop_last() =~= v@.take(i as int));
            lemma_lines_nonempty(v@.take(i as int));
        }
        if c == '\n' {
            r.push(Vec::new());
            proof {
                assert(r@[r@.len() - 1]@ =~= Seq::<char>::empty());
            }
        } else {
            let n = r.len() - 1;
            let mut last = r.pop().unwrap();
            last.push(c);
            r.push(last);
            proof {
                assert forall|k: int| 0 <= k < r@.len() implies #[trigger] r@[k]@ == lines(v@.take(i + 1))[k] by {
                    if k < n {
                        assert(r@[k]@ == lines(v@.take(i as int))[k]);
                    }
                }
            }
        }
        i = i + 1;
    }
    proof {
        assert(v@.take(v@.len() as int) =~= v@);
    }
    r
}

proof fn lemma_lines_nonempty(s: Seq<char>)
    ensures
        lines(s).len() >= 1,
    decreases s.len(),
{
    if s.len() > 0 {
        lemma_lines_nonempty(s.drop_last());
    }
}

/// The words of `v`.
fn words_of(v: &Vec<char>) -> (r: Vec<Vec<char>>)
    ensures
        r@.len() == words(v@).len(),
        forall|k: int| 0 <= k < r@.len() ==> #[trigger] r@[k]@ == words(v@)[k],
{
    let mut r: Vec<Vec<char>> = Vec::new();
    let mut i: usize = 0;
    proof {
        assert(v@.take(0) =~= Seq::<char>::empty());
    }
    while i < v.len()
        invariant
            i <= v@.len(),
            r@.len() == words(v@.take(i as int)).len(),
            forall|k: int| 0 <= k < r@.len() ==> #[trigger] r@[k]@ == words(v@.take(i as int))[k],
            i > 0 && !spec_ascii_whitespace(v@[i - 1]) ==> r@.len() >= 1,
        decreases v.len() - i,
    {
        let c = v[i];
        let ghost t = v@.take(i + 1);
        proof {
            assert(t.drop_last() =~= v@.take(i as int));
            assert(t.last() == c);
            if i >= 1 {
                assert(t[t.len() - 2] == v@[i - 1]);
            }
        }
        if is_ascii_whitespace(c) {
        } else if i >= 1 && !is_ascii_whitespace(v[i - 1]) {
            let n = r.len() - 1;
            let mut last = r.pop().unwrap();
            last.push(c);
            r.push(last);
            proof {
                assert forall|k: int| 0 <= k < r@.len() implies #[trigger] r@[k]@ == words(t)[k] by {
                    if k < n {
                        assert(r@[k]@ == words(v@.take(i as int))[k]);
                    }
                }
            }
        } else {
            let mut w: Vec<char> = Vec::new();
            w.push(c);
            r.push(w);
            proof {
                assert(r@[r@.len() - 1]@ =~= seq![c]);
            }
        }
        i = i + 1;
    }
    proof {
        assert(v@.take(v@.len() as int) =~= v@);
    }
    r
}

/// `v` without the `"` at either end, as a string.
fn trimmed(v: &Vec<char>) -> (s: String)
    ensures
        s@ == trim_quotes(v@),
{
    let mut a: usize = 0;
    proof {
        assert(v@.skip(0) =~= v@);
    }
    while a < v.len() && v[a] == '"'
        invariant
            a <= v@.len(),
            trim_start_quotes(v@.skip(a as int)) == trim_start_quotes(v@),
        decreases v.len() - a,
    {
        proof {
            assert(v@.skip(a as int).skip(1) =~= v@.skip(a + 1));
        }
        a = a + 1;
    }
    let mut b: usize = v.len();
    proof {
        assert(v@.skip(a as int) =~= v@.subrange(a as int, b as int));
    }
    while b > a && v[b - 1] == '"'
        invariant
            a <= b <= v@.len(),
            trim_end_quotes(v@.subrange(a as int, b as int)) == trim_quotes(v@),
        decreases b - a,
    {
        proof {
            assert(v@.subrange(a as int, b as int).drop_last() =~= v@.subrange(a as int, b - 1));
        }
        b = b - 1;
    }
    string_from_chars(v.as_slice(), a, b)
}

/// The path of the Steam library that lists the game, according to the text of
/// `libraryfolders.vdf`: the last `"path"` before the line that lists the game's app id.
pub fn library_with_game(vdf: &str) -> (r: Option<String>)
    ensures
        match r {
            Some(p) => spec_library_with_game(vdf@) == Some(p@),
            None => spec_library_with_game(vdf@) is None,
        },
{
    let chars = crate::text::chars_of(vdf);
    let ls = lines_of(&chars);
    let mut found: Option<String> = None;
    let mut i: usize = 0;
    while i < ls.len()
        invariant
            i <= ls@.len(),
            ls@.len() == lines(vdf@).len(),
            forall|k: int| 0 <= k < ls@.len() ==> #[trigger] ls@[k]@ == lines(vdf@)[k],
            library_scan(lines(vdf@), i as int, match found {
                Some(p) => Some(p@),
                None => None,
            }) == spec_library_with_game(vdf@),
        decreases ls.len() - i,
    {
        let f = words_of(&ls[i]);
        proof {
            assert(ls@[i as int]@ == lines(vdf@)[i as int]);
        }
        if f.len() == 2 {
            let key = trimmed(&f[0]);
            if str_eq(key.as_str(), "path") {
                found = Some(trimmed(&f[1]));
            } else if str_eq(key.as_str(), CK3_APP_ID) && found.is_some() {
                return found;
            }
        }
        i = i + 1;
    }
    None
}

} // verus!
