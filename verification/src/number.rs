//! The number syntaxes that script values are read with.
use vstd::prelude::*;

use crate::text::{nat_decimal, spec_ascii_digit, spec_ascii_lowercase, vec_ascii_lowercase, seq_eq};

verus! {

/// Whether every char of `s` is an ASCII digit.
pub open spec fn all_digits(s: Seq<char>) -> bool {
    forall|i: int| 0 <= i < s.len() ==> spec_ascii_digit(#[trigger] s[i])
}

/// The value of a string of decimal digits.
pub open spec fn digits_value(s: Seq<char>) -> int
    decreases s.len(),
{
    if s.len() == 0 {
        0
    } else {
        digits_value(s.drop_last()) * 10 + ((s.last() as u32) - ('0' as u32))
    }
}

/// The sign and digits of a number with an optional leading `+` or `-`.
pub open spec fn split_sign(s: Seq<char>) -> (bool, Seq<char>) {
    if s.len() > 0 && s[0] == '-' {
        (true, s.skip(1))
    } else if s.len() > 0 && s[0] == '+' {
        (false, s.skip(1))
    } else {
        (false, s)
    }
}

/// What `str::parse::<i64>` gives for `s`: an optional sign followed by at least one decimal
/// digit, whose value fits in an `i64`.
pub open spec fn spec_parse_i64(s: Seq<char>) -> Option<int> {
    let (neg, body) = split_sign(s);
    if body.len() == 0 || !all_digits(body) {
        None
    } else {
        let v = if neg {
            -digits_value(body)
        } else {
            digits_value(body)
        };
        if i64::MIN <= v <= i64::MAX {
            Some(v)
        } else {
            None
        }
    }
}

proof fn lemma_digits_value_monotone(s: Seq<char>, i: int)
    requires
        0 <= i <= s.len(),
        all_digits(s),
    ensures
        0 <= digits_value(s.take(i)) <= digits_value(s),
    decreases s.len() - i,
{
    if i < s.len() {
        lemma_digits_value_monotone(s, i + 1);
        assert(s.take(i + 1).drop_last() =~= s.take(i));
    } else {
        assert(s.take(i) =~= s);
    }
    lemma_digits_value_nonneg(s.take(i));
}

proof fn lemma_digits_value_nonneg(s: Seq<char>)
    requires
        all_digits(s),
    ensures
        digits_value(s) >= 0,
    decreases s.len(),
{
    if s.len() > 0 {
        lemma_digits_value_nonneg(s.drop_last());
    }
}

/// Parse a decimal integer the way `str::parse::<i64>` does.
#[verifier::rlimit(40)]
#[verifier::spinoff_prover]
pub fn parse_i64(v: &Vec<char>) -> (r: Option<i64>)
    ensures
        match r {
            Some(n) => spec_parse_i64(v@) == Some(n as int),
            None => spec_parse_i64(v@) is None,
        },
{
    let ghost s = v@;
    let mut start: usize = 0;
    let mut neg = false;
    if v.len() > 0 && v[0] == '-' {
        neg = true;
        start = 1;
    } else if v.len() > 0 && v[0] == '+' {
        start = 1;
    }
    let ghost body = s.skip(start as int);
    assert(body =~= split_sign(s).1);
    assert(neg == split_sign(s).0);
    if start == v.len() {
        return None;
    }
    let limit: i128 = if neg { 9223372036854775808 } else { 9223372036854775807 };
    let mut acc: i128 = 0;
    let mut i = start;
    while i < v.len()
        invariant
            start <= i <= v@.len(),
            s == v@,
            body == s.skip(start as int),
            body == split_sign(s).1,
            neg == split_sign(s).0,
            body.len() > 0,
            forall|j: int| 0 <= j < i - start ==> spec_ascii_digit(#[trigger] body[j]),
            acc == digits_value(body.take(i - start)),
            0 <= acc <= limit,
            limit == if neg { 9223372036854775808i128 } else { 9223372036854775807i128 },
        decreases v.len() - i,
    {
        let c = v[i];
        if !('0' <= c && c <= '9') {
            assert(body[i - start] == c);
            assert(!spec_ascii_digit(body[i - start]));
            assert(!all_digits(body));
            return None;
        }
        proof {
            assert(body.take(i - start + 1).drop_last() =~= body.take(i - start));
            assert(body.take(i - start + 1).last() == c);
        }
        let d = (c as u32 - '0' as u32) as i128;
        acc = acc * 10 + d;
        if acc > limit {
            proof {
                if all_digits(body) {
                    lemma_digits_value_monotone(body, i + 1 - start);
                }
            }
            return None;
        }
        i = i + 1;
    }
    proof {
        assert(body.take(i - start) =~= body);
    }
    if neg {
        Some((-acc) as i64)
    } else {
        Some(acc as i64)
    }
}

/// What `str::parse` gives for an integer type whose values are `lo..=hi`, with `lo` and `hi`
/// in the range of `i64`: a type without negative values takes no `-` sign, not even for zero.
pub open spec fn spec_parse_int(s: Seq<char>, lo: int, hi: int) -> Option<int> {
    if lo >= 0 && s.len() > 0 && s[0] == '-' {
        None
    } else {
        match spec_parse_i64(s) {
            Some(v) => if lo <= v <= hi {
                Some(v)
            } else {
                None
            },
            None => None,
        }
    }
}

/// Parse a decimal integer the way `str::parse` does for an integer type whose values are
/// `lo..=hi`.
pub fn parse_int(v: &Vec<char>, lo: i64, hi: i64) -> (r: Option<i64>)
    ensures
        match r {
            Some(n) => spec_parse_int(v@, lo as int, hi as int) == Some(n as int),
            None => spec_parse_int(v@, lo as int, hi as int) is None,
        },
{
    if lo >= 0 && v.len() > 0 && v[0] == '-' {
        return None;
    }
    match parse_i64(v) {
        Some(n) => if lo <= n && n <= hi {
            Some(n)
        } else {
            None
        },
        None => None,
    }
}

// ---------------------------------------------------------------------------------------------
// Floating point syntax
// ---------------------------------------------------------------------------------------------

/// `Digit+ | Digit+ '.' Digit* | Digit* '.' Digit+`
pub open spec fn spec_decimal(s: Seq<char>) -> bool {
    ||| (s.len() > 0 && all_digits(s))
    ||| exists|d: int|
        #![trigger s[d]]
        0 <= d < s.len() && s[d] == '.' && all_digits(s.take(d)) && all_digits(s.skip(d + 1)) && (
        d > 0 || d + 1 < s.len())
}

/// `'e' Sign? Digit+`, with `e` in either case.
pub open spec fn spec_exponent(s: Seq<char>) -> bool {
    s.len() > 0 && (s[0] == 'e' || s[0] == 'E') && {
        let rest = split_sign(s.skip(1)).1;
        rest.len() > 0 && all_digits(rest)
    }
}

/// `Decimal Exp?`
pub open spec fn spec_float_number(s: Seq<char>) -> bool {
    ||| spec_decimal(s)
    ||| exists|e: int|
        #![trigger s[e]]
        0 <= e < s.len() && spec_decimal(s.take(e)) && spec_exponent(s.skip(e))
}

/// What `str::parse::<f64>` accepts: an optional sign, then `inf`, `infinity` or `nan` in any
/// case, or a decimal number with an optional exponent.
pub open spec fn spec_float_syntax(s: Seq<char>) -> bool {
    let body = split_sign(s).1;
    let lower = spec_ascii_lowercase(body);
    ||| lower == "inf"@
    ||| lower == "infinity"@
    ||| lower == "nan"@
    ||| spec_float_number(body)
}

fn all_digits_range(v: &Vec<char>, from: usize, to: usize) -> (b: bool)
    requires
        from <= to <= v@.len(),
    ensures
        b == all_digits(v@.subrange(from as int, to as int)),
{
    let mut i = from;
    while i < to
        invariant
            from <= i <= to <= v@.len(),
            forall|j: int| from <= j < i ==> spec_ascii_digit(#[trigger] v@[j]),
        decreases to - i,
    {
        if !('0' <= v[i] && v[i] <= '9') {
            assert(v@.subrange(from as int, to as int)[i - from] == v@[i as int]);
            return false;
        }
        i = i + 1;
    }
    assert forall|j: int| 0 <= j < to - from implies spec_ascii_digit(#[trigger] v@.subrange(from as int, to as int)[j]) by {
        assert(v@.subrange(from as int, to as int)[j] == v@[from + j]);
    }
    true
}

/// Whether `v[from..to]` matches `Decimal`.
fn is_decimal(v: &Vec<char>, from: usize, to: usize) -> (b: bool)
    requires
        from <= to <= v@.len(),
    ensures
        b == spec_decimal(v@.subrange(from as int, to as int)),
{
    let ghost s = v@.subrange(from as int, to as int);
    if from < to && all_digits_range(v, from, to) {
        return true;
    }
    // Look for the single dot.
    let mut d = from;
    while d < to && v[d] != '.'
        invariant
            from <= d <= to <= v@.len(),
            s == v@.subrange(from as int, to as int),
            forall|k: int| from <= k < d ==> v@[k] != '.',
        decreases to - d,
    {
        d = d + 1;
    }
    if d == to {
        assert forall|x: int| 0 <= x < s.len() implies #[trigger] s[x] != '.' by {
            assert(s[x] == v@[from + x]);
        }
        assert(!(s.len() > 0 && all_digits(s)) ==> !spec_decimal(s));
        return false;
    }
    assert(v@[d as int] == '.');
    let before = all_digits_range(v, from, d);
    let after = all_digits_range(v, d + 1, to);
    let nonempty = d > from || d + 1 < to;
    proof {
        let dd = d - from;
        assert(s[dd] == '.');
        assert(s.take(dd) =~= v@.subrange(from as int, d as int));
        assert(s.skip(dd + 1) =~= v@.subrange(d + 1, to as int));
        if !(before && after && nonempty) {
            assert forall|x: int|
                0 <= x < s.len() && s[x] == '.' && all_digits(s.take(x)) && all_digits(
                    s.skip(x + 1),
                ) implies !(x > 0 || x + 1 < s.len()) by {
                if x != dd {
                    if x < dd {
                        assert(s.skip(x + 1)[dd - x - 1] == '.');
                    } else {
                        assert(s.take(x)[dd] == '.');
                    }
                }
            }
            assert(s.len() > 0 ==> !all_digits(s)) by {
                if s.len() > 0 {
                    assert(s[dd] == '.');
                }
            }
        }
    }
    before && after && nonempty
}

/// Whether `v[from..to]` matches `Exp`.
fn is_exponent(v: &Vec<char>, from: usize, to: usize) -> (b: bool)
    requires
        from <= to <= v@.len(),
    ensures
        b == spec_exponent(v@.subrange(from as int, to as int)),
{
    let ghost s = v@.subrange(from as int, to as int);
    if from == to || !(v[from] == 'e' || v[from] == 'E') {
        return false;
    }
    let mut start = from + 1;
    if start < to && (v[start] == '+' || v[start] == '-') {
        start = start + 1;
    }
    proof {
        assert(split_sign(s.skip(1)).1 =~= v@.subrange(start as int, to as int));
    }
    start < to && all_digits_range(v, start, to)
}

/// Whether `v` is a decimal number with an optional exponent.
fn is_float_number(v: &Vec<char>, from: usize) -> (b: bool)
    requires
        from <= v@.len(),
    ensures
        b == spec_float_number(v@.skip(from as int)),
{
    let ghost s = v@.skip(from as int);
    assert(s =~= v@.subrange(from as int, v@.len() as int));
    if is_decimal(v, from, v.len()) {
        return true;
    }
    let mut e = from;
    while e < v.len()
        invariant
            from <= e <= v@.len(),
            s == v@.skip(from as int),
            forall|x: int|
                0 <= x < e - from ==> !(spec_decimal(s.take(x)) && spec_exponent(#[trigger] s.skip(x))),
        decreases v.len() - e,
    {
        let d = is_decimal(v, from, e);
        let x = is_exponent(v, e, v.len());
        proof {
            assert(s.take(e - from) =~= v@.subrange(from as int, e as int));
            assert(s.skip(e - from) =~= v@.subrange(e as int, v@.len() as int));
        }
        if d && x {
            assert(s[e - from] == v@[e as int]);
            return true;
        }
        e = e + 1;
    }
    assert forall|x: int|
        #![trigger s[x]]
        0 <= x < s.len() implies !(spec_decimal(s.take(x)) && spec_exponent(s.skip(x))) by {
        assert(s.skip(x) == s.skip(x));
    }
    false
}

fn is_word(v: &Vec<char>, from: usize, word: &str) -> (b: bool)
    requires
        from <= v@.len(),
    ensures
        b == (spec_ascii_lowercase(v@.skip(from as int)) == word@),
{
    let mut rest: Vec<char> = Vec::new();
    let mut i = from;
    while i < v.len()
        invariant
            from <= i <= v@.len(),
            rest@ == v@.subrange(from as int, i as int),
        decreases v.len() - i,
    {
        rest.push(v[i]);
        i = i + 1;
    }
    assert(rest@ =~= v@.skip(from as int));
    let lower = vec_ascii_lowercase(&rest);
    let w = crate::text::chars_of(word);
    seq_eq(&lower, &w)
}

/// Whether `v` has the syntax that `str::parse::<f64>` accepts.
pub fn is_float_syntax(v: &Vec<char>) -> (b: bool)
    ensures
        b == spec_float_syntax(v@),
{
    let mut start: usize = 0;
    if v.len() > 0 && (v[0] == '-' || v[0] == '+') {
        start = 1;
    }
    assert(split_sign(v@).1 =~= v@.skip(start as int));
    is_word(v, start, "inf") || is_word(v, start, "infinity") || is_word(v, start, "nan")
        || is_float_number(v, start)
}

proof fn lemma_nat_decimal_digits(n: nat)
    ensures
        nat_decimal(n).len() > 0,
        all_digits(nat_decimal(n)),
        digits_value(nat_decimal(n)) == n,
    decreases n,
{
    if n < 10 {
        let c = (('0' as u32) + n) as char;
        assert(nat_decimal(n) == seq![c]);
        assert(seq![c].drop_last() =~= Seq::<char>::empty());
        assert((c as u32) - ('0' as u32) == n);
        assert(digits_value(seq![c]) == digits_value(Seq::<char>::empty()) * 10 + ((c as u32) - ('0' as u32)));
    } else {
        lemma_nat_decimal_digits(n / 10);
        let c = (('0' as u32) + (n % 10)) as char;
        assert(nat_decimal(n) == nat_decimal(n / 10) + seq![c]);
        assert(nat_decimal(n).drop_last() =~= nat_decimal(n / 10));
        assert((c as u32) - ('0' as u32) == n % 10);
        assert(n == (n / 10) * 10 + n % 10) by (nonlinear_arith);
        assert(digits_value(nat_decimal(n)) == digits_value(nat_decimal(n / 10)) * 10 + ((c as u32) - ('0' as u32)));
        assert forall|i: int| 0 <= i < nat_decimal(n).len() implies spec_ascii_digit(#[trigger] nat_decimal(n)[i]) by {
            if i < nat_decimal(n / 10).len() {
                assert(nat_decimal(n)[i] == nat_decimal(n / 10)[i]);
            }
        }
    }
}

/// Reading back the decimal form of an `i64`, as `i64::to_string` writes it, gives the number.
pub proof fn law_parse_reads_back_decimal(n: i64)
    ensures
        spec_parse_i64(crate::text::int_decimal(n as int)) == Some(n as int),
{
    let s = crate::text::int_decimal(n as int);
    if n < 0 {
        let m = (-n) as nat;
        lemma_nat_decimal_digits(m);
        assert(s == seq!['-'] + nat_decimal(m));
        assert(s[0] == '-');
        assert(s.skip(1) =~= nat_decimal(m));
    } else {
        lemma_nat_decimal_digits(n as nat);
        assert(s == nat_decimal(n as nat));
        assert(spec_ascii_digit(s[0]));
    }
}

} // verus!
