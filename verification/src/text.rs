//! Character and string helpers shared by the tokenizer, the parsers and the validators.
//!
//! Strings are reasoned about through their view as a sequence of `char`s. Positions inside a
//! string are counted in chars, not in bytes.
use vstd::prelude::*;
use vstd::string::*;

verus! {

// ---------------------------------------------------------------------------------------------
// Unicode character classes, as decided by the standard library.
// ---------------------------------------------------------------------------------------------

/// Whether `c` has the Unicode `White_Space` property, which is what `char::is_whitespace`
/// answers: tab, line feed, vertical tab, form feed, carriage return, space, next line,
/// no-break space, Ogham space mark, the spaces from en quad to hair space, line separator,
/// paragraph separator, narrow no-break space, medium mathematical space and ideographic space.
pub open spec fn unicode_whitespace(c: char) -> bool {
    let n = c as u32;
    ||| 0x09 <= n <= 0x0D
    ||| n == 0x20
    ||| n == 0x85
    ||| n == 0xA0
    ||| n == 0x1680
    ||| 0x2000 <= n <= 0x200A
    ||| n == 0x2028
    ||| n == 0x2029
    ||| n == 0x202F
    ||| n == 0x205F
    ||| n == 0x3000
}

/// The result of `char::is_alphanumeric` on `c`.
pub uninterp spec fn unicode_alphanumeric(c: char) -> bool;

/// ASCII whitespace as the standard library defines it for `char::is_ascii_whitespace`.
pub open spec fn spec_ascii_whitespace(c: char) -> bool {
    c == ' ' || c == '\t' || c == '\n' || c == '\x0C' || c == '\r'
}

pub open spec fn spec_ascii_digit(c: char) -> bool {
    '0' <= c && c <= '9'
}

pub open spec fn spec_ascii_upper(c: char) -> bool {
    'A' <= c && c <= 'Z'
}

pub open spec fn spec_ascii_lower(c: char) -> bool {
    'a' <= c && c <= 'z'
}

pub open spec fn spec_ascii_alphabetic(c: char) -> bool {
    spec_ascii_upper(c) || spec_ascii_lower(c)
}

pub open spec fn spec_ascii_alphanumeric(c: char) -> bool {
    spec_ascii_alphabetic(c) || spec_ascii_digit(c)
}

pub open spec fn spec_is_ascii_char(c: char) -> bool {
    (c as u32) < 128
}

/// Whether `c` is whitespace, as `char::is_whitespace` decides: the Unicode `White_Space`
/// property.
pub fn char_is_whitespace(c: char) -> (b: bool)
    ensures
        b == unicode_whitespace(c),
        spec_is_ascii_char(c) ==> (b <==> (spec_ascii_whitespace(c) || c == '\x0B')),
{
    let n = c as u32;
    (0x09 <= n && n <= 0x0D) || n == 0x20 || n == 0x85 || n == 0xA0 || n == 0x1680 || (0x2000 <= n && n
        <= 0x200A) || n == 0x2028 || n == 0x2029 || n == 0x202F || n == 0x205F || n == 0x3000
}

/// `char::is_alphanumeric`.
///
/// Calls `char::is_alphanumeric`. The contract names its result and states that on ASCII input
/// it holds exactly for the ASCII letters and digits; what it answers beyond ASCII (the Unicode
/// `Alphabetic` and numeric categories) is not stated.
#[verifier::external_body]
pub(crate) fn char_is_alphanumeric(c: char) -> (b: bool)
    ensures
        b == unicode_alphanumeric(c),
        spec_is_ascii_char(c) ==> (b <==> spec_ascii_alphanumeric(c)),
{
    c.is_alphanumeric()
}

pub fn is_ascii_digit(c: char) -> (b: bool)
    ensures
        b == spec_ascii_digit(c),
{
    '0' <= c && c <= '9'
}

pub fn is_ascii_whitespace(c: char) -> (b: bool)
    ensures
        b == spec_ascii_whitespace(c),
{
    c == ' ' || c == '\t' || c == '\n' || c == '\x0C' || c == '\r'
}

pub fn is_ascii_alphanumeric(c: char) -> (b: bool)
    ensures
        b == spec_ascii_alphanumeric(c),
{
    ('a' <= c && c <= 'z') || ('A' <= c && c <= 'Z') || ('0' <= c && c <= '9')
}

pub fn is_ascii_uppercase(c: char) -> (b: bool)
    ensures
        b == spec_ascii_upper(c),
{
    'A' <= c && c <= 'Z'
}

pub fn is_ascii_alphabetic(c: char) -> (b: bool)
    ensures
        b == spec_ascii_alphabetic(c),
{
    ('a' <= c && c <= 'z') || ('A' <= c && c <= 'Z')
}

// ---------------------------------------------------------------------------------------------
// ASCII case mapping
// ---------------------------------------------------------------------------------------------

pub open spec fn spec_lower_char(c: char) -> char {
    if spec_ascii_upper(c) {
        ((c as u32) + 32) as char
    } else {
        c
    }
}

pub open spec fn spec_upper_char(c: char) -> char {
    if spec_ascii_lower(c) {
        ((c as u32) - 32) as char
    } else {
        c
    }
}

/// The string with every ASCII uppercase letter replaced by its lowercase form.
pub open spec fn spec_ascii_lowercase(s: Seq<char>) -> Seq<char> {
    s.map_values(|c: char| spec_lower_char(c))
}

/// The string with every ASCII lowercase letter replaced by its uppercase form.
pub open spec fn spec_ascii_uppercase(s: Seq<char>) -> Seq<char> {
    s.map_values(|c: char| spec_upper_char(c))
}

pub open spec fn has_ascii_upper(s: Seq<char>) -> bool {
    exists|i: int| 0 <= i < s.len() && spec_ascii_upper(#[trigger] s[i])
}

pub fn to_ascii_lowercase_char(c: char) -> (r: char)
    ensures
        r == spec_lower_char(c),
{
    if 'A' <= c && c <= 'Z' {
        let u: u32 = (c as u32) + 32;
        let r: char = (u as u8) as char;
        assert((u as u8) as char == ((c as u32) + 32) as char);
        r
    } else {
        c
    }
}

pub fn to_ascii_uppercase_char(c: char) -> (r: char)
    ensures
        r == spec_upper_char(c),
{
    if 'a' <= c && c <= 'z' {
        let u: u32 = (c as u32) - 32;
        let r: char = (u as u8) as char;
        assert((u as u8) as char == ((c as u32) - 32) as char);
        r
    } else {
        c
    }
}

// ---------------------------------------------------------------------------------------------
// Strings
// ---------------------------------------------------------------------------------------------

/// `String::push`.
///
/// Calls `String::push`; the contract claims that the string's chars afterwards are the old ones
/// followed by `c`, as its documentation says.
#[verifier::external_body]
pub(crate) fn string_push(s: &mut String, c: char)
    ensures
        final(s)@ == old(s)@.push(c),
{
    s.push(c);
}

/// The chars of `s`, in order.
pub fn chars_of(s: &str) -> (v: Vec<char>)
    ensures
        v@ == s@,
{
    let mut v: Vec<char> = Vec::new();
    for c in it: s.chars()
        invariant
            v@ == it.seq().take(it.index() as int),
    {
        v.push(c);
    }
    v
}

/// A `String` made of the chars `v[start..end]`.
pub fn string_from_chars(v: &[char], start: usize, end: usize) -> (s: String)
    requires
        start <= end <= v@.len(),
    ensures
        s@ == v@.subrange(start as int, end as int),
{
    let mut s = String::new();
    let mut i = start;
    while i < end
        invariant
            start <= i <= end <= v@.len(),
            s@ == v@.subrange(start as int, i as int),
        decreases end - i,
    {
        string_push(&mut s, v[i]);
        assert(v@.subrange(start as int, i + 1) == v@.subrange(start as int, i as int).push(v@[i as int]));
        i = i + 1;
    }
    s
}

/// A new `String` with the same chars as `s`.
pub fn string_of(s: &str) -> (r: String)
    ensures
        r@ == s@,
{
    s.to_owned()
}

/// Whether two strings consist of the same chars.
pub fn str_eq(a: &str, b: &str) -> (r: bool)
    ensures
        r == (a@ == b@),
{
    let va = chars_of(a);
    let vb = chars_of(b);
    seq_eq(&va, &vb)
}

/// Whether two char vectors are equal.
pub fn seq_eq(a: &Vec<char>, b: &Vec<char>) -> (r: bool)
    ensures
        r == (a@ == b@),
{
    if a.len() != b.len() {
        return false;
    }
    let mut i: usize = 0;
    while i < a.len()
        invariant
            a@.len() == b@.len(),
            i <= a@.len(),
            forall|j: int| 0 <= j < i ==> a@[j] == b@[j],
        decreases a.len() - i,
    {
        if a[i] != b[i] {
            return false;
        }
        i = i + 1;
    }
    assert(a@ =~= b@);
    true
}

/// Whether `p` is a prefix of `s`.
pub open spec fn spec_starts_with(s: Seq<char>, p: Seq<char>) -> bool {
    p.len() <= s.len() && s.subrange(0, p.len() as int) == p
}

/// Whether `p` is a suffix of `s`.
pub open spec fn spec_ends_with(s: Seq<char>, p: Seq<char>) -> bool {
    p.len() <= s.len() && s.subrange(s.len() - p.len(), s.len() as int) == p
}

/// Whether `p` occurs in `s` starting at position `i`.
pub open spec fn occurs_at(s: Seq<char>, p: Seq<char>, i: int) -> bool {
    0 <= i && i + p.len() <= s.len() && s.subrange(i, i + p.len()) == p
}

/// Whether `p` occurs anywhere in `s`.
pub open spec fn spec_contains(s: Seq<char>, p: Seq<char>) -> bool {
    exists|i: int| occurs_at(s, p, i)
}

pub fn vec_starts_with_at(s: &Vec<char>, p: &Vec<char>, at: usize) -> (r: bool)
    requires
        at <= s@.len(),
    ensures
        r == occurs_at(s@, p@, at as int),
{
    if p.len() > s.len() - at {
        return false;
    }
    let n = s.len();
    let mut i: usize = 0;
    while i < p.len()
        invariant
            n == s@.len(),
            at + p@.len() <= s@.len(),
            at <= s@.len(),
            i <= p@.len(),
            forall|j: int| 0 <= j < i ==> s@[at + j] == p@[j],
        decreases p.len() - i,
    {
        assert(at + i < s@.len());
        if s[at + i] != p[i] {
            assert(s@.subrange(at as int, at + p@.len())[i as int] != p@[i as int]);
            return false;
        }
        i = i + 1;
    }
    assert(s@.subrange(at as int, at + p@.len()) =~= p@);
    true
}

pub fn vec_contains_seq(s: &Vec<char>, p: &Vec<char>) -> (r: bool)
    ensures
        r == spec_contains(s@, p@),
{
    if p.len() > s.len() {
        return false;
    }
    let last = s.len() - p.len();
    let mut at: usize = 0;
    loop
        invariant
            at <= last,
            last + p@.len() == s@.len(),
            forall|j: int| 0 <= j < at ==> !occurs_at(s@, p@, j),
        ensures
            forall|j: int| 0 <= j <= last ==> !occurs_at(s@, p@, j),
        decreases last - at,
    {
        if vec_starts_with_at(s, p, at) {
            return true;
        }
        if at == last {
            break;
        }
        at = at + 1;
    }
    assert forall|j: int| !occurs_at(s@, p@, j) by {
        if 0 <= j <= last {
        }
    }
    false
}

/// Whether `p` occurs in `s`.
pub fn str_contains(s: &str, p: &str) -> (r: bool)
    ensures
        r == spec_contains(s@, p@),
{
    let vs = chars_of(s);
    let vp = chars_of(p);
    vec_contains_seq(&vs, &vp)
}

/// Whether `s` starts with `p`.
pub fn str_starts_with(s: &str, p: &str) -> (r: bool)
    ensures
        r == spec_starts_with(s@, p@),
{
    let vs = chars_of(s);
    let vp = chars_of(p);
    vec_starts_with_at(&vs, &vp, 0)
}

/// Whether `s` ends with `p`.
pub fn str_ends_with(s: &str, p: &str) -> (r: bool)
    ensures
        r == spec_ends_with(s@, p@),
{
    let vs = chars_of(s);
    let vp = chars_of(p);
    if vp.len() > vs.len() {
        return false;
    }
    vec_starts_with_at(&vs, &vp, vs.len() - vp.len())
}

/// The ASCII-lowercased form of a char vector.
pub fn vec_ascii_lowercase(v: &Vec<char>) -> (r: Vec<char>)
    ensures
        r@ == spec_ascii_lowercase(v@),
{
    let mut r: Vec<char> = Vec::new();
    let mut i: usize = 0;
    while i < v.len()
        invariant
            i <= v@.len(),
            r@ == spec_ascii_lowercase(v@.subrange(0, i as int)),
        decreases v.len() - i,
    {
        r.push(to_ascii_lowercase_char(v[i]));
        assert(spec_ascii_lowercase(v@.subrange(0, i + 1)) =~= spec_ascii_lowercase(
            v@.subrange(0, i as int),
        ).push(spec_lower_char(v@[i as int])));
        i = i + 1;
    }
    assert(v@.subrange(0, v@.len() as int) =~= v@);
    r
}

/// The ASCII-lowercased form of `s`.
pub fn str_to_ascii_lowercase(s: &str) -> (r: String)
    ensures
        r@ == spec_ascii_lowercase(s@),
{
    let v = chars_of(s);
    let l = vec_ascii_lowercase(&v);
    string_from_chars(l.as_slice(), 0, l.len())
}

/// The ASCII-uppercased form of `s`.
pub fn str_to_ascii_uppercase(s: &str) -> (r: String)
    ensures
        r@ == spec_ascii_uppercase(s@),
{
    let v = chars_of(s);
    let mut r = String::new();
    let mut i: usize = 0;
    while i < v.len()
        invariant
            i <= v@.len(),
            v@ == s@,
            r@ == spec_ascii_uppercase(v@.subrange(0, i as int)),
        decreases v.len() - i,
    {
        string_push(&mut r, to_ascii_uppercase_char(v[i]));
        assert(spec_ascii_uppercase(v@.subrange(0, i + 1)) =~= spec_ascii_uppercase(
            v@.subrange(0, i as int),
        ).push(spec_upper_char(v@[i as int])));
        i = i + 1;
    }
    assert(v@.subrange(0, v@.len() as int) =~= v@);
    r
}

/// Whether `s` contains an ASCII uppercase letter.
pub fn str_has_ascii_upper(s: &str) -> (r: bool)
    ensures
        r == has_ascii_upper(s@),
{
    let v = chars_of(s);
    let mut i: usize = 0;
    while i < v.len()
        invariant
            i <= v@.len(),
            v@ == s@,
            forall|j: int| 0 <= j < i ==> !spec_ascii_upper(#[trigger] v@[j]),
        decreases v.len() - i,
    {
        if is_ascii_uppercase(v[i]) {
            return true;
        }
        i = i + 1;
    }
    false
}

/// The result of `str::to_lowercase` on `s`: full Unicode lowercasing.
pub uninterp spec fn unicode_lowercase(s: Seq<char>) -> Seq<char>;

/// Whether every char of `s` is ASCII.
pub open spec fn all_ascii(s: Seq<char>) -> bool {
    forall|i: int| 0 <= i < s.len() ==> spec_is_ascii_char(#[trigger] s[i])
}

/// `str::to_lowercase`.
///
/// Calls `str::to_lowercase`. The contract names the result as a function of the string's chars,
/// and states the one fact its documentation makes plain: an all-ASCII string is lowercased
/// char by char, ASCII uppercase letters becoming lowercase. The Unicode case mapping of other
/// chars is left unstated.
#[verifier::external_body]
pub(crate) fn str_to_lowercase(s: &str) -> (r: String)
    ensures
        r@ == unicode_lowercase(s@),
        all_ascii(s@) ==> r@ == spec_ascii_lowercase(s@),
{
    s.to_lowercase()
}

/// The concatenation of `a` and `b`.
pub fn concat_str(a: &str, b: &str) -> (r: String)
    ensures
        r@ == a@ + b@,
{
    let s = string_of(a);
    s.concat(b)
}

/// The parts joined with `sep` between each two.
pub open spec fn spec_join(parts: Seq<Seq<char>>, sep: Seq<char>) -> Seq<char>
    decreases parts.len(),
{
    if parts.len() == 0 {
        Seq::empty()
    } else if parts.len() == 1 {
        parts[0]
    } else {
        spec_join(parts.drop_last(), sep) + sep + parts.last()
    }
}

/// The chars of each string in `parts`.
pub open spec fn strs_view(parts: Seq<&str>) -> Seq<Seq<char>> {
    parts.map_values(|p: &str| p@)
}

/// The strings joined with `sep` between each two.
pub fn join_strs(parts: &[&str], sep: &str) -> (r: String)
    ensures
        r@ == spec_join(strs_view(parts@), sep@),
{
    let mut r = String::new();
    let mut i: usize = 0;
    while i < parts.len()
        invariant
            i <= parts@.len(),
            r@ == spec_join(strs_view(parts@.take(i as int)), sep@),
        decreases parts.len() - i,
    {
        proof {
            assert(strs_view(parts@.take(i + 1)).drop_last() =~= strs_view(parts@.take(i as int)));
            assert(strs_view(parts@.take(i + 1)).last() == parts@[i as int]@);
        }
        if i == 0 {
            r = string_of(parts[i]);
            assert(strs_view(parts@.take(1)) =~= seq![parts@[0]@]);
        } else {
            let a = r.concat(sep);
            r = a.concat(parts[i]);
        }
        i = i + 1;
    }
    assert(parts@.take(parts@.len() as int) =~= parts@);
    r
}

/// The decimal digits of a natural number.
pub open spec fn nat_decimal(n: nat) -> Seq<char>
    decreases n,
{
    if n < 10 {
        seq![(('0' as u32) + n) as char]
    } else {
        nat_decimal(n / 10) + seq![(('0' as u32) + (n % 10)) as char]
    }
}

/// The decimal form of an integer, with a `-` if it is negative.
pub open spec fn int_decimal(n: int) -> Seq<char> {
    if n < 0 {
        seq!['-'] + nat_decimal((-n) as nat)
    } else {
        nat_decimal(n as nat)
    }
}

fn digit_char(d: u64) -> (c: char)
    requires
        d < 10,
    ensures
        c == (('0' as u32) + d) as char,
{
    let u: u8 = 48u8 + d as u8;
    let c = u as char;
    assert(c == (('0' as u32) + d) as char);
    c
}

fn nat_decimal_exec(n: u64) -> (r: Vec<char>)
    ensures
        r@ == nat_decimal(n as nat),
    decreases n,
{
    if n < 10 {
        let mut v = Vec::new();
        v.push(digit_char(n));
        assert(v@ =~= nat_decimal(n as nat));
        v
    } else {
        let mut v = nat_decimal_exec(n / 10);
        v.push(digit_char(n % 10));
        assert(v@ =~= nat_decimal(n as nat));
        v
    }
}

/// The decimal form of `n`, as `i64::to_string` writes it.
pub fn i64_to_string(n: i64) -> (r: String)
    ensures
        r@ == int_decimal(n as int),
{
    if n < 0 {
        let m: u64 = if n == i64::MIN { 9223372036854775808u64 } else { (-n) as u64 };
        let v = nat_decimal_exec(m);
        let mut s = String::new();
        string_push(&mut s, '-');
        let rest = string_from_chars(v.as_slice(), 0, v.len());
        let r = s.concat(rest.as_str());
        assert(v@.subrange(0, v@.len() as int) =~= v@);
        r
    } else {
        let v = nat_decimal_exec(n as u64);
        assert(v@.subrange(0, v@.len() as int) =~= v@);
        string_from_chars(v.as_slice(), 0, v.len())
    }
}

/// The decimal form of `n`.
pub fn usize_to_string(n: usize) -> (r: String)
    ensures
        r@ == nat_decimal(n as nat),
{
    let v = nat_decimal_exec(n as u64);
    assert(v@.subrange(0, v@.len() as int) =~= v@);
    string_from_chars(v.as_slice(), 0, v.len())
}

} // verus!
