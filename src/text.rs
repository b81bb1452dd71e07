//! Character-level helpers shared by the codecs: decimal rendering and parsing,
//! whitespace trimming, prefixes, and conversions between `String` and `Vec<char>`.

use vstd::prelude::*;

verus! {

/// The decimal digit character for `d`.
pub open spec fn digit_char(d: nat) -> char
    recommends
        d < 10,
{
    seq!['0', '1', '2', '3', '4', '5', '6', '7', '8', '9'][d as int]
}

/// The shortest decimal rendering of `n`.
pub open spec fn decimal(n: nat) -> Seq<char>
    decreases n,
{
    if n < 10 {
        seq![digit_char(n)]
    } else {
        decimal(n / 10).push(digit_char(n % 10))
    }
}

pub open spec fn is_digit(c: char) -> bool {
    '0' <= c && c <= '9'
}

pub open spec fn digit_value(c: char) -> nat {
    ((c as u32) - ('0' as u32)) as nat
}

pub open spec fn all_digits(s: Seq<char>) -> bool {
    forall|i: int| 0 <= i < s.len() ==> is_digit(#[trigger] s[i])
}

/// The value of a string of decimal digits.
pub open spec fn digits_value(s: Seq<char>) -> nat
    decreases s.len(),
{
    if s.len() == 0 {
        0
    } else {
        digits_value(s.drop_last()) * 10 + digit_value(s.last())
    }
}

/// What `str::parse::<u64>` accepts: an optional `+` and one or more decimal digits whose
/// value fits.
pub open spec fn unsigned_digits(s: Seq<char>) -> Seq<char> {
    if s.len() > 0 && s[0] == '+' {
        s.drop_first()
    } else {
        s
    }
}

pub open spec fn parses_as_unsigned(s: Seq<char>, max: nat) -> bool {
    let d = unsigned_digits(s);
    d.len() > 0 && all_digits(d) && digits_value(d) <= max
}

pub open spec fn unsigned_value(s: Seq<char>) -> nat {
    digits_value(unsigned_digits(s))
}

pub fn digit(d: u64) -> (c: char)
    requires
        d < 10,
    ensures
        c == digit_char(d as nat),
{
    if d == 0 { '0' } else if d == 1 { '1' } else if d == 2 { '2' } else if d == 3 { '3' }
    else if d == 4 { '4' } else if d == 5 { '5' } else if d == 6 { '6' } else if d == 7 { '7' }
    else if d == 8 { '8' } else { '9' }
}

/// Appends the decimal rendering of `n` to `out`.
pub fn push_decimal(n: u64, out: &mut Vec<char>)
    ensures
        final(out)@ == old(out)@ + decimal(n as nat),
    decreases n,
{
    if n >= 10 {
        push_decimal(n / 10, out);
    }
    let c = digit(n % 10);
    out.push(c);
    assert(final(out)@ =~= old(out)@ + decimal(n as nat));
}

/// The decimal rendering of `n` as a `String`.
pub fn decimal_string(n: u64) -> (r: String)
    ensures
        r@ == decimal(n as nat),
{
    let mut v: Vec<char> = Vec::new();
    push_decimal(n, &mut v);
    assert(v@ =~= decimal(n as nat));
    string_from_chars(v.as_slice())
}

proof fn lemma_digits_value_grows(s: Seq<char>, i: int)
    requires
        0 <= i <= s.len(),
        all_digits(s),
    ensures
        digits_value(s.subrange(0, i)) <= digits_value(s),
    decreases s.len() - i,
{
    if i < s.len() {
        lemma_digits_value_grows(s, i + 1);
        assert(s.subrange(0, i + 1).drop_last() =~= s.subrange(0, i));
    } else {
        assert(s.subrange(0, i) =~= s);
    }
}

/// Parses an unsigned decimal number no greater than `max`, as `str::parse` does for the
/// unsigned integer types.
pub fn parse_unsigned(s: &[char], max: u64) -> (r: Option<u64>)
    ensures
        r is Some <==> parses_as_unsigned(s@, max as nat),
        r matches Some(v) ==> v as nat == unsigned_value(s@),
{
    let start: usize = if s.len() > 0 && s[0] == '+' { 1 } else { 0 };
    let ghost d = unsigned_digits(s@);
    assert(d =~= s@.subrange(start as int, s@.len() as int));
    if start >= s.len() {
        return None;
    }
    let mut acc: u64 = 0;
    let mut i: usize = start;
    while i < s.len()
        invariant
            start <= i <= s.len(),
            d == unsigned_digits(s@),
            d =~= s@.subrange(start as int, s@.len() as int),
            all_digits(d.subrange(0, i - start)),
            acc as nat == digits_value(d.subrange(0, i - start)),
            acc <= max,
        decreases s.len() - i,
    {
        let c = s[i];
        if !('0' <= c && c <= '9') {
            assert(s@[i as int] == c);
            assert(d[i - start] == c);
            assert(!is_digit(d[i - start]));
            assert(!all_digits(d));
            return None;
        }
        let v: u64 = (c as u32 - '0' as u32) as u64;
        assert(d.subrange(0, i + 1 - start).drop_last() =~= d.subrange(0, i - start));
        if v > max || acc > (max - v) / 10 {
            proof {
                assert(acc * 10 + v > max) by (nonlinear_arith)
                    requires v > max || acc > (max - v) / 10, acc >= 0;
                let t = d.subrange(0, i + 1 - start);
                assert(t.last() == c);
                assert(digits_value(t) == digits_value(t.drop_last()) * 10 + digit_value(t.last()));
                if all_digits(d) {
                    lemma_digits_value_grows(d, i + 1 - start);
                }
            }
            return None;
        }
        assert(acc * 10 + v <= max) by (nonlinear_arith)
            requires acc <= (max - v) / 10, v <= max;
        acc = acc * 10 + v;
        i = i + 1;
    }
    assert(d.subrange(0, i - start) =~= d);
    Some(acc)
}

/// Relies on `Iterator::collect` into a `String`: the characters in order.
#[verifier::external_body]
pub fn string_from_chars(v: &[char]) -> (r: String)
    ensures
        r@ == v@,
{
    v.iter().collect()
}

/// The characters of `s`, in order.
pub fn chars_of(s: &str) -> (r: Vec<char>)
    ensures
        r@ == s@,
{
    let mut out: Vec<char> = Vec::new();
    for c in it: s.chars()
        invariant
            it.seq() == s@,
            out@ == it.seq().subrange(0, it.index() as int),
    {
        out.push(c);
        assert(out@ =~= it.seq().subrange(0, it.index() + 1));
    }
    assert(out@ =~= s@);
    out
}

} // verus!

verus! {

/// Whether two character slices hold the same characters.
pub fn chars_equal(a: &[char], b: &[char]) -> (r: bool)
    ensures
        r == (a@ == b@),
{
    if a.len() != b.len() {
        return false;
    }
    let mut i: usize = 0;
    while i < a.len()
        invariant
            a.len() == b.len(),
            i <= a.len(),
            forall|j: int| 0 <= j < i ==> a@[j] == b@[j],
        decreases a.len() - i,
    {
        if a[i] != b[i] {
            return false;
        }
        i = i + 1;
    }
    assert(a@ =~= b@);
    true
}

} // verus!

verus! {

/// The characters that `char::is_whitespace` accepts (the Unicode `White_Space` property).
pub open spec fn is_space(c: char) -> bool {
    c == '\t' || c == '\n' || c == '\u{0B}' || c == '\u{0C}' || c == '\r' || c == ' '
        || c == '\u{85}' || c == '\u{A0}' || c == '\u{1680}' || ('\u{2000}' <= c && c
        <= '\u{200A}') || c == '\u{2028}' || c == '\u{2029}' || c == '\u{202F}' || c
        == '\u{205F}' || c == '\u{3000}'
}

pub open spec fn trim_start(s: Seq<char>) -> Seq<char>
    decreases s.len(),
{
    if s.len() > 0 && is_space(s[0]) {
        trim_start(s.drop_first())
    } else {
        s
    }
}

pub open spec fn trim_end(s: Seq<char>) -> Seq<char>
    decreases s.len(),
{
    if s.len() > 0 && is_space(s.last()) {
        trim_end(s.drop_last())
    } else {
        s
    }
}

/// `s` without leading and trailing white space, as `str::trim` gives it.
pub open spec fn trim(s: Seq<char>) -> Seq<char> {
    trim_end(trim_start(s))
}

#[verifier::when_used_as_spec(is_space)]
pub fn is_space_char(c: char) -> (r: bool)
    ensures
        r == is_space(c),
{
    c == '\t' || c == '\n' || c == '\u{0B}' || c == '\u{0C}' || c == '\r' || c == ' '
        || c == '\u{85}' || c == '\u{A0}' || c == '\u{1680}' || ('\u{2000}' <= c && c
        <= '\u{200A}') || c == '\u{2028}' || c == '\u{2029}' || c == '\u{202F}' || c
        == '\u{205F}' || c == '\u{3000}'
}

proof fn lemma_trim_start_step(s: Seq<char>, i: int)
    requires
        0 <= i < s.len(),
        is_space(s[i]),
    ensures
        trim_start(s.subrange(i, s.len() as int)) == trim_start(s.subrange(i + 1, s.len() as int)),
{
    assert(s.subrange(i, s.len() as int).drop_first() =~= s.subrange(i + 1, s.len() as int));
}

proof fn lemma_trim_end_step(s: Seq<char>, j: int)
    requires
        0 < j <= s.len(),
        is_space(s[j - 1]),
    ensures
        trim_end(s.subrange(0, j)) == trim_end(s.subrange(0, j - 1)),
{
    assert(s.subrange(0, j).drop_last() =~= s.subrange(0, j - 1));
}

/// The bounds of `trim(s@)` within `s`.
pub fn trim_bounds(s: &[char]) -> (r: (usize, usize))
    ensures
        r.0 <= r.1 <= s@.len(),
        s@.subrange(r.0 as int, r.1 as int) == trim(s@),
{
    let mut i: usize = 0;
    assert(s@.subrange(0, s@.len() as int) =~= s@);
    while i < s.len() && is_space_char(s[i])
        invariant
            i <= s.len(),
            trim_start(s@) == trim_start(s@.subrange(i as int, s@.len() as int)),
        decreases s.len() - i,
    {
        proof { lemma_trim_start_step(s@, i as int); }
        i = i + 1;
    }
    let ghost t = s@.subrange(i as int, s@.len() as int);
    assert(trim_start(s@) == t) by {
        if t.len() > 0 {
            assert(t[0] == s@[i as int]);
        }
    }
    let mut j: usize = s.len();
    assert(t.subrange(0, j - i) =~= t);
    while j > i && is_space_char(s[j - 1])
        invariant
            i <= j <= s.len(),
            t == s@.subrange(i as int, s@.len() as int),
            trim_end(t) == trim_end(t.subrange(0, j - i)),
        decreases j,
    {
        proof {
            lemma_trim_end_step(t, (j - i) as int);
        }
        j = j - 1;
    }
    assert(t.subrange(0, j - i) =~= s@.subrange(i as int, j as int));
    assert(trim_end(t.subrange(0, j - i)) == t.subrange(0, j - i)) by {
        let u = t.subrange(0, j - i);
        if u.len() > 0 {
            assert(u.last() == s@[j - 1]);
        }
    }
    (i, j)
}

/// `trim(s@)` as a `String`.
pub fn trimmed(s: &str) -> (r: String)
    ensures
        r@ == trim(s@),
{
    let c = chars_of(s);
    let (i, j) = trim_bounds(c.as_slice());
    string_from_chars(slice_range(c.as_slice(), i, j))
}

/// The characters of `s` from `i` up to `j`, as a `String`.
pub fn substring(s: &[char], i: usize, j: usize) -> (r: String)
    requires
        i <= j <= s@.len(),
    ensures
        r@ == s@.subrange(i as int, j as int),
{
    string_from_chars(slice_range(s, i, j))
}

/// The characters of `s` from `i` up to `j`.
pub fn slice_range(s: &[char], i: usize, j: usize) -> (r: &[char])
    requires
        i <= j <= s@.len(),
    ensures
        r@ == s@.subrange(i as int, j as int),
{
    vstd::slice::slice_subrange(s, i, j)
}

/// Appends the characters of `s` to `out`.
pub fn push_str(out: &mut Vec<char>, s: &str)
    ensures
        final(out)@ == old(out)@ + s@,
{
    let c = chars_of(s);
    push_chars(out, c.as_slice());
}

/// Appends the characters of `s` to `out`.
pub fn push_chars(out: &mut Vec<char>, s: &[char])
    ensures
        final(out)@ == old(out)@ + s@,
{
    let mut i: usize = 0;
    while i < s.len()
        invariant
            i <= s.len(),
            out@ == old(out)@ + s@.subrange(0, i as int),
        decreases s.len() - i,
    {
        out.push(s[i]);
        i = i + 1;
        assert(out@ =~= old(out)@ + s@.subrange(0, i as int));
    }
    assert(s@.subrange(0, i as int) =~= s@);
}

} // verus!

verus! {

/// `p` is a prefix of `s`.
pub open spec fn starts(s: Seq<char>, p: Seq<char>) -> bool {
    p.len() <= s.len() && s.subrange(0, p.len() as int) == p
}

/// Whether `s` begins with the characters of `p`.
pub fn starts_with(s: &[char], p: &str) -> (r: bool)
    ensures
        r == starts(s@, p@),
{
    let pc = chars_of(p);
    if pc.len() > s.len() {
        return false;
    }
    let head = slice_range(s, 0, pc.len());
    chars_equal(head, pc.as_slice())
}

/// Whether `s` holds exactly the characters of `p`.
pub fn equals_str(s: &[char], p: &str) -> (r: bool)
    ensures
        r == (s@ == p@),
{
    let pc = chars_of(p);
    chars_equal(s, pc.as_slice())
}

/// The number of characters of `p`.
pub fn char_len(p: &str) -> (r: usize)
    ensures
        r == p@.len(),
{
    let pc = chars_of(p);
    pc.len()
}

} // verus!

verus! {

/// The index of the first `c` at or after `i`, or the length when there is none.
pub open spec fn find_from(s: Seq<char>, c: char, i: int) -> int
    decreases s.len() - i,
{
    if i < 0 || i >= s.len() {
        s.len() as int
    } else if s[i] == c {
        i
    } else {
        find_from(s, c, i + 1)
    }
}

/// The index of the first `c` at or after `i`, or the length when there is none.
pub fn find_char(s: &[char], c: char, i: usize) -> (r: usize)
    requires
        i <= s@.len(),
    ensures
        r as int == find_from(s@, c, i as int),
        i <= r <= s@.len(),
{
    let mut k: usize = i;
    while k < s.len() && s[k] != c
        invariant
            i <= k <= s@.len(),
            find_from(s@, c, i as int) == find_from(s@, c, k as int),
        decreases s.len() - k,
    {
        k = k + 1;
    }
    k
}

} // verus!
