//! Character-level helpers on strings.

use vstd::prelude::*;

verus! {

/// Whether a string reads exactly as a literal.
pub fn same_text(s: &String, lit: &str) -> (r: bool)
    ensures
        r == (s@ == lit@),
{
    let l: String = lit.to_owned();
    s.eq(&l)
}

/// Relies on str::chars, collected in order: the characters of the string.
#[verifier::external_body]
pub(crate) fn chars_of(s: &str) -> (r: Vec<char>)
    ensures
        r@ == s@,
{
    s.chars().collect()
}

/// Relies on String's FromIterator<char>: the string of those characters.
#[verifier::external_body]
pub(crate) fn string_of(v: &Vec<char>) -> (r: String)
    ensures
        r@ == v@,
{
    v.iter().collect()
}

} // verus!

verus! {

pub open spec fn is_digit(c: char) -> bool {
    '0' <= c && c <= '9'
}

pub open spec fn digit_value(c: char) -> int {
    c as int - '0' as int
}

/// Whether a text is one or more decimal digits.
pub open spec fn all_digits(s: Seq<char>) -> bool {
    s.len() > 0 && forall|i: int| 0 <= i < s.len() ==> is_digit(#[trigger] s[i])
}

/// The number that a run of decimal digits writes.
pub open spec fn decimal_value(s: Seq<char>) -> int
    decreases s.len(),
{
    if s.len() == 0 {
        0
    } else {
        decimal_value(s.drop_last()) * 10 + digit_value(s.last())
    }
}

/// Reads a text of decimal digits as a `u16`; `None` where it is no such
/// text or the number does not fit.
pub fn parse_u16(s: &String) -> (r: Option<u16>)
    ensures
        match r {
            Some(v) => all_digits(s@) && v as int == decimal_value(s@),
            None => !all_digits(s@) || decimal_value(s@) > u16::MAX,
        },
{
    let cs = chars_of(s.as_str());
    if cs.len() == 0 {
        return None;
    }
    let mut acc: u32 = 0;
    let mut k: usize = 0;
    while k < cs.len()
        invariant
            cs@ == s@,
            k <= cs@.len(),
            forall|i: int| 0 <= i < k ==> is_digit(#[trigger] cs@[i]),
            acc as int == decimal_value(cs@.take(k as int)),
            acc <= u16::MAX,
        decreases cs@.len() - k,
    {
        let c = cs[k];
        if !('0' <= c && c <= '9') {
            return None;
        }
        assert(cs@.take(k + 1).drop_last() == cs@.take(k as int));
        let next: u32 = acc * 10 + (c as u32 - '0' as u32);
        if next > 65535 {
            proof {
                if all_digits(cs@) {
                    lemma_decimal_prefix_bound(cs@, k as int + 1);
                }
            }
            return None;
        }
        acc = next;
        k = k + 1;
    }
    assert(cs@.take(k as int) == cs@);
    Some(acc as u16)
}

/// A number written by a digit run is at least that of any of its prefixes.
proof fn lemma_decimal_prefix_bound(s: Seq<char>, k: int)
    requires
        0 <= k <= s.len(),
        forall|i: int| 0 <= i < s.len() ==> is_digit(#[trigger] s[i]),
    ensures
        decimal_value(s) >= decimal_value(s.take(k)),
    decreases s.len(),
{
    if s.len() > k {
        assert(s.drop_last().take(k) == s.take(k));
        lemma_decimal_prefix_bound(s.drop_last(), k);
        lemma_decimal_nonneg(s.drop_last());
    } else {
        assert(s.take(k) == s);
    }
}

proof fn lemma_decimal_nonneg(s: Seq<char>)
    requires
        forall|i: int| 0 <= i < s.len() ==> is_digit(#[trigger] s[i]),
    ensures
        decimal_value(s) >= 0,
    decreases s.len(),
{
    if s.len() > 0 {
        lemma_decimal_nonneg(s.drop_last());
    }
}

} // verus!

verus! {

/// The index of the first non-digit at or after `k`.
pub open spec fn digit_run_end(t: Seq<char>, k: int) -> int
    decreases t.len() - k,
{
    if 0 <= k < t.len() && is_digit(t[k]) {
        digit_run_end(t, k + 1)
    } else {
        k
    }
}

/// Whether every character of a text is `0`.
pub open spec fn all_zeros(s: Seq<char>) -> bool {
    forall|i: int| 0 <= i < s.len() ==> #[trigger] s[i] == '0'
}

/// Whether a text writes a whole number: digits, then possibly a point
/// followed by zeros only (`200`, `200.0`, `0200.00`).
pub open spec fn writes_whole_number(t: Seq<char>) -> bool {
    let e = digit_run_end(t, 0);
    e > 0 && (e == t.len() || (t[e] == '.' && all_zeros(t.subrange(e + 1, t.len() as int))))
}

/// The index from which the digits of `t[k..e]` start once leading zeros are
/// dropped, keeping at least one digit.
pub open spec fn skip_zeros(t: Seq<char>, k: int, e: int) -> int
    decreases e - k,
{
    if 0 <= k < e - 1 && t[k] == '0' {
        skip_zeros(t, k + 1, e)
    } else {
        k
    }
}

/// The canonical text of an error code: a whole number is written by its
/// digits without leading zeros and without a fraction; any other text stays
/// as it is.
pub open spec fn canonical_code(t: Seq<char>) -> Seq<char> {
    if writes_whole_number(t) {
        let e = digit_run_end(t, 0);
        t.subrange(skip_zeros(t, 0, e), e)
    } else {
        t
    }
}

/// The canonical text of an error code written as `t`.
pub fn canonical_code_text(t: &str) -> (r: String)
    ensures
        r@ == canonical_code(t@),
{
    let cs = chars_of(t);
    let n = cs.len();
    let mut e: usize = 0;
    while e < n && '0' <= cs[e] && cs[e] <= '9'
        invariant
            cs@ == t@,
            n == cs@.len(),
            e <= n,
            digit_run_end(cs@, e as int) == digit_run_end(cs@, 0),
        decreases n - e,
    {
        e = e + 1;
    }
    if e == 0 {
        return t.to_owned();
    }
    if e < n {
        if cs[e] != '.' {
            return t.to_owned();
        }
        let mut k: usize = e + 1;
        while k < n
            invariant
                cs@ == t@,
                n == cs@.len(),
                e < k <= n,
                digit_run_end(cs@, 0) == e as int,
                cs@[e as int] == '.',
                all_zeros(cs@.subrange(e + 1, k as int)),
            decreases n - k,
        {
            if cs[k] != '0' {
                assert(cs@.subrange(e as int + 1, n as int)[k - e - 1] == cs@[k as int]);
                return t.to_owned();
            }
            assert(cs@.subrange(e as int + 1, k as int + 1) =~= cs@.subrange(e as int + 1, k as int).push(cs@[k as int]));
            k = k + 1;
        }
    }
    let mut s: usize = 0;
    while s + 1 < e && cs[s] == '0'
        invariant
            cs@ == t@,
            n == cs@.len(),
            s < e <= n,
            skip_zeros(cs@, s as int, e as int) == skip_zeros(cs@, 0, e as int),
        decreases e - s,
    {
        s = s + 1;
    }
    let mut out: Vec<char> = Vec::new();
    let mut i: usize = s;
    while i < e
        invariant
            cs@ == t@,
            n == cs@.len(),
            s <= i <= e <= n,
            out@ == cs@.subrange(s as int, i as int),
        decreases e - i,
    {
        out.push(cs[i]);
        i = i + 1;
    }
    string_of(&out)
}

/// A whole number reads the same as an integer, as a float with a zero
/// fraction and as a string of its digits: all have one canonical error code.
pub proof fn lemma_error_code_forms(digits: Seq<char>)
    requires
        all_digits(digits),
    ensures
        canonical_code(digits + seq!['.', '0']) == canonical_code(digits),
        writes_whole_number(digits),
{
    let f = digits + seq!['.', '0'];
    lemma_digit_run_end_prefix(digits, f, 0);
    lemma_digit_run_end_prefix(digits, digits, 0);
    let e = digits.len() as int;
    assert(f.subrange(e + 1, f.len() as int) =~= seq!['0']);
    lemma_skip_zeros_prefix(digits, f, 0, e);
    lemma_skip_zeros_bounds(digits, 0, e);
    assert(f.subrange(skip_zeros(f, 0, e), e) =~= digits.subrange(skip_zeros(digits, 0, e), e));
}

proof fn lemma_digit_run_end_prefix(digits: Seq<char>, f: Seq<char>, k: int)
    requires
        all_digits(digits),
        0 <= k <= digits.len(),
        digits.len() <= f.len(),
        forall|i: int| 0 <= i < digits.len() ==> f[i] == digits[i],
        f.len() > digits.len() ==> !is_digit(f[digits.len() as int]),
    ensures
        digit_run_end(f, k) == digits.len(),
    decreases digits.len() - k,
{
    if k < digits.len() {
        assert(is_digit(digits[k]));
        lemma_digit_run_end_prefix(digits, f, k + 1);
    }
}

proof fn lemma_skip_zeros_bounds(t: Seq<char>, k: int, e: int)
    requires
        0 <= k < e,
    ensures
        k <= skip_zeros(t, k, e) < e,
    decreases e - k,
{
    if k < e - 1 && t[k] == '0' {
        lemma_skip_zeros_bounds(t, k + 1, e);
    }
}

proof fn lemma_skip_zeros_prefix(a: Seq<char>, b: Seq<char>, k: int, e: int)
    requires
        0 <= k <= e <= a.len() <= b.len(),
        forall|i: int| 0 <= i < a.len() ==> b[i] == a[i],
    ensures
        skip_zeros(a, k, e) == skip_zeros(b, k, e),
    decreases e - k,
{
    if k < e - 1 {
        lemma_skip_zeros_prefix(a, b, k + 1, e);
    }
}

} // verus!
