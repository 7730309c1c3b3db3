//! Reading the `max-age` directive of a `Cache-Control` header value.
//!
//! A header value is a list of directives separated by commas; spaces and
//! tabs around a directive are ignored. The first directive whose name is
//! `max-age` (in any letter case) followed by `=` decides: its argument must be
//! a non-empty run of decimal digits whose value fits in a `u64`.

use vstd::prelude::*;

verus! {

/// Optional whitespace: a space or a horizontal tab.
pub open spec fn is_ows(b: u8) -> bool {
    b == 0x20 || b == 0x09
}

/// An ASCII decimal digit.
pub open spec fn is_digit(b: u8) -> bool {
    0x30 <= b <= 0x39
}

/// ASCII upper-case letters mapped to lower case; other bytes unchanged.
pub open spec fn ascii_lower(b: u8) -> u8 {
    if 0x41 <= b <= 0x5a {
        (b + 0x20) as u8
    } else {
        b
    }
}

/// The directive name `max-age`.
pub open spec fn max_age_name() -> Seq<u8> {
    seq![0x6du8, 0x61u8, 0x78u8, 0x2du8, 0x61u8, 0x67u8, 0x65u8]
}

/// The value of a run of decimal digits.
pub open spec fn digits_value(v: Seq<u8>) -> nat
    decreases v.len(),
{
    if v.len() == 0 {
        0
    } else {
        digits_value(v.drop_last()) * 10 + (v.last() - 0x30) as nat
    }
}

/// The argument of a `max-age` directive, as a number of seconds.
pub open spec fn delta_seconds(v: Seq<u8>) -> Option<u64> {
    if v.len() > 0 && (forall|i: int| 0 <= i < v.len() ==> #[trigger] is_digit(v[i]))
        && digits_value(v) <= u64::MAX {
        Some(digits_value(v) as u64)
    } else {
        None
    }
}

/// `None` where `d` is not a `max-age` directive; else what its argument
/// gives.
pub open spec fn directive_max_age(d: Seq<u8>) -> Option<Option<u64>> {
    if d.len() >= 8 && (forall|i: int| 0 <= i < 7 ==> #[trigger] ascii_lower(d[i])
        == max_age_name()[i]) && d[7] == 0x3d {
        Some(delta_seconds(d.skip(8)))
    } else {
        None
    }
}

/// Where the directive that starts at `start` ends: at the next comma, or at
/// the end of the value.
pub open spec fn segment_end(s: Seq<u8>, start: int) -> int
    decreases s.len() - start,
{
    if start >= s.len() {
        s.len() as int
    } else if s[start] == 0x2c {
        start
    } else {
        segment_end(s, start + 1)
    }
}

/// The first position in `[lo, hi)` that is not whitespace, or `hi`.
pub open spec fn skip_ows(s: Seq<u8>, lo: int, hi: int) -> int
    decreases hi - lo,
{
    if lo < hi && is_ows(s[lo]) {
        skip_ows(s, lo + 1, hi)
    } else {
        lo
    }
}

/// `hi`, moved back over the whitespace that ends `[lo, hi)`.
pub open spec fn trim_end(s: Seq<u8>, lo: int, hi: int) -> int
    decreases hi - lo,
{
    if lo < hi && is_ows(s[hi - 1]) {
        trim_end(s, lo, hi - 1)
    } else {
        hi
    }
}

pub proof fn lemma_segment_end_bounds(s: Seq<u8>, start: int)
    requires
        0 <= start <= s.len(),
    ensures
        start <= segment_end(s, start) <= s.len(),
        segment_end(s, start) < s.len() ==> s[segment_end(s, start)] == 0x2c,
        forall|j: int| start <= j < segment_end(s, start) ==> s[j] != 0x2c,
    decreases s.len() - start,
{
    if start < s.len() && s[start] != 0x2c {
        lemma_segment_end_bounds(s, start + 1);
    }
}

pub proof fn lemma_skip_ows_bounds(s: Seq<u8>, lo: int, hi: int)
    requires
        lo <= hi,
    ensures
        lo <= skip_ows(s, lo, hi) <= hi,
    decreases hi - lo,
{
    if lo < hi && is_ows(s[lo]) {
        lemma_skip_ows_bounds(s, lo + 1, hi);
    }
}

pub proof fn lemma_trim_end_bounds(s: Seq<u8>, lo: int, hi: int)
    requires
        lo <= hi,
    ensures
        lo <= trim_end(s, lo, hi) <= hi,
    decreases hi - lo,
{
    if lo < hi && is_ows(s[hi - 1]) {
        lemma_trim_end_bounds(s, lo, hi - 1);
    }
}

/// The directive that starts at `start`, without surrounding whitespace.
pub open spec fn directive_at(s: Seq<u8>, start: int) -> Seq<u8> {
    let end = segment_end(s, start);
    let a = skip_ows(s, start, end);
    s.subrange(a, trim_end(s, a, end))
}

/// The `max-age` that the directives from `start` on give.
pub open spec fn max_age_from(s: Seq<u8>, start: int) -> Option<u64>
    decreases s.len() - start,
{
    if 0 <= start <= s.len() {
        let end = segment_end(s, start);
        match directive_max_age(directive_at(s, start)) {
            Some(v) => v,
            None => if end < s.len() {
                proof {
                    lemma_segment_end_bounds(s, start);
                }
                max_age_from(s, end + 1)
            } else {
                None
            },
        }
    } else {
        None
    }
}

/// The `max-age` of a whole `Cache-Control` header value.
pub open spec fn max_age(s: Seq<u8>) -> Option<u64> {
    max_age_from(s, 0)
}

proof fn lemma_digits_step(v: Seq<u8>, i: int)
    requires
        0 <= i < v.len(),
    ensures
        digits_value(v.take(i + 1)) == digits_value(v.take(i)) * 10 + (v[i] - 0x30) as nat,
{
    assert(v.take(i + 1).drop_last() =~= v.take(i));
}

proof fn lemma_digits_monotone(v: Seq<u8>, i: int)
    requires
        0 <= i <= v.len(),
        forall|j: int| 0 <= j < v.len() ==> #[trigger] is_digit(v[j]),
    ensures
        digits_value(v.take(i)) <= digits_value(v),
    decreases v.len() - i,
{
    if i < v.len() {
        lemma_digits_step(v, i);
        assert(is_digit(v[i]));
        lemma_digits_monotone(v, i + 1);
    } else {
        assert(v.take(i) =~= v);
    }
}

/// Where the directive that starts at `start` ends.
fn find_segment_end(s: &[u8], start: usize) -> (r: usize)
    requires
        start <= s@.len(),
    ensures
        r == segment_end(s@, start as int),
{
    let n = s.len();
    let mut i = start;
    while i < n && s[i] != 0x2c
        invariant
            start <= i <= n,
            n == s@.len(),
            segment_end(s@, start as int) == segment_end(s@, i as int),
        decreases n - i,
    {
        i = i + 1;
    }
    i
}

/// The first position in `[lo, hi)` that is not whitespace, or `hi`.
fn skip_leading_ows(s: &[u8], lo: usize, hi: usize) -> (r: usize)
    requires
        lo <= hi <= s@.len(),
    ensures
        r == skip_ows(s@, lo as int, hi as int),
{
    let mut i = lo;
    while i < hi && (s[i] == 0x20 || s[i] == 0x09)
        invariant
            lo <= i <= hi,
            hi <= s@.len(),
            skip_ows(s@, lo as int, hi as int) == skip_ows(s@, i as int, hi as int),
        decreases hi - i,
    {
        i = i + 1;
    }
    i
}

/// `hi`, moved back over the whitespace that ends `[lo, hi)`.
fn skip_trailing_ows(s: &[u8], lo: usize, hi: usize) -> (r: usize)
    requires
        lo <= hi <= s@.len(),
    ensures
        r == trim_end(s@, lo as int, hi as int),
{
    let mut j = hi;
    while lo < j && (s[j - 1] == 0x20 || s[j - 1] == 0x09)
        invariant
            lo <= j <= hi,
            hi <= s@.len(),
            trim_end(s@, lo as int, hi as int) == trim_end(s@, lo as int, j as int),
        decreases j - lo,
    {
        j = j - 1;
    }
    j
}

/// The number of seconds that the digits in `s[lo..hi]` give.
fn parse_delta_seconds(s: &[u8], lo: usize, hi: usize) -> (r: Option<u64>)
    requires
        lo <= hi <= s@.len(),
    ensures
        r == delta_seconds(s@.subrange(lo as int, hi as int)),
{
    let ghost v = s@.subrange(lo as int, hi as int);
    if lo == hi {
        return None;
    }
    let mut acc: u64 = 0;
    let mut i = lo;
    assert(v.take(0) =~= Seq::<u8>::empty());
    while i < hi
        invariant
            lo <= i <= hi,
            hi <= s@.len(),
            v == s@.subrange(lo as int, hi as int),
            acc == digits_value(v.take(i - lo)),
            forall|j: int| 0 <= j < i - lo ==> #[trigger] is_digit(v[j]),
        decreases hi - i,
    {
        let b = s[i];
        if b < 0x30 || b > 0x39 {
            assert(!is_digit(v[i - lo]));
            return None;
        }
        proof {
            lemma_digits_step(v, i - lo);
        }
        let next = match acc.checked_mul(10) {
            Some(t) => t.checked_add((b - 0x30) as u64),
            None => None,
        };
        match next {
            Some(t) => {
                acc = t;
            },
            None => {
                proof {
                    if forall|j: int| 0 <= j < v.len() ==> #[trigger] is_digit(v[j]) {
                        lemma_digits_monotone(v, i - lo + 1);
                    }
                }
                return None;
            },
        }
        i = i + 1;
    }
    assert(v.take(hi - lo) =~= v);
    Some(acc)
}

/// What the directive `s[a..b]` says of `max-age`, as `directive_max_age`.
fn directive_value(s: &[u8], a: usize, b: usize) -> (r: Option<Option<u64>>)
    requires
        a <= b <= s@.len(),
    ensures
        r == directive_max_age(s@.subrange(a as int, b as int)),
{
    let ghost d = s@.subrange(a as int, b as int);
    if b - a < 8 {
        return None;
    }
    let name: [u8; 7] = [0x6d, 0x61, 0x78, 0x2d, 0x61, 0x67, 0x65];
    assert(name@ =~= max_age_name());
    let mut i: usize = 0;
    while i < 7
        invariant
            i <= 7,
            a + 8 <= b <= s@.len(),
            d == s@.subrange(a as int, b as int),
            name@ == max_age_name(),
            forall|j: int| 0 <= j < i ==> #[trigger] ascii_lower(d[j]) == max_age_name()[j],
        decreases 7 - i,
    {
        let c = s[a + i];
        let lower = if 0x41 <= c && c <= 0x5a {
            c + 0x20
        } else {
            c
        };
        assert(lower == ascii_lower(d[i as int]));
        if lower != name[i] {
            return None;
        }
        i = i + 1;
    }
    if s[a + 7] != 0x3d {
        return None;
    }
    assert(d.skip(8) =~= s@.subrange(a + 8, b as int));
    Some(parse_delta_seconds(s, a + 8, b))
}

/// The `max-age` of a `Cache-Control` header value, in seconds.
pub fn parse_max_age(value: &[u8]) -> (r: Option<u64>)
    ensures
        r == max_age(value@),
{
    let n = value.len();
    let mut start: usize = 0;
    loop
        invariant
            start <= n,
            n == value@.len(),
            max_age(value@) == max_age_from(value@, start as int),
        decreases n - start,
    {
        let end = find_segment_end(value, start);
        proof {
            lemma_segment_end_bounds(value@, start as int);
        }
        let a = skip_leading_ows(value, start, end);
        proof {
            lemma_skip_ows_bounds(value@, start as int, end as int);
        }
        let b = skip_trailing_ows(value, a, end);
        proof {
            lemma_trim_end_bounds(value@, a as int, end as int);
        }
        match directive_value(value, a, b) {
            Some(v) => {
                return v;
            },
            None => {},
        }
        if end < n {
            start = end + 1;
        } else {
            return None;
        }
    }
}

/// The `max-age` of the `Cache-Control` header of a response, where it has
/// one.
pub fn get_max_age(cache_control: Option<&[u8]>) -> (r: Option<u64>)
    ensures
        r == (match cache_control {
            Some(value) => max_age(value@),
            None => None,
        }),
{
    match cache_control {
        Some(value) => parse_max_age(value),
        None => None,
    }
}

/// The decimal form of `n`, without leading zeros.
pub open spec fn decimal(n: nat) -> Seq<u8>
    decreases n,
{
    if n < 10 {
        seq![(0x30 + n) as u8]
    } else {
        decimal(n / 10).push((0x30 + n % 10) as u8)
    }
}

proof fn lemma_decimal(n: nat)
    ensures
        decimal(n).len() > 0,
        forall|i: int| 0 <= i < decimal(n).len() ==> #[trigger] is_digit(decimal(n)[i]),
        digits_value(decimal(n)) == n,
    decreases n,
{
    if n < 10 {
        let d = decimal(n);
        assert(d.drop_last() =~= Seq::<u8>::empty());
        assert(d.last() == (0x30 + n) as u8);
        assert(digits_value(d) == digits_value(d.drop_last()) * 10 + (d.last() - 0x30) as nat);
        assert(digits_value(d.drop_last()) == 0);
    } else {
        lemma_decimal(n / 10);
        let d = decimal(n);
        assert(d.drop_last() =~= decimal(n / 10));
        assert(n % 10 < 10);
        assert(d.last() == (0x30 + n % 10) as u8);
        assert(n == (n / 10) * 10 + n % 10) by (nonlinear_arith);
        assert(digits_value(d) == digits_value(d.drop_last()) * 10 + (d.last() - 0x30) as nat);
        assert forall|i: int| 0 <= i < d.len() implies #[trigger] is_digit(d[i]) by {
            if i < d.len() - 1 {
                assert(d[i] == decimal(n / 10)[i]);
            }
        }
    }
}

/// A header value that is the single directive `max-age=` followed by the
/// decimal form of `n` is read back as `n`.
pub proof fn lemma_max_age_reads_back(n: u64)
    ensures
        max_age(max_age_name().push(0x3d) + decimal(n as nat)) == Some(n),
{
    let digits = decimal(n as nat);
    lemma_decimal(n as nat);
    let s = max_age_name().push(0x3d) + digits;
    assert forall|j: int| 0 <= j < s.len() implies s[j] != 0x2c by {
        if j >= 8 {
            assert(s[j] == digits[j - 8]);
            assert(is_digit(digits[j - 8]));
        }
    }
    lemma_segment_end_bounds(s, 0);
    assert(segment_end(s, 0) == s.len());
    assert(skip_ows(s, 0, s.len() as int) == 0);
    assert(is_digit(s[s.len() - 1]));
    assert(trim_end(s, 0, s.len() as int) == s.len());
    assert(directive_at(s, 0) =~= s);
    assert(s.skip(8) =~= digits);
    assert(directive_max_age(s) == Some(delta_seconds(digits)));
}

proof fn lemma_segment_end_at_most(s: Seq<u8>, start: int, j: int)
    requires
        0 <= start <= j < s.len(),
        s[j] == 0x2c,
    ensures
        segment_end(s, start) <= j,
    decreases j - start,
{
    if s[start] != 0x2c {
        lemma_segment_end_at_most(s, start + 1, j);
    }
}

proof fn lemma_segment_end_exact(s: Seq<u8>, start: int, j: int)
    requires
        0 <= start <= j <= s.len(),
        forall|k: int| start <= k < j ==> s[k] != 0x2c,
        j == s.len() || s[j] == 0x2c,
    ensures
        segment_end(s, start) == j,
    decreases j - start,
{
    if start < j {
        lemma_segment_end_exact(s, start + 1, j);
    }
}

/// Directives before position `m`, where `s[m]` is a comma and no `=` comes
/// before it, are passed over.
proof fn lemma_skip_plain_directives(s: Seq<u8>, m: int, start: int)
    requires
        0 <= start <= m < s.len(),
        s[m] == 0x2c,
        forall|k: int| 0 <= k < m ==> s[k] != 0x3d,
    ensures
        max_age_from(s, start) == max_age_from(s, m + 1),
    decreases m - start,
{
    let end = segment_end(s, start);
    lemma_segment_end_bounds(s, start);
    lemma_segment_end_at_most(s, start, m);
    let a = skip_ows(s, start, end);
    lemma_skip_ows_bounds(s, start, end);
    let b = trim_end(s, a, end);
    lemma_trim_end_bounds(s, a, end);
    let d = directive_at(s, start);
    assert(d == s.subrange(a, b));
    if d.len() >= 8 {
        assert(d[7] == s[a + 7]);
        assert(d[7] != 0x3d);
    }
    assert(directive_max_age(d) is None);
    if end < m {
        lemma_skip_plain_directives(s, m, end + 1);
    }
}

/// Law: a `max-age` directive is read wherever it stands and however long
/// the value is: after any directives that hold no `=` (each of which is
/// therefore not a `max-age` directive), a directive `max-age=` followed by
/// the decimal form of `n` gives `n`, whatever directives follow it.
pub proof fn lemma_max_age_found_after_other_directives(
    before: Seq<u8>,
    n: u64,
    after: Seq<u8>,
)
    requires
        forall|k: int| 0 <= k < before.len() ==> before[k] != 0x3d,
        after.len() == 0 || after[0] == 0x2c,
    ensures
        max_age(before + seq![0x2cu8, 0x20u8] + max_age_name().push(0x3d) + decimal(n as nat)
            + after) == Some(n),
{
    let digits = decimal(n as nat);
    lemma_decimal(n as nat);
    let dir = max_age_name().push(0x3d) + digits;
    let s = before + seq![0x2cu8, 0x20u8] + dir + after;
    let m = before.len() as int;
    let start = m + 1;
    let a = m + 2;
    let e = a + dir.len();
    assert(s[m] == 0x2c);
    assert forall|k: int| 0 <= k < m implies s[k] != 0x3d by {
        assert(s[k] == before[k]);
    }
    if m > 0 {
        lemma_skip_plain_directives(s, m, 0);
    }
    assert(max_age(s) == max_age_from(s, start));
    assert forall|k: int| 0 <= k < dir.len() implies s[a + k] == dir[k] by {}
    assert forall|k: int| start <= k < e implies s[k] != 0x2c by {
        if k > start {
            let j = k - a;
            if j >= 8 {
                assert(dir[j] == digits[j - 8]);
                assert(is_digit(digits[j - 8]));
            }
            assert(s[k] == dir[j]);
        }
    }
    if e < s.len() {
        assert(s[e] == after[0]);
    }
    lemma_segment_end_exact(s, start, e);
    assert(is_ows(s[start]));
    assert(!is_ows(s[a]));
    assert(skip_ows(s, a, e) == a);
    assert(skip_ows(s, start, e) == a);
    assert(s[e - 1] == digits[digits.len() - 1]);
    assert(is_digit(digits[digits.len() - 1]));
    assert(trim_end(s, a, e) == e);
    assert(directive_at(s, start) =~= dir);
    assert(dir.skip(8) =~= digits);
    assert(delta_seconds(digits) == Some(n));
    assert(directive_max_age(dir) == Some(Some(n)));
    assert(max_age_from(s, start) == Some(n));
    assert(s =~= before + seq![0x2cu8, 0x20u8] + max_age_name().push(0x3d) + decimal(n as nat)
        + after);
}

} // verus!
