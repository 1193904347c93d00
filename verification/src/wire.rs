//! Byte-level primitives shared by every wire format: greedy scanning under a
//! byte predicate, decimal printing and parsing of unsigned integers, and
//! literal matching, each with the inversion lemmas the round-trip proofs use.

use vstd::prelude::*;

verus! {

/// An ASCII decimal digit.
pub open spec fn is_digit(b: u8) -> bool {
    48 <= b && b <= 57
}

/// A byte that may stand inside a quoted string: anything but the quote,
/// the backslash and the control range. Multi-byte UTF-8 content passes
/// through unchanged, byte for byte.
pub open spec fn is_strbyte(b: u8) -> bool {
    b != '"' as u8 && b != '\\' as u8 && b >= 32
}

/// Every byte of `s` may stand inside a quoted string.
pub open spec fn text_ok(s: Seq<u8>) -> bool {
    forall|i: int| 0 <= i < s.len() ==> is_strbyte(#[trigger] s[i])
}

/// Length of the longest prefix of `s` whose bytes all satisfy `p`.
pub open spec fn scan_len(s: Seq<u8>, p: spec_fn(u8) -> bool) -> int
    decreases s.len(),
{
    if s.len() > 0 && p(s[0]) {
        1 + scan_len(s.skip(1), p)
    } else {
        0
    }
}

pub proof fn lemma_scan_len_bounds(s: Seq<u8>, p: spec_fn(u8) -> bool)
    ensures
        0 <= scan_len(s, p) <= s.len(),
        forall|t: int| 0 <= t < scan_len(s, p) ==> p(#[trigger] s[t]),
        scan_len(s, p) < s.len() ==> !p(s[scan_len(s, p)]),
    decreases s.len(),
{
    if s.len() > 0 && p(s[0]) {
        lemma_scan_len_bounds(s.skip(1), p);
        assert forall|t: int| 0 <= t < scan_len(s, p) implies p(#[trigger] s[t]) by {
            if t > 0 {
                assert(s[t] == s.skip(1)[t - 1]);
            }
        }
        if scan_len(s, p) < s.len() {
            assert(s[scan_len(s, p)] == s.skip(1)[scan_len(s, p) - 1]);
        }
    }
}

/// The scan of a concatenation stops exactly at the boundary when the left
/// part satisfies `p` throughout and the right part opens with a byte that
/// does not.
pub proof fn lemma_scan_len_concat(d: Seq<u8>, rest: Seq<u8>, p: spec_fn(u8) -> bool)
    requires
        forall|t: int| 0 <= t < d.len() ==> p(#[trigger] d[t]),
        rest.len() > 0 ==> !p(rest[0]),
    ensures
        scan_len(d + rest, p) == d.len(),
    decreases d.len(),
{
    if d.len() == 0 {
        assert(d + rest =~= rest);
    } else {
        assert((d + rest)[0] == d[0]);
        assert((d + rest).skip(1) =~= d.skip(1) + rest);
        lemma_scan_len_concat(d.skip(1), rest, p);
    }
}

/// Value of a sequence of decimal digit bytes, most significant first.
pub open spec fn digits_val(d: Seq<u8>) -> int
    decreases d.len(),
{
    if d.len() == 0 {
        0
    } else {
        digits_val(d.drop_last()) * 10 + (d.last() - 48)
    }
}

pub proof fn lemma_digits_val_push(d: Seq<u8>, b: u8)
    ensures
        digits_val(d.push(b)) == digits_val(d) * 10 + (b - 48),
{
    assert(d.push(b).drop_last() =~= d);
    assert(d.push(b).last() == b);
}

pub proof fn lemma_digits_val_nonneg(d: Seq<u8>)
    requires
        forall|t: int| 0 <= t < d.len() ==> is_digit(#[trigger] d[t]),
    ensures
        digits_val(d) >= 0,
    decreases d.len(),
{
    if d.len() > 0 {
        lemma_digits_val_nonneg(d.drop_last());
    }
}

/// The canonical decimal form of a non-negative integer: no sign, no
/// leading zero except for the single digit of zero itself.
pub open spec fn dec_of(n: nat) -> Seq<u8>
    decreases n,
{
    if n < 10 {
        seq![(48 + n) as u8]
    } else {
        dec_of(n / 10) + seq![(48 + n % 10) as u8]
    }
}

/// The decimal printer is exact: its output is all digits, non-empty, and
/// parses back to the number it was printed from.
pub proof fn lemma_dec_of(n: nat)
    ensures
        dec_of(n).len() >= 1,
        forall|t: int| 0 <= t < dec_of(n).len() ==> is_digit(#[trigger] dec_of(n)[t]),
        digits_val(dec_of(n)) == n,
    decreases n,
{
    if n < 10 {
        let d = seq![(48 + n) as u8];
        assert(d =~= Seq::<u8>::empty().push((48 + n) as u8));
        lemma_digits_val_push(Seq::<u8>::empty(), (48 + n) as u8);
        assert(digits_val(d) == n);
    } else {
        lemma_dec_of(n / 10);
        let last = (48 + n % 10) as u8;
        assert(dec_of(n) =~= dec_of(n / 10).push(last));
        lemma_digits_val_push(dec_of(n / 10), last);
        assert(digits_val(dec_of(n)) == (n / 10) * 10 + n % 10);
        assert((n / 10) * 10 + n % 10 == n) by (nonlinear_arith);
        assert forall|t: int| 0 <= t < dec_of(n).len() implies is_digit(
            #[trigger] dec_of(n)[t],
        ) by {
            if t < dec_of(n).len() - 1 {
                assert(dec_of(n)[t] == dec_of(n / 10)[t]);
            } else {
                assert(dec_of(n)[t] == last);
            }
        }
    }
}

/// `lit` is a prefix of `s`.
pub open spec fn begins_with(s: Seq<u8>, lit: Seq<u8>) -> bool {
    lit.len() <= s.len() && s.subrange(0, lit.len() as int) == lit
}

pub proof fn lemma_begins_concat(lit: Seq<u8>, rest: Seq<u8>)
    ensures
        begins_with(lit + rest, lit),
        (lit + rest).skip(lit.len() as int) == rest,
{
    assert((lit + rest).subrange(0, lit.len() as int) =~= lit);
    assert((lit + rest).skip(lit.len() as int) =~= rest);
}

/// Append every byte of `lit` to `out`.
pub fn push_lit(out: &mut Vec<u8>, lit: &Vec<u8>)
    ensures
        final(out)@ == old(out)@ + lit@,
{
    let mut i: usize = 0;
    while i < lit.len()
        invariant
            0 <= i <= lit.len(),
            out@ =~= old(out)@ + lit@.subrange(0, i as int),
        decreases lit.len() - i,
    {
        out.push(lit[i]);
        i = i + 1;
    }
    assert(out@ =~= old(out)@ + lit@);
}

/// Append the canonical decimal form of `n` to `out`.
pub fn push_u64(out: &mut Vec<u8>, n: u64)
    ensures
        final(out)@ == old(out)@ + dec_of(n as nat),
    decreases n,
{
    if n >= 10 {
        push_u64(out, n / 10);
    }
    out.push(48 + (n % 10) as u8);
    proof {
        if n < 10 {
            assert(out@ =~= old(out)@ + dec_of(n as nat));
        } else {
            assert(out@ =~= old(out)@ + dec_of(n as nat));
        }
    }
}

/// Whether `lit` stands at position `i` of `s`.
pub fn match_at(s: &Vec<u8>, i: usize, lit: &Vec<u8>) -> (r: bool)
    requires
        i <= s@.len(),
    ensures
        r == begins_with(s@.skip(i as int), lit@),
{
    let n: usize = s.len();
    let m: usize = lit.len();
    if n - i < m {
        return false;
    }
    let mut j: usize = 0;
    while j < m
        invariant
            0 <= j <= m,
            n == s@.len(),
            m == lit@.len(),
            m <= n - i,
            i <= n,
            forall|t: int| 0 <= t < j ==> s@[i + t] == lit@[t],
        decreases m - j,
    {
        if s[i + j] != lit[j] {
            assert(s@.skip(i as int)[j as int] != lit@[j as int]);
            assert(!begins_with(s@.skip(i as int), lit@)) by {
                if begins_with(s@.skip(i as int), lit@) {
                    assert(s@.skip(i as int).subrange(0, lit@.len() as int)[j as int]
                        == lit@[j as int]);
                }
            }
            return false;
        }
        j = j + 1;
    }
    assert(s@.skip(i as int).subrange(0, lit@.len() as int) =~= lit@);
    true
}

/// Copy `s[i..j]` out into a fresh vector.
pub fn copy_range(s: &Vec<u8>, i: usize, j: usize) -> (r: Vec<u8>)
    requires
        i <= j <= s@.len(),
    ensures
        r@ == s@.subrange(i as int, j as int),
{
    let mut r: Vec<u8> = Vec::new();
    let mut t: usize = i;
    while t < j
        invariant
            i <= t <= j <= s@.len(),
            r@ =~= s@.subrange(i as int, t as int),
        decreases j - t,
    {
        r.push(s[t]);
        t = t + 1;
    }
    assert(r@ =~= s@.subrange(i as int, j as int));
    r
}

/// First index at or after `i` whose byte is not a decimal digit.
pub fn scan_digits(s: &Vec<u8>, i: usize) -> (j: usize)
    requires
        i <= s@.len(),
    ensures
        i <= j <= s@.len(),
        j - i == scan_len(s@.skip(i as int), |b: u8| is_digit(b)),
        forall|t: int| i <= t < j ==> is_digit(#[trigger] s@[t]),
{
    let mut j: usize = i;
    while j < s.len() && 48 <= s[j] && s[j] <= 57
        invariant
            i <= j <= s@.len(),
            forall|t: int| i <= t < j ==> is_digit(#[trigger] s@[t]),
        decreases s@.len() - j,
    {
        j = j + 1;
    }
    proof {
        lemma_scan_end(s@, i as int, j as int, |b: u8| is_digit(b));
    }
    j
}

/// First index at or after `i` whose byte may not stand inside a quoted
/// string.
pub fn scan_strbytes(s: &Vec<u8>, i: usize) -> (j: usize)
    requires
        i <= s@.len(),
    ensures
        i <= j <= s@.len(),
        j - i == scan_len(s@.skip(i as int), |b: u8| is_strbyte(b)),
        forall|t: int| i <= t < j ==> is_strbyte(#[trigger] s@[t]),
{
    let mut j: usize = i;
    while j < s.len() && s[j] != '"' as u8 && s[j] != '\\' as u8 && s[j] >= 32
        invariant
            i <= j <= s@.len(),
            forall|t: int| i <= t < j ==> is_strbyte(#[trigger] s@[t]),
        decreases s@.len() - j,
    {
        j = j + 1;
    }
    proof {
        lemma_scan_end(s@, i as int, j as int, |b: u8| is_strbyte(b));
    }
    j
}

/// A scan that stopped at `j` with `p` holding on `[i, j)` and failing at
/// `j` (or `j` at the end) has measured exactly the greedy prefix.
pub proof fn lemma_scan_end(s: Seq<u8>, i: int, j: int, p: spec_fn(u8) -> bool)
    requires
        0 <= i <= j <= s.len(),
        forall|t: int| i <= t < j ==> p(#[trigger] s[t]),
        j < s.len() ==> !p(s[j]),
    ensures
        scan_len(s.skip(i), p) == j - i,
{
    let d = s.subrange(i, j);
    let rest = s.skip(j);
    assert(s.skip(i) =~= d + rest);
    lemma_scan_len_concat(d, rest, p);
}

/// Value of the digit run `s[i..j]` when it fits in 64 bits.
pub fn digits_value_u64(s: &Vec<u8>, i: usize, j: usize) -> (r: Option<u64>)
    requires
        i <= j <= s@.len(),
        forall|t: int| i <= t < j ==> is_digit(#[trigger] s@[t]),
    ensures
        match r {
            Some(v) => v == digits_val(s@.subrange(i as int, j as int)),
            None => digits_val(s@.subrange(i as int, j as int)) > u64::MAX,
        },
{
    let mut t: usize = i;
    let mut acc: u64 = 0;
    let mut big: bool = false;
    while t < j
        invariant
            i <= t <= j <= s@.len(),
            forall|q: int| i <= q < j ==> is_digit(#[trigger] s@[q]),
            !big ==> acc == digits_val(s@.subrange(i as int, t as int)),
            big ==> digits_val(s@.subrange(i as int, t as int)) > u64::MAX,
        decreases j - t,
    {
        let dv = (s[t] - 48) as u64;
        proof {
            assert(s@.subrange(i as int, t + 1) =~= s@.subrange(i as int, t as int).push(
                s@[t as int],
            ));
            lemma_digits_val_push(s@.subrange(i as int, t as int), s@[t as int]);
        }
        if big {
            proof {
                let prev = digits_val(s@.subrange(i as int, t as int));
                assert(prev * 10 >= prev) by (nonlinear_arith)
                    requires
                        prev > u64::MAX,
                ;
            }
        } else {
            match acc.checked_mul(10) {
                Some(m10) => {
                    match m10.checked_add(dv) {
                        Some(m2) => {
                            acc = m2;
                        },
                        None => {
                            big = true;
                        },
                    }
                },
                None => {
                    big = true;
                },
            }
        }
        t = t + 1;
    }
    if big {
        None
    } else {
        Some(acc)
    }
}

} // verus!
