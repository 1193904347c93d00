//! The human-readable span-of-time grammar: one or more `<integer><unit>`
//! tokens (units `d`, `h`, `m`, `s`), summed into a number of seconds.
//! Printing is canonical (largest units first, zero components left out);
//! parsing accepts any token order, repeated units included, and fails on an
//! empty string, a malformed token, or a sum beyond the 64-bit range.

use crate::wire::{
    dec_of, digits_val, is_digit, lemma_dec_of, lemma_digits_val_nonneg, lemma_digits_val_push,
    is_strbyte, lemma_scan_len_bounds, lemma_scan_len_concat, push_u64, scan_digits, scan_len,
    text_ok,
};
use vstd::prelude::*;

verus! {

/// Seconds denoted by a unit byte; zero marks a byte that is no unit.
pub open spec fn unit_secs(b: u8) -> int {
    if b == 's' as u8 {
        1
    } else if b == 'm' as u8 {
        60
    } else if b == 'h' as u8 {
        3600
    } else if b == 'd' as u8 {
        86400
    } else {
        0
    }
}

pub open spec fn is_unit(b: u8) -> bool {
    unit_secs(b) > 0
}

/// The whole string is a sequence of well-formed `<digits><unit>` tokens.
pub open spec fn dur_tokens_ok(s: Seq<u8>) -> bool
    decreases s.len(),
{
    if s.len() == 0 {
        true
    } else {
        let k = scan_len(s, |b: u8| is_digit(b));
        0 < k && k < s.len() && is_unit(s[k]) && dur_tokens_ok(s.skip(k + 1))
    }
}

/// Sum of the tokens' values in seconds, over the mathematical integers.
pub open spec fn dur_total(s: Seq<u8>) -> int
    decreases s.len(),
{
    if s.len() == 0 {
        0
    } else {
        let k = scan_len(s, |b: u8| is_digit(b));
        if 0 < k && k < s.len() && is_unit(s[k]) {
            digits_val(s.take(k)) * unit_secs(s[k]) + dur_total(s.skip(k + 1))
        } else {
            0
        }
    }
}

/// What a duration wire string denotes: the summed seconds when the string
/// is a non-empty well-formed token sequence whose sum fits in 64 bits.
pub open spec fn dur_parse(s: Seq<u8>) -> Option<u64> {
    if s.len() > 0 && dur_tokens_ok(s) && dur_total(s) <= u64::MAX {
        Some(dur_total(s) as u64)
    } else {
        None
    }
}

pub proof fn lemma_dur_total_nonneg(s: Seq<u8>)
    requires
        dur_tokens_ok(s),
    ensures
        dur_total(s) >= 0,
    decreases s.len(),
{
    if s.len() > 0 {
        let k = scan_len(s, |b: u8| is_digit(b));
        lemma_scan_len_bounds(s, |b: u8| is_digit(b));
        assert(forall|t: int| 0 <= t < k ==> is_digit(#[trigger] s.take(k)[t]));
        lemma_digits_val_nonneg(s.take(k));
        lemma_dur_total_nonneg(s.skip(k + 1));
        assert(digits_val(s.take(k)) * unit_secs(s[k]) >= 0) by (nonlinear_arith)
            requires
                digits_val(s.take(k)) >= 0,
                unit_secs(s[k]) >= 0,
        ;
    }
}

/// Unfolds one leading token: a digit run, a unit byte, then the rest.
pub proof fn lemma_dur_prepend(v: int, u: u8, rest: Seq<u8>)
    requires
        v >= 0,
        is_unit(u),
    ensures
        ({
            let s = dec_of(v as nat) + seq![u] + rest;
            &&& scan_len(s, |b: u8| is_digit(b)) == dec_of(v as nat).len()
            &&& dur_tokens_ok(s) == dur_tokens_ok(rest)
            &&& dur_total(s) == v * unit_secs(u) + dur_total(rest)
        }),
{
    let d = dec_of(v as nat);
    let s = d + seq![u] + rest;
    lemma_dec_of(v as nat);
    assert(!is_digit(u));
    assert((seq![u] + rest)[0] == u);
    assert(s =~= d + (seq![u] + rest));
    lemma_scan_len_concat(d, seq![u] + rest, |b: u8| is_digit(b));
    let k = scan_len(s, |b: u8| is_digit(b));
    assert(k == d.len());
    assert(s.take(k) =~= d);
    assert(s[k] == u);
    assert(s.skip(k + 1) =~= rest);
    assert(s.len() > 0 && 0 < k && k < s.len() && is_unit(s[k]));
    assert(dur_tokens_ok(s) == dur_tokens_ok(rest));
    assert(dur_total(s) == digits_val(d) * unit_secs(u) + dur_total(rest));
}

/// The canonical print of one component: digits and unit when the component
/// is present, nothing when it is zero.
pub open spec fn dur_part(v: int, u: u8) -> Seq<u8> {
    if v > 0 {
        dec_of(v as nat) + seq![u]
    } else {
        Seq::<u8>::empty()
    }
}

/// Canonical wire form of a span: days, hours, minutes, seconds, each
/// printed only when non-zero; the zero span prints as `0s`.
pub open spec fn dur_print(n: u64) -> Seq<u8> {
    if n == 0 {
        seq!['0' as u8, 's' as u8]
    } else {
        let d = n as int / 86400;
        let r1 = n as int % 86400;
        let h = r1 / 3600;
        let r2 = r1 % 3600;
        let m = r2 / 60;
        let sec = r2 % 60;
        dur_part(d, 'd' as u8) + dur_part(h, 'h' as u8) + dur_part(m, 'm' as u8) + dur_part(
            sec,
            's' as u8,
        )
    }
}

proof fn lemma_dur_part_parse(v: int, u: u8, rest: Seq<u8>)
    requires
        v >= 0,
        is_unit(u),
        rest.len() > 0 ==> is_digit(rest[0]),
    ensures
        dur_tokens_ok(dur_part(v, u) + rest) == dur_tokens_ok(rest),
        dur_tokens_ok(rest) ==> dur_total(dur_part(v, u) + rest) == v * unit_secs(u) + dur_total(
            rest,
        ),
        (dur_part(v, u) + rest).len() > 0 ==> is_digit((dur_part(v, u) + rest)[0]),
{
    if v > 0 {
        lemma_dur_prepend(v, u, rest);
        assert(dur_part(v, u) + rest =~= dec_of(v as nat) + seq![u] + rest);
        lemma_dec_of(v as nat);
        assert((dur_part(v, u) + rest)[0] == dec_of(v as nat)[0]);
    } else {
        assert(dur_part(v, u) + rest =~= rest);
    }
}

/// Law: the canonical print of any span parses back to exactly that span.
#[verifier::rlimit(60)]
pub proof fn lemma_duration_round_trip(n: u64)
    ensures
        dur_parse(dur_print(n)) == Some(n),
{
    if n == 0 {
        let s = dur_print(0);
        reveal_with_fuel(scan_len, 3);
        assert(s[0] == '0' as u8 && is_digit(s[0]));
        assert(s.skip(1) =~= seq!['s' as u8]);
        assert(!is_digit(s.skip(1)[0]));
        assert(scan_len(s, |b: u8| is_digit(b)) == 1);
        assert(s.take(1) =~= seq!['0' as u8]);
        assert(digits_val(s.take(1)) == 0) by {
            lemma_digits_val_push(Seq::<u8>::empty(), '0' as u8);
            assert(s.take(1) =~= Seq::<u8>::empty().push('0' as u8));
        }
        assert(s.skip(2) =~= Seq::<u8>::empty());
        reveal_with_fuel(dur_tokens_ok, 2);
        reveal_with_fuel(dur_total, 2);
        assert(dur_tokens_ok(Seq::<u8>::empty()));
        assert(dur_total(Seq::<u8>::empty()) == 0);
        assert(is_unit(s[1]));
        assert(dur_tokens_ok(s));
        assert(dur_total(s) == 0);
    } else {
        let d = n as int / 86400;
        let r1 = n as int % 86400;
        let h = r1 / 3600;
        let r2 = r1 % 3600;
        let m = r2 / 60;
        let sec = r2 % 60;
        let s3 = dur_part(sec, 's' as u8);
        let s2 = dur_part(m, 'm' as u8) + s3;
        let s1 = dur_part(h, 'h' as u8) + s2;
        let s0 = dur_part(d, 'd' as u8) + s1;
        assert(s3 =~= dur_part(sec, 's' as u8) + Seq::<u8>::empty());
        lemma_dur_part_parse(sec, 's' as u8, Seq::<u8>::empty());
        lemma_dur_part_parse(m, 'm' as u8, s3);
        lemma_dur_part_parse(h, 'h' as u8, s2);
        lemma_dur_part_parse(d, 'd' as u8, s1);
        assert(dur_print(n) =~= s0);
        assert(dur_tokens_ok(s0));
        assert(dur_total(s0) == d * 86400 + h * 3600 + m * 60 + sec);
        vstd::arithmetic::div_mod::lemma_fundamental_div_mod(n as int, 86400);
        vstd::arithmetic::div_mod::lemma_fundamental_div_mod(r1, 3600);
        vstd::arithmetic::div_mod::lemma_fundamental_div_mod(r2, 60);
        assert(n as int == 86400 * d + r1);
        assert(r1 == 3600 * h + r2);
        assert(r2 == 60 * m + sec);
        assert(dur_total(s0) == n);
        assert(s0.len() > 0) by {
            if d == 0 && h == 0 && m == 0 && sec == 0 {
                assert(n as int == 0);
            } else {
                if d > 0 {
                    lemma_dec_of(d as nat);
                } else if h > 0 {
                    lemma_dec_of(h as nat);
                } else if m > 0 {
                    lemma_dec_of(m as nat);
                } else {
                    lemma_dec_of(sec as nat);
                }
            }
        }
    }
}

proof fn lemma_dur_part_text(v: int, u: u8)
    requires
        v >= 0,
        is_unit(u),
    ensures
        text_ok(dur_part(v, u)),
{
    if v > 0 {
        lemma_dec_of(v as nat);
        assert forall|i: int| 0 <= i < dur_part(v, u).len() implies is_strbyte(
            #[trigger] dur_part(v, u)[i],
        ) by {
            if i < dec_of(v as nat).len() {
                assert(dur_part(v, u)[i] == dec_of(v as nat)[i]);
                assert(is_digit(dec_of(v as nat)[i]));
            } else {
                assert(dur_part(v, u)[i] == u);
            }
        }
    }
}

/// Every byte of a printed span may stand inside a quoted string.
pub proof fn lemma_dur_print_text(n: u64)
    ensures
        text_ok(dur_print(n)),
{
    if n == 0 {
    } else {
        let d = n as int / 86400;
        let r1 = n as int % 86400;
        let h = r1 / 3600;
        let r2 = r1 % 3600;
        let m = r2 / 60;
        let sec = r2 % 60;
        lemma_dur_part_text(d, 'd' as u8);
        lemma_dur_part_text(h, 'h' as u8);
        lemma_dur_part_text(m, 'm' as u8);
        lemma_dur_part_text(sec, 's' as u8);
        let p1 = dur_part(d, 'd' as u8);
        let p2 = dur_part(h, 'h' as u8);
        let p3 = dur_part(m, 'm' as u8);
        let p4 = dur_part(sec, 's' as u8);
        assert forall|i: int| 0 <= i < dur_print(n).len() implies is_strbyte(
            #[trigger] dur_print(n)[i],
        ) by {
            if i < p1.len() {
                assert(dur_print(n)[i] == p1[i]);
            } else if i < p1.len() + p2.len() {
                assert(dur_print(n)[i] == p2[i - p1.len()]);
            } else if i < p1.len() + p2.len() + p3.len() {
                assert(dur_print(n)[i] == p3[i - p1.len() - p2.len()]);
            } else {
                assert(dur_print(n)[i] == p4[i - p1.len() - p2.len() - p3.len()]);
            }
        }
    }
}

/// Parses a duration wire string; `None` exactly on the strings the grammar
/// rejects and on sums beyond the 64-bit range.
pub fn parse_duration(s: &Vec<u8>) -> (r: Option<u64>)
    ensures
        r == dur_parse(s@),
{
    let n = s.len();
    if n == 0 {
        return None;
    }
    let mut i: usize = 0;
    let mut acc: u64 = 0;
    assert(s@.skip(0) =~= s@);
    while i < n
        invariant
            0 < n == s@.len(),
            0 <= i <= n,
            dur_tokens_ok(s@) == dur_tokens_ok(s@.skip(i as int)),
            dur_tokens_ok(s@.skip(i as int)) ==> dur_total(s@) == acc + dur_total(
                s@.skip(i as int),
            ),
        decreases n - i,
    {
        let ghost rem = s@.skip(i as int);
        let j = scan_digits(s, i);
        let ghost k: int = j - i;
        proof {
            assert(rem.len() > 0);
            assert(scan_len(rem, |b: u8| is_digit(b)) == k);
        }
        if j == i {
            proof {
                assert(!dur_tokens_ok(rem));
            }
            return None;
        }
        if j >= n {
            proof {
                assert(k >= rem.len());
                assert(!dur_tokens_ok(rem));
            }
            return None;
        }
        let ub = s[j];
        let unit: u64 = if ub == 's' as u8 {
            1
        } else if ub == 'm' as u8 {
            60
        } else if ub == 'h' as u8 {
            3600
        } else if ub == 'd' as u8 {
            86400
        } else {
            proof {
                assert(rem[k] == s@[j as int]);
                assert(!is_unit(rem[k]));
                assert(!dur_tokens_ok(rem));
            }
            return None;
        };
        proof {
            assert(rem[k] == s@[j as int]);
            assert(is_unit(rem[k]) && unit == unit_secs(rem[k]));
            assert(rem.take(k) =~= s@.subrange(i as int, j as int));
            assert(rem.skip(k + 1) =~= s@.skip(j + 1));
            assert(dur_tokens_ok(rem) == dur_tokens_ok(s@.skip(j + 1)));
            assert(dur_tokens_ok(rem) ==> dur_total(rem) == digits_val(rem.take(k)) * unit_secs(
                rem[k],
            ) + dur_total(s@.skip(j + 1)));
        }
        // accumulate the magnitude of the digit run
        let mut t: usize = i;
        let mut mag: u64 = 0;
        let mut big: bool = false;
        while t < j
            invariant
                i <= t <= j <= n == s@.len(),
                forall|q: int| i <= q < j ==> is_digit(#[trigger] s@[q]),
                !big ==> mag == digits_val(s@.subrange(i as int, t as int)),
                big ==> digits_val(s@.subrange(i as int, t as int)) > u64::MAX,
            decreases j - t,
        {
            let dv = (s[t] - 48) as u64;
            proof {
                assert(s@.subrange(i as int, t + 1) =~= s@.subrange(i as int, t as int).push(
                    s@[t as int],
                ));
                lemma_digits_val_push(s@.subrange(i as int, t as int), s@[t as int]);
            }
            if big {
                proof {
                    let prev = digits_val(s@.subrange(i as int, t as int));
                    assert(prev * 10 >= prev) by (nonlinear_arith)
                        requires
                            prev > u64::MAX,
                    ;
                }
            } else {
                match mag.checked_mul(10) {
                    Some(m10) => {
                        match m10.checked_add(dv) {
                            Some(m2) => {
                                mag = m2;
                            },
                            None => {
                                big = true;
                            },
                        }
                    },
                    None => {
                        proof {
                            let prev = mag as int;
                            assert(prev * 10 + dv > u64::MAX);
                        }
                        big = true;
                    },
                }
            }
            t = t + 1;
        }
        // fold the token into the running sum
        let ghost magv: int = digits_val(rem.take(k));
        proof {
            assert(rem.take(k) =~= s@.subrange(i as int, j as int));
            lemma_digits_val_nonneg(s@.subrange(i as int, j as int));
            if dur_tokens_ok(rem) {
                lemma_dur_total_nonneg(s@.skip(j + 1));
            }
        }
        if big {
            proof {
                if dur_tokens_ok(rem) {
                    assert(magv * unit_secs(rem[k]) >= magv) by (nonlinear_arith)
                        requires
                            magv >= 0,
                            unit_secs(rem[k]) >= 1,
                    ;
                    assert(dur_total(s@) > u64::MAX);
                }
            }
            return None;
        }
        let tok = match mag.checked_mul(unit) {
            Some(v) => v,
            None => {
                proof {
                    if dur_tokens_ok(rem) {
                        assert(dur_total(s@) > u64::MAX);
                    }
                }
                return None;
            },
        };
        let acc2 = match acc.checked_add(tok) {
            Some(v) => v,
            None => {
                proof {
                    if dur_tokens_ok(rem) {
                        assert(dur_total(s@) > u64::MAX);
                    }
                }
                return None;
            },
        };
        acc = acc2;
        i = j + 1;
    }
    proof {
        assert(s@.skip(n as int) =~= Seq::<u8>::empty());
        assert(dur_tokens_ok(s@));
        assert(dur_total(s@) == acc);
    }
    Some(acc)
}

/// Appends the canonical wire form of a span to `out`.
#[verifier::rlimit(80)]
pub fn push_duration(out: &mut Vec<u8>, n: u64)
    ensures
        final(out)@ == old(out)@ + dur_print(n),
{
    if n == 0 {
        out.push('0' as u8);
        out.push('s' as u8);
        assert(out@ =~= old(out)@ + dur_print(0));
        return ;
    }
    let d: u64 = n / 86400;
    let r1: u64 = n % 86400;
    let h: u64 = r1 / 3600;
    let r2: u64 = r1 % 3600;
    let m: u64 = r2 / 60;
    let sec: u64 = r2 % 60;
    if d > 0 {
        push_u64(out, d);
        out.push('d' as u8);
    }
    assert(out@ =~= old(out)@ + dur_part(d as int, 'd' as u8));
    let ghost mark1 = out@;
    if h > 0 {
        push_u64(out, h);
        out.push('h' as u8);
    }
    assert(out@ =~= mark1 + dur_part(h as int, 'h' as u8));
    let ghost mark2 = out@;
    if m > 0 {
        push_u64(out, m);
        out.push('m' as u8);
    }
    assert(out@ =~= mark2 + dur_part(m as int, 'm' as u8));
    let ghost mark3 = out@;
    if sec > 0 {
        push_u64(out, sec);
        out.push('s' as u8);
    }
    assert(out@ =~= mark3 + dur_part(sec as int, 's' as u8));
    assert(out@ =~= old(out)@ + dur_print(n));
}

/// Canonical wire form of a span as a fresh vector.
pub fn encode_duration(n: u64) -> (r: Vec<u8>)
    ensures
        r@ == dur_print(n),
{
    let mut r: Vec<u8> = Vec::new();
    push_duration(&mut r, n);
    assert(r@ =~= dur_print(n));
    r
}

} // verus!
