//! The per-field date codec: on the wire a date string always carries the
//! literal prefix `Date: `; in memory it is stored without the prefix.
//! Encoding adds the prefix; decoding strips it when present and otherwise
//! hands the value back unchanged (a deliberate lenient fallback).

use vstd::prelude::*;

verus! {

/// The wire prefix `Date: ` as bytes.
pub open spec fn date_prefix() -> Seq<u8> {
    seq!['D' as u8, 'a' as u8, 't' as u8, 'e' as u8, ':' as u8, ' ' as u8]
}

/// Wire form of an in-memory date string: the prefix followed by the value.
pub open spec fn encode_date_spec(s: Seq<u8>) -> Seq<u8> {
    date_prefix() + s
}

/// Whether a wire value carries the prefix.
pub open spec fn has_date_prefix(w: Seq<u8>) -> bool {
    w.len() >= 6 && w.subrange(0, 6) == date_prefix()
}

/// In-memory form of a wire date string: the prefix stripped when present.
pub open spec fn decode_date_spec(w: Seq<u8>) -> Seq<u8> {
    if has_date_prefix(w) {
        w.skip(6)
    } else {
        w
    }
}

/// Encode direction of the codec: prepend `Date: `.
pub fn encode_date(s: &Vec<u8>) -> (r: Vec<u8>)
    ensures
        r@ == encode_date_spec(s@),
{
    let mut r: Vec<u8> = Vec::new();
    r.push('D' as u8);
    r.push('a' as u8);
    r.push('t' as u8);
    r.push('e' as u8);
    r.push(':' as u8);
    r.push(' ' as u8);
    assert(r@ =~= date_prefix());
    let mut i: usize = 0;
    while i < s.len()
        invariant
            0 <= i <= s.len(),
            r@ =~= date_prefix() + s@.subrange(0, i as int),
        decreases s.len() - i,
    {
        r.push(s[i]);
        i = i + 1;
    }
    assert(r@ =~= encode_date_spec(s@));
    r
}

/// Decode direction of the codec: strip a leading `Date: ` when present.
pub fn decode_date(w: &Vec<u8>) -> (r: Vec<u8>)
    ensures
        r@ == decode_date_spec(w@),
{
    let prefixed: bool = w.len() >= 6 && w[0] == 'D' as u8 && w[1] == 'a' as u8
        && w[2] == 't' as u8 && w[3] == 'e' as u8 && w[4] == ':' as u8 && w[5] == ' ' as u8;
    proof {
        if prefixed {
            assert(w@.subrange(0, 6) =~= date_prefix());
        } else if w@.len() >= 6 && w@.subrange(0, 6) == date_prefix() {
            assert(w@[0] == 'D' as u8 && w@[1] == 'a' as u8 && w@[2] == 't' as u8
                && w@[3] == 'e' as u8 && w@[4] == ':' as u8 && w@[5] == ' ' as u8);
        }
        assert(prefixed == has_date_prefix(w@));
    }
    let start: usize = if prefixed { 6 } else { 0 };
    let mut r: Vec<u8> = Vec::new();
    let mut i: usize = start;
    while i < w.len()
        invariant
            start <= i <= w.len(),
            r@ =~= w@.subrange(start as int, i as int),
        decreases w.len() - i,
    {
        r.push(w[i]);
        i = i + 1;
    }
    proof {
        if prefixed {
            assert(r@ =~= w@.skip(6));
        } else {
            assert(r@ =~= w@);
        }
    }
    r
}

/// Law: decoding an encoded date gives back the original value, for every
/// value, prefix collisions included.
pub proof fn lemma_date_codec_decode_encode(s: Seq<u8>)
    ensures
        decode_date_spec(encode_date_spec(s)) == s,
{
    assert(encode_date_spec(s).subrange(0, 6) =~= date_prefix());
    assert(encode_date_spec(s).skip(6) =~= s);
}

/// Law: re-encoding a decoded wire value reproduces the wire value whenever
/// the wire value carries the prefix.
pub proof fn lemma_date_codec_encode_decode(w: Seq<u8>)
    requires
        has_date_prefix(w),
    ensures
        encode_date_spec(decode_date_spec(w)) == w,
{
    assert(encode_date_spec(decode_date_spec(w)) =~= w);
}

} // verus!
