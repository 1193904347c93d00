//! The self-describing hierarchical wire format: a compact nested key-value
//! text in which every value's type is readable off its literal syntax.
//! Objects are brace-delimited with the schema's fields in declaration
//! order, sequences are bracket-delimited and comma-separated, strings are
//! quote-delimited (no escape sequences: a quote, backslash or control byte
//! ends or rejects the string), numbers are unsigned decimals. This is the
//! one format the pipeline both decodes and encodes.
//!
//! Error discipline: broken structure (braces, separators, quotes, trailing
//! bytes) is a `Parse` error; a wrong or missing key, or a value outside its
//! field's grammar or range, is a `Schema` error naming the field.

use crate::datecodec::{decode_date_spec, encode_date_spec};
use crate::domain::{
    DebugInfo, DebugInfoV, DecodeError, Event, EventV, Field, Gift, GiftV, PrivateTariff,
    PrivateTariffV, PublicTariff, PublicTariffV, Request, RequestType, RequestV, Stream, StreamV,
    gifts_view, uuid_ok, valid_request, valid_event, check_uuid,
};
use crate::duration::{dur_parse, dur_print};
use crate::lit::{
    l_k_at, l_k_client_price, l_k_date, l_k_debug, l_k_description, l_k_duration, l_k_gifts,
    l_k_id, l_k_is_private, l_k_name, l_k_price, l_k_private_tariff, l_k_public_tariff,
    l_k_settings, l_k_shard_url, l_k_stream, l_k_type, l_k_user_id, l_v_false, l_v_success,
    l_v_true, lv_k_at, lv_k_client_price, lv_k_date, lv_k_debug, lv_k_description, lv_k_duration,
    lv_k_gifts, lv_k_id, lv_k_is_private, lv_k_name, lv_k_price, lv_k_private_tariff,
    lv_k_public_tariff, lv_k_settings, lv_k_shard_url, lv_k_stream, lv_k_type, lv_k_user_id,
    lv_v_false, lv_v_success, lv_v_true, qstr,
};
use crate::trusted::{check_timestamp, check_uri, timestamp_ok, uri_ok};
use crate::wire::{
    begins_with, dec_of, digits_val, is_digit, is_strbyte, scan_len, text_ok,
};
use vstd::prelude::*;

verus! {

// ---------------------------------------------------------------------
// leaf parsers, specification level (each consumes from the front)
// ---------------------------------------------------------------------

/// Consume the single byte `b`.
pub open spec fn sp_byte(s: Seq<u8>, b: u8) -> Option<Seq<u8>> {
    if s.len() > 0 && s[0] == b {
        Some(s.skip(1))
    } else {
        None
    }
}

/// Consume the literal `lit`.
pub open spec fn sp_lit(s: Seq<u8>, lit: Seq<u8>) -> Option<Seq<u8>> {
    if begins_with(s, lit) {
        Some(s.skip(lit.len() as int))
    } else {
        None
    }
}

/// Consume a quoted string; yields its unquoted content.
pub open spec fn sp_string(s: Seq<u8>) -> Option<(Seq<u8>, Seq<u8>)> {
    if s.len() > 0 && s[0] == '"' as u8 {
        let k = scan_len(s.skip(1), |b: u8| is_strbyte(b));
        if 1 + k < s.len() && s[1 + k] == '"' as u8 {
            Some((s.skip(1).take(k), s.skip(2 + k)))
        } else {
            None
        }
    } else {
        None
    }
}

/// Consume an unsigned decimal; yields its mathematical value.
pub open spec fn sp_num(s: Seq<u8>) -> Option<(int, Seq<u8>)> {
    let k = scan_len(s, |b: u8| is_digit(b));
    if k > 0 {
        Some((digits_val(s.take(k)), s.skip(k)))
    } else {
        None
    }
}

/// Consume a boolean literal.
pub open spec fn sp_bool(s: Seq<u8>) -> Option<(bool, Seq<u8>)> {
    if begins_with(s, l_v_true()) {
        Some((true, s.skip(l_v_true().len() as int)))
    } else if begins_with(s, l_v_false()) {
        Some((false, s.skip(l_v_false().len() as int)))
    } else {
        None
    }
}

// ---------------------------------------------------------------------
// field-shaped steps: a key, or a separator and a key, then a value
// ---------------------------------------------------------------------

/// Expect a key literal; a mismatch is a schema error naming the field.
pub open spec fn sp_key(s: Seq<u8>, key: Seq<u8>, f: Field) -> Result<Seq<u8>, DecodeError> {
    match sp_lit(s, key) {
        Some(r) => Ok(r),
        None => Err(DecodeError::Schema(f)),
    }
}

/// Expect a comma, then a key literal.
pub open spec fn sp_sep_key(s: Seq<u8>, key: Seq<u8>, f: Field) -> Result<Seq<u8>, DecodeError> {
    match sp_byte(s, ',' as u8) {
        Some(r) => sp_key(r, key, f),
        None => Err(DecodeError::Parse),
    }
}

/// A 32-bit unsigned field value: a decimal within range.
pub open spec fn sp_u32_val(s: Seq<u8>, f: Field) -> Result<(u32, Seq<u8>), DecodeError> {
    match sp_num(s) {
        Some((v, r)) => if v > u32::MAX {
            Err(DecodeError::Schema(f))
        } else {
            Ok((v as u32, r))
        },
        None => Err(DecodeError::Schema(f)),
    }
}

/// A free string field value.
pub open spec fn sp_str_val(s: Seq<u8>, f: Field) -> Result<(Seq<u8>, Seq<u8>), DecodeError> {
    match sp_string(s) {
        Some((v, r)) => Ok((v, r)),
        None => Err(DecodeError::Schema(f)),
    }
}

/// A span-of-time field value: a quoted string in the duration grammar.
pub open spec fn sp_dur_val(s: Seq<u8>, f: Field) -> Result<(u64, Seq<u8>), DecodeError> {
    match sp_string(s) {
        Some((w, r)) => match dur_parse(w) {
            Some(d) => Ok((d, r)),
            None => Err(DecodeError::Schema(f)),
        },
        None => Err(DecodeError::Schema(f)),
    }
}

/// A boolean field value.
pub open spec fn sp_bool_val(s: Seq<u8>, f: Field) -> Result<(bool, Seq<u8>), DecodeError> {
    match sp_bool(s) {
        Some((v, r)) => Ok((v, r)),
        None => Err(DecodeError::Schema(f)),
    }
}

// ---------------------------------------------------------------------
// entity decoders, specification level
// ---------------------------------------------------------------------

pub open spec fn sp_public_tariff(s: Seq<u8>) -> Result<(PublicTariffV, Seq<u8>), DecodeError> {
    match sp_byte(s, '{' as u8) {
        None => Err(DecodeError::Parse),
        Some(s) => match sp_key(s, l_k_id(), Field::PublicTariffId) {
            Err(e) => Err(e),
            Ok(s) => match sp_u32_val(s, Field::PublicTariffId) {
                Err(e) => Err(e),
                Ok((id, s)) => match sp_sep_key(s, l_k_price(), Field::PublicTariffPrice) {
                    Err(e) => Err(e),
                    Ok(s) => match sp_u32_val(s, Field::PublicTariffPrice) {
                        Err(e) => Err(e),
                        Ok((price, s)) => match sp_sep_key(
                            s,
                            l_k_duration(),
                            Field::PublicTariffDuration,
                        ) {
                            Err(e) => Err(e),
                            Ok(s) => match sp_dur_val(s, Field::PublicTariffDuration) {
                                Err(e) => Err(e),
                                Ok((duration, s)) => match sp_sep_key(
                                    s,
                                    l_k_description(),
                                    Field::PublicTariffDescription,
                                ) {
                                    Err(e) => Err(e),
                                    Ok(s) => match sp_str_val(s, Field::PublicTariffDescription) {
                                        Err(e) => Err(e),
                                        Ok((description, s)) => match sp_byte(s, '}' as u8) {
                                            None => Err(DecodeError::Parse),
                                            Some(s) => Ok(
                                                (
                                                    PublicTariffV { id, price, duration, description },
                                                    s,
                                                ),
                                            ),
                                        },
                                    },
                                },
                            },
                        },
                    },
                },
            },
        },
    }
}

// ---------------------------------------------------------------------
// entity encoders, specification level
// ---------------------------------------------------------------------

pub open spec fn json_of_public_tariff(t: PublicTariffV) -> Seq<u8> {
    seq!['{' as u8] + l_k_id() + dec_of(t.id as nat) + seq![',' as u8] + l_k_price() + dec_of(
        t.price as nat,
    ) + seq![',' as u8] + l_k_duration() + qstr(dur_print(t.duration)) + seq![',' as u8]
        + l_k_description() + qstr(t.description) + seq!['}' as u8]
}

// ---------------------------------------------------------------------
// inversion lemmas for the leaf parsers
// ---------------------------------------------------------------------

pub proof fn lemma_sp_byte_inv(b: u8, rest: Seq<u8>)
    ensures
        sp_byte(seq![b] + rest, b) == Some(rest),
{
    let s = seq![b] + rest;
    assert(s[0] == b);
    assert(s.skip(1) =~= rest);
}

pub proof fn lemma_sp_key_inv(key: Seq<u8>, rest: Seq<u8>, f: Field)
    ensures
        sp_key(key + rest, key, f) == Ok::<Seq<u8>, DecodeError>(rest),
{
    crate::wire::lemma_begins_concat(key, rest);
}

pub proof fn lemma_sp_sep_key_inv(key: Seq<u8>, rest: Seq<u8>, f: Field)
    ensures
        sp_sep_key(seq![',' as u8] + (key + rest), key, f) == Ok::<Seq<u8>, DecodeError>(rest),
{
    lemma_sp_byte_inv(',' as u8, key + rest);
    lemma_sp_key_inv(key, rest, f);
}

pub proof fn lemma_sp_string_inv(v: Seq<u8>, rest: Seq<u8>)
    requires
        text_ok(v),
    ensures
        sp_string(qstr(v) + rest) == Some((v, rest)),
{
    let q: u8 = '"' as u8;
    let s = qstr(v) + rest;
    assert(s[0] == q);
    assert(s.len() > 0);
    assert(s.skip(1) =~= v + (seq![q] + rest));
    assert(!is_strbyte((seq![q] + rest)[0]));
    crate::wire::lemma_scan_len_concat(v, seq![q] + rest, |b: u8| is_strbyte(b));
    let k = scan_len(s.skip(1), |b: u8| is_strbyte(b));
    assert(k == v.len());
    assert(1 + k < s.len());
    assert(s[1 + k] == q);
    assert(s.skip(1).take(k) =~= v);
    assert(s.skip(2 + k) =~= rest);
}

pub proof fn lemma_sp_u32_inv(v: u32, rest: Seq<u8>, f: Field)
    requires
        rest.len() > 0 ==> !is_digit(rest[0]),
    ensures
        sp_u32_val(dec_of(v as nat) + rest, f) == Ok::<(u32, Seq<u8>), DecodeError>((v, rest)),
{
    let d = dec_of(v as nat);
    let s = d + rest;
    crate::wire::lemma_dec_of(v as nat);
    crate::wire::lemma_scan_len_concat(d, rest, |b: u8| is_digit(b));
    let k = scan_len(s, |b: u8| is_digit(b));
    assert(k == d.len());
    assert(s.take(k) =~= d);
    assert(s.skip(k) =~= rest);
    assert(digits_val(s.take(k)) == v);
}

pub proof fn lemma_sp_dur_inv(n: u64, rest: Seq<u8>, f: Field)
    ensures
        sp_dur_val(qstr(dur_print(n)) + rest, f) == Ok::<(u64, Seq<u8>), DecodeError>((n, rest)),
{
    crate::duration::lemma_dur_print_text(n);
    lemma_sp_string_inv(dur_print(n), rest);
    crate::duration::lemma_duration_round_trip(n);
}

/// The wire form of a boolean.
pub open spec fn bool_wire(b: bool) -> Seq<u8> {
    if b {
        l_v_true()
    } else {
        l_v_false()
    }
}

pub proof fn lemma_sp_bool_inv(b: bool, rest: Seq<u8>, f: Field)
    ensures
        sp_bool_val(bool_wire(b) + rest, f) == Ok::<(bool, Seq<u8>), DecodeError>((b, rest)),
{
    if b {
        crate::wire::lemma_begins_concat(l_v_true(), rest);
    } else {
        crate::wire::lemma_begins_concat(l_v_false(), rest);
        let s = l_v_false() + rest;
        assert(s[0] == 'f' as u8);
        if begins_with(s, l_v_true()) {
            assert(s.subrange(0, l_v_true().len() as int)[0] == l_v_true()[0]);
            assert(false);
        }
    }
}

// ---------------------------------------------------------------------
// round trip for the public tariff
// ---------------------------------------------------------------------

#[verifier::rlimit(100)]
pub proof fn lemma_pt_round(t: PublicTariffV, rest: Seq<u8>)
    requires
        text_ok(t.description),
    ensures
        sp_public_tariff(json_of_public_tariff(t) + rest) == Ok::<
            (PublicTariffV, Seq<u8>),
            DecodeError,
        >((t, rest)),
{
    let t13 = seq!['}' as u8] + rest;
    let t12 = qstr(t.description) + t13;
    let t11 = l_k_description() + t12;
    let t10 = seq![',' as u8] + t11;
    let t9 = qstr(dur_print(t.duration)) + t10;
    let t8 = l_k_duration() + t9;
    let t7 = seq![',' as u8] + t8;
    let t6 = dec_of(t.price as nat) + t7;
    let t5 = l_k_price() + t6;
    let t4 = seq![',' as u8] + t5;
    let t3 = dec_of(t.id as nat) + t4;
    let t2 = l_k_id() + t3;
    let t1 = seq!['{' as u8] + t2;
    assert(json_of_public_tariff(t) + rest =~= t1);
    lemma_sp_byte_inv('{' as u8, t2);
    lemma_sp_key_inv(l_k_id(), t3, Field::PublicTariffId);
    assert(t4.len() > 0 && !is_digit(t4[0]));
    lemma_sp_u32_inv(t.id, t4, Field::PublicTariffId);
    lemma_sp_sep_key_inv(l_k_price(), t6, Field::PublicTariffPrice);
    assert(t7.len() > 0 && !is_digit(t7[0]));
    lemma_sp_u32_inv(t.price, t7, Field::PublicTariffPrice);
    lemma_sp_sep_key_inv(l_k_duration(), t9, Field::PublicTariffDuration);
    lemma_sp_dur_inv(t.duration, t10, Field::PublicTariffDuration);
    lemma_sp_sep_key_inv(l_k_description(), t12, Field::PublicTariffDescription);
    lemma_sp_string_inv(t.description, t13);
    lemma_sp_byte_inv('}' as u8, rest);
    assert(sp_public_tariff(t1) == Ok::<(PublicTariffV, Seq<u8>), DecodeError>((t, rest)));
}



// ---------------------------------------------------------------------
// remaining entities, specification level
// ---------------------------------------------------------------------

pub open spec fn sp_private_tariff(s: Seq<u8>) -> Result<(PrivateTariffV, Seq<u8>), DecodeError> {
    match sp_byte(s, '{' as u8) {
        None => Err(DecodeError::Parse),
        Some(s) => match sp_key(s, l_k_client_price(), Field::PrivateTariffClientPrice) {
            Err(e) => Err(e),
            Ok(s) => match sp_u32_val(s, Field::PrivateTariffClientPrice) {
                Err(e) => Err(e),
                Ok((client_price, s)) => match sp_sep_key(
                    s,
                    l_k_duration(),
                    Field::PrivateTariffDuration,
                ) {
                    Err(e) => Err(e),
                    Ok(s) => match sp_dur_val(s, Field::PrivateTariffDuration) {
                        Err(e) => Err(e),
                        Ok((duration, s)) => match sp_sep_key(
                            s,
                            l_k_description(),
                            Field::PrivateTariffDescription,
                        ) {
                            Err(e) => Err(e),
                            Ok(s) => match sp_str_val(s, Field::PrivateTariffDescription) {
                                Err(e) => Err(e),
                                Ok((description, s)) => match sp_byte(s, '}' as u8) {
                                    None => Err(DecodeError::Parse),
                                    Some(s) => Ok(
                                        (PrivateTariffV { client_price, duration, description }, s),
                                    ),
                                },
                            },
                        },
                    },
                },
            },
        },
    }
}

pub open spec fn sp_gift(s: Seq<u8>) -> Result<(GiftV, Seq<u8>), DecodeError> {
    match sp_byte(s, '{' as u8) {
        None => Err(DecodeError::Parse),
        Some(s) => match sp_key(s, l_k_id(), Field::GiftId) {
            Err(e) => Err(e),
            Ok(s) => match sp_u32_val(s, Field::GiftId) {
                Err(e) => Err(e),
                Ok((id, s)) => match sp_sep_key(s, l_k_price(), Field::GiftPrice) {
                    Err(e) => Err(e),
                    Ok(s) => match sp_u32_val(s, Field::GiftPrice) {
                        Err(e) => Err(e),
                        Ok((price, s)) => match sp_sep_key(
                            s,
                            l_k_description(),
                            Field::GiftDescription,
                        ) {
                            Err(e) => Err(e),
                            Ok(s) => match sp_str_val(s, Field::GiftDescription) {
                                Err(e) => Err(e),
                                Ok((description, s)) => match sp_byte(s, '}' as u8) {
                                    None => Err(DecodeError::Parse),
                                    Some(s) => Ok((GiftV { id, price, description }, s)),
                                },
                            },
                        },
                    },
                },
            },
        },
    }
}

pub open spec fn sp_debug(s: Seq<u8>) -> Result<(DebugInfoV, Seq<u8>), DecodeError> {
    match sp_byte(s, '{' as u8) {
        None => Err(DecodeError::Parse),
        Some(s) => match sp_key(s, l_k_duration(), Field::DebugDuration) {
            Err(e) => Err(e),
            Ok(s) => match sp_dur_val(s, Field::DebugDuration) {
                Err(e) => Err(e),
                Ok((duration, s)) => match sp_sep_key(s, l_k_at(), Field::DebugAt) {
                    Err(e) => Err(e),
                    Ok(s) => match sp_str_val(s, Field::DebugAt) {
                        Err(e) => Err(e),
                        Ok((at, s)) => if !timestamp_ok(at) {
                            Err(DecodeError::Schema(Field::DebugAt))
                        } else {
                            match sp_byte(s, '}' as u8) {
                                None => Err(DecodeError::Parse),
                                Some(s) => Ok((DebugInfoV { duration, at }, s)),
                            }
                        },
                    },
                },
            },
        },
    }
}

pub open spec fn sp_stream(s: Seq<u8>) -> Result<(StreamV, Seq<u8>), DecodeError> {
    match sp_byte(s, '{' as u8) {
        None => Err(DecodeError::Parse),
        Some(s) => match sp_key(s, l_k_user_id(), Field::UserId) {
            Err(e) => Err(e),
            Ok(s) => match sp_str_val(s, Field::UserId) {
                Err(e) => Err(e),
                Ok((user_id, s)) => if !uuid_ok(user_id) {
                    Err(DecodeError::Schema(Field::UserId))
                } else {
                    match sp_sep_key(s, l_k_is_private(), Field::IsPrivate) {
                        Err(e) => Err(e),
                        Ok(s) => match sp_bool_val(s, Field::IsPrivate) {
                            Err(e) => Err(e),
                            Ok((is_private, s)) => match sp_sep_key(
                                s,
                                l_k_settings(),
                                Field::Settings,
                            ) {
                                Err(e) => Err(e),
                                Ok(s) => match sp_u32_val(s, Field::Settings) {
                                    Err(e) => Err(e),
                                    Ok((settings, s)) => match sp_sep_key(
                                        s,
                                        l_k_shard_url(),
                                        Field::ShardUrl,
                                    ) {
                                        Err(e) => Err(e),
                                        Ok(s) => match sp_str_val(s, Field::ShardUrl) {
                                            Err(e) => Err(e),
                                            Ok((shard_url, s)) => if !uri_ok(shard_url) {
                                                Err(DecodeError::Schema(Field::ShardUrl))
                                            } else {
                                                match sp_sep_key(
                                                    s,
                                                    l_k_public_tariff(),
                                                    Field::PublicTariffField,
                                                ) {
                                                    Err(e) => Err(e),
                                                    Ok(s) => match sp_public_tariff(s) {
                                                        Err(e) => Err(e),
                                                        Ok((public_tariff, s)) => match sp_sep_key(
                                                            s,
                                                            l_k_private_tariff(),
                                                            Field::PrivateTariffField,
                                                        ) {
                                                            Err(e) => Err(e),
                                                            Ok(s) => match sp_private_tariff(s) {
                                                                Err(e) => Err(e),
                                                                Ok((private_tariff, s)) => match sp_byte(
                                                                    s,
                                                                    '}' as u8,
                                                                ) {
                                                                    None => Err(DecodeError::Parse),
                                                                    Some(s) => Ok(
                                                                        (
                                                                            StreamV {
                                                                                user_id,
                                                                                is_private,
                                                                                settings,
                                                                                shard_url,
                                                                                public_tariff,
                                                                                private_tariff,
                                                                            },
                                                                            s,
                                                                        ),
                                                                    ),
                                                                },
                                                            },
                                                        },
                                                    },
                                                }
                                            },
                                        },
                                    },
                                },
                            },
                        },
                    }
                },
            },
        },
    }
}

// length facts about the leaf parsers, used for termination below

pub broadcast proof fn lemma_sp_byte_len(s: Seq<u8>, b: u8)
    ensures
        (#[trigger] sp_byte(s, b)) matches Some(r) ==> r.len() < s.len(),
{
}

pub broadcast proof fn lemma_sp_lit_len(s: Seq<u8>, lit: Seq<u8>)
    ensures
        (#[trigger] sp_lit(s, lit)) matches Some(r) ==> r.len() <= s.len(),
{
}

pub broadcast proof fn lemma_sp_string_len(s: Seq<u8>)
    ensures
        (#[trigger] sp_string(s)) matches Some(p) ==> p.1.len() < s.len(),
{
    if s.len() > 0 && s[0] == '"' as u8 {
        crate::wire::lemma_scan_len_bounds(s.skip(1), |b: u8| is_strbyte(b));
    }
}

pub broadcast proof fn lemma_sp_num_len(s: Seq<u8>)
    ensures
        (#[trigger] sp_num(s)) matches Some(p) ==> p.1.len() < s.len(),
{
    crate::wire::lemma_scan_len_bounds(s, |b: u8| is_digit(b));
}

/// A successful gift parse consumes at least one byte.
pub proof fn lemma_sp_gift_len(s: Seq<u8>)
    ensures
        sp_gift(s) matches Ok(p) ==> p.1.len() < s.len(),
{
    broadcast use lemma_sp_byte_len, lemma_sp_lit_len, lemma_sp_string_len, lemma_sp_num_len;

}

/// One or more gifts, comma-separated, closed by a bracket.
pub open spec fn sp_gift_list(s: Seq<u8>) -> Result<(Seq<GiftV>, Seq<u8>), DecodeError>
    decreases s.len(),
    via sp_gift_list_dec
{
    match sp_gift(s) {
        Err(e) => Err(e),
        Ok((g, r)) => if r.len() > 0 && r[0] == ',' as u8 {
            match sp_gift_list(r.skip(1)) {
                Err(e) => Err(e),
                Ok((gs, r2)) => Ok((seq![g] + gs, r2)),
            }
        } else if r.len() > 0 && r[0] == ']' as u8 {
            Ok((seq![g], r.skip(1)))
        } else {
            Err(DecodeError::Parse)
        },
    }
}

#[via_fn]
proof fn sp_gift_list_dec(s: Seq<u8>) {
    lemma_sp_gift_len(s);
}

/// The content of the gifts sequence after its opening bracket: either an
/// immediate closing bracket or a gift list.
pub open spec fn sp_gifts(s: Seq<u8>) -> Result<(Seq<GiftV>, Seq<u8>), DecodeError> {
    if s.len() > 0 && s[0] == ']' as u8 {
        Ok((Seq::<GiftV>::empty(), s.skip(1)))
    } else {
        sp_gift_list(s)
    }
}

/// The whole request: every field in declaration order, nothing after the
/// closing brace.
pub open spec fn sp_request(s: Seq<u8>) -> Result<RequestV, DecodeError> {
    match sp_byte(s, '{' as u8) {
        None => Err(DecodeError::Parse),
        Some(s) => match sp_key(s, l_k_type(), Field::RequestTypeField) {
            Err(e) => Err(e),
            Ok(s) => match sp_str_val(s, Field::RequestTypeField) {
                Err(e) => Err(e),
                Ok((tv, s)) => if tv != l_v_success() {
                    Err(DecodeError::Schema(Field::RequestTypeField))
                } else {
                    match sp_sep_key(s, l_k_stream(), Field::StreamField) {
                        Err(e) => Err(e),
                        Ok(s) => match sp_stream(s) {
                            Err(e) => Err(e),
                            Ok((stream, s)) => match sp_sep_key(s, l_k_gifts(), Field::GiftsField) {
                                Err(e) => Err(e),
                                Ok(s) => match sp_byte(s, '[' as u8) {
                                    None => Err(DecodeError::Parse),
                                    Some(s) => match sp_gifts(s) {
                                        Err(e) => Err(e),
                                        Ok((gifts, s)) => match sp_sep_key(
                                            s,
                                            l_k_debug(),
                                            Field::DebugField,
                                        ) {
                                            Err(e) => Err(e),
                                            Ok(s) => match sp_debug(s) {
                                                Err(e) => Err(e),
                                                Ok((debug, s)) => match sp_byte(s, '}' as u8) {
                                                    None => Err(DecodeError::Parse),
                                                    Some(s) => if s.len() == 0 {
                                                        Ok(
                                                            RequestV {
                                                                request_type: RequestType::Success,
                                                                stream,
                                                                gifts,
                                                                debug,
                                                            },
                                                        )
                                                    } else {
                                                        Err(DecodeError::Parse)
                                                    },
                                                },
                                            },
                                        },
                                    },
                                },
                            },
                        },
                    }
                },
            },
        },
    }
}

/// An event payload: a name, then a date string run through the field codec.
pub open spec fn sp_event(s: Seq<u8>) -> Result<EventV, DecodeError> {
    match sp_byte(s, '{' as u8) {
        None => Err(DecodeError::Parse),
        Some(s) => match sp_key(s, l_k_name(), Field::EventName) {
            Err(e) => Err(e),
            Ok(s) => match sp_str_val(s, Field::EventName) {
                Err(e) => Err(e),
                Ok((name, s)) => match sp_sep_key(s, l_k_date(), Field::EventDate) {
                    Err(e) => Err(e),
                    Ok(s) => match sp_str_val(s, Field::EventDate) {
                        Err(e) => Err(e),
                        Ok((w, s)) => match sp_byte(s, '}' as u8) {
                            None => Err(DecodeError::Parse),
                            Some(s) => if s.len() == 0 {
                                Ok(EventV { name, date: decode_date_spec(w) })
                            } else {
                                Err(DecodeError::Parse)
                            },
                        },
                    },
                },
            },
        },
    }
}

// ---------------------------------------------------------------------
// remaining encoders, specification level
// ---------------------------------------------------------------------

pub open spec fn json_of_private_tariff(t: PrivateTariffV) -> Seq<u8> {
    seq!['{' as u8] + l_k_client_price() + dec_of(t.client_price as nat) + seq![',' as u8]
        + l_k_duration() + qstr(dur_print(t.duration)) + seq![',' as u8] + l_k_description()
        + qstr(t.description) + seq!['}' as u8]
}

pub open spec fn json_of_gift(g: GiftV) -> Seq<u8> {
    seq!['{' as u8] + l_k_id() + dec_of(g.id as nat) + seq![',' as u8] + l_k_price() + dec_of(
        g.price as nat,
    ) + seq![',' as u8] + l_k_description() + qstr(g.description) + seq!['}' as u8]
}

pub open spec fn json_of_debug(d: DebugInfoV) -> Seq<u8> {
    seq!['{' as u8] + l_k_duration() + qstr(dur_print(d.duration)) + seq![',' as u8] + l_k_at()
        + qstr(d.at) + seq!['}' as u8]
}

pub open spec fn json_of_stream(st: StreamV) -> Seq<u8> {
    seq!['{' as u8] + l_k_user_id() + qstr(st.user_id) + seq![',' as u8] + l_k_is_private()
        + bool_wire(st.is_private) + seq![',' as u8] + l_k_settings() + dec_of(st.settings as nat)
        + seq![',' as u8] + l_k_shard_url() + qstr(st.shard_url) + seq![',' as u8]
        + l_k_public_tariff() + json_of_public_tariff(st.public_tariff) + seq![',' as u8]
        + l_k_private_tariff() + json_of_private_tariff(st.private_tariff) + seq!['}' as u8]
}

/// The gift items joined by commas and closed by the bracket.
pub open spec fn json_of_gift_items(gs: Seq<GiftV>) -> Seq<u8>
    decreases gs.len(),
{
    if gs.len() == 0 {
        seq![']' as u8]
    } else if gs.len() == 1 {
        json_of_gift(gs[0]) + seq![']' as u8]
    } else {
        json_of_gift(gs[0]) + seq![',' as u8] + json_of_gift_items(gs.skip(1))
    }
}

pub open spec fn json_of_gifts(gs: Seq<GiftV>) -> Seq<u8> {
    seq!['[' as u8] + json_of_gift_items(gs)
}

pub open spec fn json_of_request(r: RequestV) -> Seq<u8> {
    seq!['{' as u8] + l_k_type() + qstr(l_v_success()) + seq![',' as u8] + l_k_stream()
        + json_of_stream(r.stream) + seq![',' as u8] + l_k_gifts() + json_of_gifts(r.gifts) + seq![
        ',' as u8,
    ] + l_k_debug() + json_of_debug(r.debug) + seq!['}' as u8]
}

pub open spec fn json_of_event(e: EventV) -> Seq<u8> {
    seq!['{' as u8] + l_k_name() + qstr(e.name) + seq![',' as u8] + l_k_date() + qstr(
        encode_date_spec(e.date),
    ) + seq!['}' as u8]
}

// ---------------------------------------------------------------------
// supporting text facts
// ---------------------------------------------------------------------

proof fn lemma_success_text()
    ensures
        text_ok(l_v_success()),
{
    assert forall|i: int| 0 <= i < l_v_success().len() implies is_strbyte(
        #[trigger] l_v_success()[i],
    ) by {
        if i == 0 {
            assert(l_v_success()[0] == 's' as u8);
        } else if i == 1 {
            assert(l_v_success()[1] == 'u' as u8);
        } else if i == 2 {
            assert(l_v_success()[2] == 'c' as u8);
        } else if i == 3 {
            assert(l_v_success()[3] == 'c' as u8);
        } else if i == 4 {
            assert(l_v_success()[4] == 'e' as u8);
        } else if i == 5 {
            assert(l_v_success()[5] == 's' as u8);
        } else {
            assert(l_v_success()[6] == 's' as u8);
        }
    }
}

proof fn lemma_encode_date_text(d: Seq<u8>)
    requires
        text_ok(d),
    ensures
        text_ok(encode_date_spec(d)),
{
    let p = crate::datecodec::date_prefix();
    assert forall|i: int| 0 <= i < encode_date_spec(d).len() implies is_strbyte(
        #[trigger] encode_date_spec(d)[i],
    ) by {
        if i < p.len() {
            assert(encode_date_spec(d)[i] == p[i]);
            if i == 0 {
                assert(p[0] == 'D' as u8);
            } else if i == 1 {
                assert(p[1] == 'a' as u8);
            } else if i == 2 {
                assert(p[2] == 't' as u8);
            } else if i == 3 {
                assert(p[3] == 'e' as u8);
            } else if i == 4 {
                assert(p[4] == ':' as u8);
            } else {
                assert(p[5] == ' ' as u8);
            }
        } else {
            assert(encode_date_spec(d)[i] == d[i - p.len()]);
        }
    }
}

// ---------------------------------------------------------------------
// round trips for the remaining entities
// ---------------------------------------------------------------------

#[verifier::rlimit(100)]
pub proof fn lemma_ct_round(t: PrivateTariffV, rest: Seq<u8>)
    requires
        text_ok(t.description),
    ensures
        sp_private_tariff(json_of_private_tariff(t) + rest) == Ok::<
            (PrivateTariffV, Seq<u8>),
            DecodeError,
        >((t, rest)),
{
    let t10 = seq!['}' as u8] + rest;
    let t9 = qstr(t.description) + t10;
    let t8 = l_k_description() + t9;
    let t7 = seq![',' as u8] + t8;
    let t6 = qstr(dur_print(t.duration)) + t7;
    let t5 = l_k_duration() + t6;
    let t4 = seq![',' as u8] + t5;
    let t3 = dec_of(t.client_price as nat) + t4;
    let t2 = l_k_client_price() + t3;
    let t1 = seq!['{' as u8] + t2;
    assert(json_of_private_tariff(t) + rest =~= t1);
    lemma_sp_byte_inv('{' as u8, t2);
    lemma_sp_key_inv(l_k_client_price(), t3, Field::PrivateTariffClientPrice);
    assert(t4.len() > 0 && !is_digit(t4[0]));
    lemma_sp_u32_inv(t.client_price, t4, Field::PrivateTariffClientPrice);
    lemma_sp_sep_key_inv(l_k_duration(), t6, Field::PrivateTariffDuration);
    lemma_sp_dur_inv(t.duration, t7, Field::PrivateTariffDuration);
    lemma_sp_sep_key_inv(l_k_description(), t9, Field::PrivateTariffDescription);
    lemma_sp_string_inv(t.description, t10);
    lemma_sp_byte_inv('}' as u8, rest);
    assert(sp_private_tariff(t1) == Ok::<(PrivateTariffV, Seq<u8>), DecodeError>((t, rest)));
}

#[verifier::rlimit(100)]
pub proof fn lemma_gift_round(g: GiftV, rest: Seq<u8>)
    requires
        text_ok(g.description),
    ensures
        sp_gift(json_of_gift(g) + rest) == Ok::<(GiftV, Seq<u8>), DecodeError>((g, rest)),
{
    let t10 = seq!['}' as u8] + rest;
    let t9 = qstr(g.description) + t10;
    let t8 = l_k_description() + t9;
    let t7 = seq![',' as u8] + t8;
    let t6 = dec_of(g.price as nat) + t7;
    let t5 = l_k_price() + t6;
    let t4 = seq![',' as u8] + t5;
    let t3 = dec_of(g.id as nat) + t4;
    let t2 = l_k_id() + t3;
    let t1 = seq!['{' as u8] + t2;
    assert(json_of_gift(g) + rest =~= t1);
    lemma_sp_byte_inv('{' as u8, t2);
    lemma_sp_key_inv(l_k_id(), t3, Field::GiftId);
    assert(t4.len() > 0 && !is_digit(t4[0]));
    lemma_sp_u32_inv(g.id, t4, Field::GiftId);
    lemma_sp_sep_key_inv(l_k_price(), t6, Field::GiftPrice);
    assert(t7.len() > 0 && !is_digit(t7[0]));
    lemma_sp_u32_inv(g.price, t7, Field::GiftPrice);
    lemma_sp_sep_key_inv(l_k_description(), t9, Field::GiftDescription);
    lemma_sp_string_inv(g.description, t10);
    lemma_sp_byte_inv('}' as u8, rest);
    assert(sp_gift(t1) == Ok::<(GiftV, Seq<u8>), DecodeError>((g, rest)));
}

#[verifier::rlimit(100)]
pub proof fn lemma_debug_round(d: DebugInfoV, rest: Seq<u8>)
    requires
        text_ok(d.at),
        timestamp_ok(d.at),
    ensures
        sp_debug(json_of_debug(d) + rest) == Ok::<(DebugInfoV, Seq<u8>), DecodeError>((d, rest)),
{
    let t7 = seq!['}' as u8] + rest;
    let t6 = qstr(d.at) + t7;
    let t5 = l_k_at() + t6;
    let t4 = seq![',' as u8] + t5;
    let t3 = qstr(dur_print(d.duration)) + t4;
    let t2 = l_k_duration() + t3;
    let t1 = seq!['{' as u8] + t2;
    assert(json_of_debug(d) + rest =~= t1);
    lemma_sp_byte_inv('{' as u8, t2);
    lemma_sp_key_inv(l_k_duration(), t3, Field::DebugDuration);
    lemma_sp_dur_inv(d.duration, t4, Field::DebugDuration);
    lemma_sp_sep_key_inv(l_k_at(), t6, Field::DebugAt);
    lemma_sp_string_inv(d.at, t7);
    lemma_sp_byte_inv('}' as u8, rest);
    assert(sp_debug(t1) == Ok::<(DebugInfoV, Seq<u8>), DecodeError>((d, rest)));
}

/// Reassociates a stream encoding followed by a tail into parse order.
#[verifier::rlimit(100)]
#[verifier::spinoff_prover]
proof fn lemma_stream_regroup(st: StreamV, rest: Seq<u8>)
    ensures
        ({
            let t17 = seq!['}' as u8] + rest;
            let t16 = json_of_private_tariff(st.private_tariff) + t17;
            let t15 = l_k_private_tariff() + t16;
            let t14 = seq![',' as u8] + t15;
            let t13 = json_of_public_tariff(st.public_tariff) + t14;
            let t12 = l_k_public_tariff() + t13;
            let t11 = seq![',' as u8] + t12;
            let t10 = qstr(st.shard_url) + t11;
            let t9 = l_k_shard_url() + t10;
            let t8 = seq![',' as u8] + t9;
            let t7 = dec_of(st.settings as nat) + t8;
            let t6 = l_k_settings() + t7;
            let t5 = seq![',' as u8] + t6;
            let t4 = bool_wire(st.is_private) + t5;
            let t3 = l_k_is_private() + t4;
            let t2b = seq![',' as u8] + t3;
            let t2 = qstr(st.user_id) + t2b;
            let t1 = l_k_user_id() + t2;
            let t0 = seq!['{' as u8] + t1;
            json_of_stream(st) + rest == t0
        }),
{
    let t17 = seq!['}' as u8] + rest;
    let t16 = json_of_private_tariff(st.private_tariff) + t17;
    let t15 = l_k_private_tariff() + t16;
    let t14 = seq![',' as u8] + t15;
    let t13 = json_of_public_tariff(st.public_tariff) + t14;
    let t12 = l_k_public_tariff() + t13;
    let t11 = seq![',' as u8] + t12;
    let t10 = qstr(st.shard_url) + t11;
    let t9 = l_k_shard_url() + t10;
    let t8 = seq![',' as u8] + t9;
    let t7 = dec_of(st.settings as nat) + t8;
    let t6 = l_k_settings() + t7;
    let t5 = seq![',' as u8] + t6;
    let t4 = bool_wire(st.is_private) + t5;
    let t3 = l_k_is_private() + t4;
    let t2b = seq![',' as u8] + t3;
    let t2 = qstr(st.user_id) + t2b;
    let t1 = l_k_user_id() + t2;
    let t0 = seq!['{' as u8] + t1;
    assert(json_of_stream(st) + rest =~= t0);
}

#[verifier::rlimit(100)]
#[verifier::spinoff_prover]
pub proof fn lemma_stream_round(st: StreamV, rest: Seq<u8>)
    requires
        crate::domain::valid_stream(st),
    ensures
        sp_stream(json_of_stream(st) + rest) == Ok::<(StreamV, Seq<u8>), DecodeError>((st, rest)),
{
    let t17 = seq!['}' as u8] + rest;
    let t16 = json_of_private_tariff(st.private_tariff) + t17;
    let t15 = l_k_private_tariff() + t16;
    let t14 = seq![',' as u8] + t15;
    let t13 = json_of_public_tariff(st.public_tariff) + t14;
    let t12 = l_k_public_tariff() + t13;
    let t11 = seq![',' as u8] + t12;
    let t10 = qstr(st.shard_url) + t11;
    let t9 = l_k_shard_url() + t10;
    let t8 = seq![',' as u8] + t9;
    let t7 = dec_of(st.settings as nat) + t8;
    let t6 = l_k_settings() + t7;
    let t5 = seq![',' as u8] + t6;
    let t4 = bool_wire(st.is_private) + t5;
    let t3 = l_k_is_private() + t4;
    let t2b = seq![',' as u8] + t3;
    let t2 = qstr(st.user_id) + t2b;
    let t1 = l_k_user_id() + t2;
    let t0 = seq!['{' as u8] + t1;
    lemma_stream_regroup(st, rest);
    lemma_sp_byte_inv('{' as u8, t1);
    lemma_sp_key_inv(l_k_user_id(), t2, Field::UserId);
    crate::domain::lemma_uuid_text(st.user_id);
    lemma_sp_string_inv(st.user_id, t2b);
    lemma_sp_sep_key_inv(l_k_is_private(), t4, Field::IsPrivate);
    lemma_sp_bool_inv(st.is_private, t5, Field::IsPrivate);
    lemma_sp_sep_key_inv(l_k_settings(), t7, Field::Settings);
    assert(t8.len() > 0 && !is_digit(t8[0]));
    lemma_sp_u32_inv(st.settings, t8, Field::Settings);
    lemma_sp_sep_key_inv(l_k_shard_url(), t10, Field::ShardUrl);
    lemma_sp_string_inv(st.shard_url, t11);
    lemma_sp_sep_key_inv(l_k_public_tariff(), t13, Field::PublicTariffField);
    lemma_pt_round(st.public_tariff, t14);
    lemma_sp_sep_key_inv(l_k_private_tariff(), t16, Field::PrivateTariffField);
    lemma_ct_round(st.private_tariff, t17);
    lemma_sp_byte_inv('}' as u8, rest);
}

#[verifier::rlimit(100)]
pub proof fn lemma_gift_items_round(gs: Seq<GiftV>, rest: Seq<u8>)
    requires
        gs.len() >= 1,
        forall|i: int| 0 <= i < gs.len() ==> text_ok(#[trigger] gs[i].description),
    ensures
        sp_gift_list(json_of_gift_items(gs) + rest) == Ok::<(Seq<GiftV>, Seq<u8>), DecodeError>(
            (gs, rest),
        ),
    decreases gs.len(),
{
    if gs.len() == 1 {
        let t2 = seq![']' as u8] + rest;
        assert(json_of_gift_items(gs) + rest =~= json_of_gift(gs[0]) + t2);
        lemma_gift_round(gs[0], t2);
        let e = json_of_gift_items(gs) + rest;
        assert(sp_gift(e) == Ok::<(GiftV, Seq<u8>), DecodeError>((gs[0], t2)));
        assert(t2[0] == ']' as u8);
        assert(t2[0] != ',' as u8);
        assert(t2.skip(1) =~= rest);
        assert(seq![gs[0]] =~= gs);
    } else {
        let inner = json_of_gift_items(gs.skip(1)) + rest;
        let t2 = seq![',' as u8] + inner;
        assert(json_of_gift_items(gs) + rest =~= json_of_gift(gs[0]) + t2);
        lemma_gift_round(gs[0], t2);
        let e = json_of_gift_items(gs) + rest;
        assert(sp_gift(e) == Ok::<(GiftV, Seq<u8>), DecodeError>((gs[0], t2)));
        assert(t2[0] == ',' as u8);
        assert(t2.skip(1) =~= inner);
        assert(forall|i: int|
            0 <= i < gs.skip(1).len() ==> text_ok(#[trigger] gs.skip(1)[i].description));
        lemma_gift_items_round(gs.skip(1), rest);
        assert(seq![gs[0]] + gs.skip(1) =~= gs);
    }
}

/// After the opening bracket: an empty sequence or a gift list.
pub proof fn lemma_gifts_round(gs: Seq<GiftV>, rest: Seq<u8>)
    requires
        forall|i: int| 0 <= i < gs.len() ==> text_ok(#[trigger] gs[i].description),
    ensures
        sp_gifts(json_of_gift_items(gs) + rest) == Ok::<(Seq<GiftV>, Seq<u8>), DecodeError>(
            (gs, rest),
        ),
{
    let e = json_of_gift_items(gs) + rest;
    if gs.len() == 0 {
        assert(e =~= seq![']' as u8] + rest);
        assert(e[0] == ']' as u8);
        assert(e.skip(1) =~= rest);
        assert(Seq::<GiftV>::empty() =~= gs);
    } else {
        assert(json_of_gift(gs[0])[0] == '{' as u8);
        assert(e[0] == '{' as u8);
        lemma_gift_items_round(gs, rest);
    }
}

/// Reassociates a request encoding into parse order.
#[verifier::rlimit(100)]
#[verifier::spinoff_prover]
proof fn lemma_request_regroup(r: RequestV)
    ensures
        ({
            let empty = Seq::<u8>::empty();
            let tEnd = seq!['}' as u8];
            let t11 = json_of_debug(r.debug) + tEnd;
            let t10 = l_k_debug() + t11;
            let t9 = seq![',' as u8] + t10;
            let t8 = json_of_gift_items(r.gifts) + t9;
            let t7 = seq!['[' as u8] + t8;
            let t6 = l_k_gifts() + t7;
            let t5 = seq![',' as u8] + t6;
            let t4 = json_of_stream(r.stream) + t5;
            let t3 = l_k_stream() + t4;
            let t2b = seq![',' as u8] + t3;
            let t2 = qstr(l_v_success()) + t2b;
            let t1 = l_k_type() + t2;
            let t0 = seq!['{' as u8] + t1;
            json_of_request(r) == t0
        }),
{
    let empty = Seq::<u8>::empty();
    let tEnd = seq!['}' as u8];
    let t11 = json_of_debug(r.debug) + tEnd;
    let t10 = l_k_debug() + t11;
    let t9 = seq![',' as u8] + t10;
    let t8 = json_of_gift_items(r.gifts) + t9;
    let t7 = seq!['[' as u8] + t8;
    let t6 = l_k_gifts() + t7;
    let t5 = seq![',' as u8] + t6;
    let t4 = json_of_stream(r.stream) + t5;
    let t3 = l_k_stream() + t4;
    let t2b = seq![',' as u8] + t3;
    let t2 = qstr(l_v_success()) + t2b;
    let t1 = l_k_type() + t2;
    let t0 = seq!['{' as u8] + t1;
    assert(json_of_request(r) =~= t0);
}

/// Law: a valid request re-encoded to the hierarchical format decodes back
/// to exactly the same value.
#[verifier::rlimit(100)]
#[verifier::spinoff_prover]
pub proof fn lemma_request_round(r: RequestV)
    requires
        valid_request(r),
    ensures
        sp_request(json_of_request(r)) == Ok::<RequestV, DecodeError>(r),
{
    let empty = Seq::<u8>::empty();
    let tEnd = seq!['}' as u8];
    let t11 = json_of_debug(r.debug) + tEnd;
    let t10 = l_k_debug() + t11;
    let t9 = seq![',' as u8] + t10;
    let t8 = json_of_gift_items(r.gifts) + t9;
    let t7 = seq!['[' as u8] + t8;
    let t6 = l_k_gifts() + t7;
    let t5 = seq![',' as u8] + t6;
    let t4 = json_of_stream(r.stream) + t5;
    let t3 = l_k_stream() + t4;
    let t2b = seq![',' as u8] + t3;
    let t2 = qstr(l_v_success()) + t2b;
    let t1 = l_k_type() + t2;
    let t0 = seq!['{' as u8] + t1;
    lemma_request_regroup(r);
    lemma_sp_byte_inv('{' as u8, t1);
    lemma_sp_key_inv(l_k_type(), t2, Field::RequestTypeField);
    lemma_success_text();
    lemma_sp_string_inv(l_v_success(), t2b);
    lemma_sp_sep_key_inv(l_k_stream(), t4, Field::StreamField);
    lemma_stream_round(r.stream, t5);
    lemma_sp_sep_key_inv(l_k_gifts(), t7, Field::GiftsField);
    lemma_sp_byte_inv('[' as u8, t8);
    assert(forall|i: int| 0 <= i < r.gifts.len() ==> text_ok(#[trigger] r.gifts[i].description));
    lemma_gifts_round(r.gifts, t9);
    lemma_sp_sep_key_inv(l_k_debug(), t11, Field::DebugField);
    lemma_debug_round(r.debug, tEnd);
    assert(tEnd =~= seq!['}' as u8] + empty);
    lemma_sp_byte_inv('}' as u8, empty);
    match r.request_type {
        RequestType::Success => {},
    }
}

/// Law: a valid event re-encoded to the hierarchical format decodes back to
/// exactly the same value; in particular the date prefix added on encode is
/// stripped again on decode.
#[verifier::rlimit(100)]
pub proof fn lemma_event_round(e: EventV)
    requires
        valid_event(e),
    ensures
        sp_event(json_of_event(e)) == Ok::<EventV, DecodeError>(e),
{
    let empty = Seq::<u8>::empty();
    let tEnd = seq!['}' as u8];
    let w = encode_date_spec(e.date);
    let t6 = qstr(w) + tEnd;
    let t5 = l_k_date() + t6;
    let t4 = seq![',' as u8] + t5;
    let t3 = qstr(e.name) + t4;
    let t2 = l_k_name() + t3;
    let t1 = seq!['{' as u8] + t2;
    assert(json_of_event(e) =~= t1);
    lemma_sp_byte_inv('{' as u8, t2);
    lemma_sp_key_inv(l_k_name(), t3, Field::EventName);
    lemma_sp_string_inv(e.name, t4);
    assert(t4 =~= seq![',' as u8] + l_k_date() + t6);
    lemma_sp_sep_key_inv(l_k_date(), t6, Field::EventDate);
    lemma_encode_date_text(e.date);
    lemma_sp_string_inv(w, tEnd);
    assert(tEnd =~= seq!['}' as u8] + empty);
    lemma_sp_byte_inv('}' as u8, empty);
    crate::datecodec::lemma_date_codec_decode_encode(e.date);
    assert(sp_event(t1) == Ok::<EventV, DecodeError>(e));
}

// ---------------------------------------------------------------------
// every value a successful decode yields satisfies the schema invariant
// ---------------------------------------------------------------------

pub broadcast proof fn lemma_sp_string_text(s: Seq<u8>)
    ensures
        (#[trigger] sp_string(s)) matches Some(p) ==> text_ok(p.0),
{
    if s.len() > 0 && s[0] == '"' as u8 {
        crate::wire::lemma_scan_len_bounds(s.skip(1), |b: u8| is_strbyte(b));
        let k = scan_len(s.skip(1), |b: u8| is_strbyte(b));
        assert forall|t: int| 0 <= t < s.skip(1).take(k).len() implies is_strbyte(
            #[trigger] s.skip(1).take(k)[t],
        ) by {
            assert(s.skip(1).take(k)[t] == s.skip(1)[t]);
        }
    }
}

proof fn lemma_sp_pt_valid(s: Seq<u8>)
    ensures
        sp_public_tariff(s) matches Ok(p) ==> crate::domain::valid_public_tariff(p.0),
{
    broadcast use lemma_sp_string_text;

}

proof fn lemma_sp_ct_valid(s: Seq<u8>)
    ensures
        sp_private_tariff(s) matches Ok(p) ==> crate::domain::valid_private_tariff(p.0),
{
    broadcast use lemma_sp_string_text;

}

proof fn lemma_sp_gift_valid(s: Seq<u8>)
    ensures
        sp_gift(s) matches Ok(p) ==> crate::domain::valid_gift(p.0),
{
    broadcast use lemma_sp_string_text;

}

proof fn lemma_sp_debug_valid(s: Seq<u8>)
    ensures
        sp_debug(s) matches Ok(p) ==> crate::domain::valid_debug(p.0),
{
    broadcast use lemma_sp_string_text;

}

proof fn lemma_sp_stream_valid(s: Seq<u8>)
    ensures
        sp_stream(s) matches Ok(p) ==> crate::domain::valid_stream(p.0),
{
    broadcast use lemma_sp_string_text;

    match sp_byte(s, '{' as u8) {
        Some(s1) => match sp_key(s1, l_k_user_id(), Field::UserId) {
            Ok(s2) => match sp_str_val(s2, Field::UserId) {
                Ok((user_id, s3)) => if uuid_ok(user_id) {
                    match sp_sep_key(s3, l_k_is_private(), Field::IsPrivate) {
                        Ok(s4) => match sp_bool_val(s4, Field::IsPrivate) {
                            Ok((_, s5)) => match sp_sep_key(s5, l_k_settings(), Field::Settings) {
                                Ok(s6) => match sp_u32_val(s6, Field::Settings) {
                                    Ok((_, s7)) => match sp_sep_key(
                                        s7,
                                        l_k_shard_url(),
                                        Field::ShardUrl,
                                    ) {
                                        Ok(s8) => match sp_str_val(s8, Field::ShardUrl) {
                                            Ok((_, s9)) => match sp_sep_key(
                                                s9,
                                                l_k_public_tariff(),
                                                Field::PublicTariffField,
                                            ) {
                                                Ok(s10) => {
                                                    lemma_sp_pt_valid(s10);
                                                    match sp_public_tariff(s10) {
                                                        Ok((_, s11)) => match sp_sep_key(
                                                            s11,
                                                            l_k_private_tariff(),
                                                            Field::PrivateTariffField,
                                                        ) {
                                                            Ok(s12) => {
                                                                lemma_sp_ct_valid(s12);
                                                            },
                                                            _ => {},
                                                        },
                                                        _ => {},
                                                    }
                                                },
                                                _ => {},
                                            },
                                            _ => {},
                                        },
                                        _ => {},
                                    },
                                    _ => {},
                                },
                                _ => {},
                            },
                            _ => {},
                        },
                        _ => {},
                    }
                } else {
                },
                _ => {},
            },
            _ => {},
        },
        _ => {},
    }
}

proof fn lemma_sp_gift_list_valid(s: Seq<u8>)
    ensures
        sp_gift_list(s) matches Ok(p) ==> forall|i: int|
            0 <= i < p.0.len() ==> crate::domain::valid_gift(#[trigger] p.0[i]),
    decreases s.len(),
{
    lemma_sp_gift_len(s);
    lemma_sp_gift_valid(s);
    match sp_gift(s) {
        Ok((g, r)) => {
            if r.len() > 0 && r[0] == ',' as u8 {
                lemma_sp_gift_list_valid(r.skip(1));
                match sp_gift_list(r.skip(1)) {
                    Ok((gs, _)) => {
                        assert forall|i: int| 0 <= i < (seq![g] + gs).len() implies
                            crate::domain::valid_gift(#[trigger] (seq![g] + gs)[i]) by {
                            if i == 0 {
                                assert((seq![g] + gs)[0] == g);
                            } else {
                                assert((seq![g] + gs)[i] == gs[i - 1]);
                            }
                        }
                    },
                    _ => {},
                }
            }
        },
        _ => {},
    }
}

proof fn lemma_sp_gifts_valid(s: Seq<u8>)
    ensures
        sp_gifts(s) matches Ok(p) ==> forall|i: int|
            0 <= i < p.0.len() ==> crate::domain::valid_gift(#[trigger] p.0[i]),
{
    if !(s.len() > 0 && s[0] == ']' as u8) {
        lemma_sp_gift_list_valid(s);
    }
}

/// Law: decode is all-or-nothing, and whatever it accepts satisfies every
/// schema invariant.
pub proof fn lemma_sp_request_valid(s: Seq<u8>)
    ensures
        sp_request(s) matches Ok(r) ==> valid_request(r),
{
    broadcast use lemma_sp_string_text;

    match sp_byte(s, '{' as u8) {
        Some(s1) => match sp_key(s1, l_k_type(), Field::RequestTypeField) {
            Ok(s2) => match sp_str_val(s2, Field::RequestTypeField) {
                Ok((tv, s3)) => if tv == l_v_success() {
                    match sp_sep_key(s3, l_k_stream(), Field::StreamField) {
                        Ok(s4) => {
                            lemma_sp_stream_valid(s4);
                            match sp_stream(s4) {
                                Ok((_, s5)) => match sp_sep_key(s5, l_k_gifts(), Field::GiftsField) {
                                    Ok(s6) => match sp_byte(s6, '[' as u8) {
                                        Some(s7) => {
                                            lemma_sp_gifts_valid(s7);
                                            match sp_gifts(s7) {
                                                Ok((_, s8)) => match sp_sep_key(
                                                    s8,
                                                    l_k_debug(),
                                                    Field::DebugField,
                                                ) {
                                                    Ok(s9) => {
                                                        lemma_sp_debug_valid(s9);
                                                    },
                                                    _ => {},
                                                },
                                                _ => {},
                                            }
                                        },
                                        _ => {},
                                    },
                                    _ => {},
                                },
                                _ => {},
                            }
                        },
                        _ => {},
                    }
                } else {
                },
                _ => {},
            },
            _ => {},
        },
        _ => {},
    }
}

/// Law: an event a decode accepts satisfies the event invariant.
pub proof fn lemma_sp_event_valid(s: Seq<u8>)
    ensures
        sp_event(s) matches Ok(e) ==> valid_event(e),
{
    broadcast use lemma_sp_string_text;

    match sp_byte(s, '{' as u8) {
        Some(s1) => match sp_key(s1, l_k_name(), Field::EventName) {
            Ok(s2) => match sp_str_val(s2, Field::EventName) {
                Ok((name, s3)) => match sp_sep_key(s3, l_k_date(), Field::EventDate) {
                    Ok(s4) => match sp_str_val(s4, Field::EventDate) {
                        Ok((w, s5)) => {
                            let d = decode_date_spec(w);
                            assert forall|i: int| 0 <= i < d.len() implies is_strbyte(
                                #[trigger] d[i],
                            ) by {
                                if crate::datecodec::has_date_prefix(w) {
                                    assert(d[i] == w[i + 6]);
                                } else {
                                    assert(d[i] == w[i]);
                                }
                            }
                        },
                        _ => {},
                    },
                    _ => {},
                },
                _ => {},
            },
            _ => {},
        },
        _ => {},
    }
}

/// Law: decoding, re-encoding and decoding again gives the first decode's
/// value, for every accepted wire payload.
pub proof fn lemma_decode_encode_decode(p: Seq<u8>, r: RequestV)
    requires
        sp_request(p) == Ok::<RequestV, DecodeError>(r),
    ensures
        valid_request(r),
        sp_request(json_of_request(r)) == sp_request(p),
{
    lemma_sp_request_valid(p);
    lemma_request_round(r);
}

// ---------------------------------------------------------------------
// executable parsing, step by step against the specification parsers
// ---------------------------------------------------------------------

fn p_byte(s: &Vec<u8>, i: usize, b: u8) -> (r: Option<usize>)
    requires
        i <= s@.len(),
    ensures
        match r {
            Some(j) => i < j <= s@.len() && sp_byte(s@.skip(i as int), b) == Some(
                s@.skip(j as int),
            ),
            None => sp_byte(s@.skip(i as int), b) is None,
        },
{
    if i < s.len() && s[i] == b {
        proof {
            assert(s@.skip(i as int)[0] == s@[i as int]);
            assert(s@.skip(i as int).skip(1) =~= s@.skip(i + 1));
        }
        Some(i + 1)
    } else {
        proof {
            if i < s@.len() {
                assert(s@.skip(i as int)[0] == s@[i as int]);
            }
        }
        None
    }
}

fn p_key(s: &Vec<u8>, i: usize, key: &Vec<u8>, f: Field) -> (r: Result<usize, DecodeError>)
    requires
        i <= s@.len(),
    ensures
        match r {
            Ok(j) => i <= j <= s@.len() && j - i == key@.len() && sp_key(
                s@.skip(i as int),
                key@,
                f,
            ) == Ok::<Seq<u8>, DecodeError>(s@.skip(j as int)),
            Err(e) => sp_key(s@.skip(i as int), key@, f) == Err::<Seq<u8>, DecodeError>(e),
        },
{
    let n: usize = s.len();
    if crate::wire::match_at(s, i, key) {
        proof {
            assert(key@.len() <= n - i);
            assert(s@.skip(i as int).skip(key@.len() as int) =~= s@.skip(i + key@.len()));
        }
        Ok(i + key.len())
    } else {
        Err(DecodeError::Schema(f))
    }
}

fn p_sep_key(s: &Vec<u8>, i: usize, key: &Vec<u8>, f: Field) -> (r: Result<usize, DecodeError>)
    requires
        i <= s@.len(),
    ensures
        match r {
            Ok(j) => i <= j <= s@.len() && sp_sep_key(s@.skip(i as int), key@, f) == Ok::<
                Seq<u8>,
                DecodeError,
            >(s@.skip(j as int)),
            Err(e) => sp_sep_key(s@.skip(i as int), key@, f) == Err::<Seq<u8>, DecodeError>(e),
        },
{
    match p_byte(s, i, ',' as u8) {
        None => Err(DecodeError::Parse),
        Some(i1) => p_key(s, i1, key, f),
    }
}

fn p_str(s: &Vec<u8>, i: usize, f: Field) -> (r: Result<(Vec<u8>, usize), DecodeError>)
    requires
        i <= s@.len(),
    ensures
        match r {
            Ok(p) => i < p.1 <= s@.len() && sp_str_val(s@.skip(i as int), f) == Ok::<
                (Seq<u8>, Seq<u8>),
                DecodeError,
            >((p.0@, s@.skip(p.1 as int))) && text_ok(p.0@),
            Err(e) => sp_str_val(s@.skip(i as int), f) == Err::<(Seq<u8>, Seq<u8>), DecodeError>(
                e,
            ),
        },
{
    let ghost rem = s@.skip(i as int);
    if !(i < s.len() && s[i] == '"' as u8) {
        proof {
            if i < s@.len() {
                assert(rem[0] == s@[i as int]);
            }
        }
        return Err(DecodeError::Schema(f));
    }
    proof {
        assert(rem[0] == s@[i as int]);
        assert(rem.skip(1) =~= s@.skip(i + 1));
    }
    let j2 = crate::wire::scan_strbytes(s, i + 1);
    let ghost k: int = j2 - (i + 1);
    if j2 >= s.len() {
        proof {
            assert(1 + k >= rem.len());
        }
        return Err(DecodeError::Schema(f));
    }
    if s[j2] != '"' as u8 {
        proof {
            assert(rem[1 + k] == s@[j2 as int]);
        }
        return Err(DecodeError::Schema(f));
    }
    let v = crate::wire::copy_range(s, i + 1, j2);
    proof {
        assert(rem[1 + k] == s@[j2 as int]);
        assert(rem.skip(1).take(k) =~= s@.subrange(i + 1, j2 as int));
        assert(rem.skip(2 + k) =~= s@.skip(j2 + 1));
        assert forall|t: int| 0 <= t < v@.len() implies is_strbyte(#[trigger] v@[t]) by {
            assert(v@[t] == s@[i + 1 + t]);
        }
    }
    Ok((v, j2 + 1))
}

fn p_u32(s: &Vec<u8>, i: usize, f: Field) -> (r: Result<(u32, usize), DecodeError>)
    requires
        i <= s@.len(),
    ensures
        match r {
            Ok(p) => i < p.1 <= s@.len() && sp_u32_val(s@.skip(i as int), f) == Ok::<
                (u32, Seq<u8>),
                DecodeError,
            >((p.0, s@.skip(p.1 as int))),
            Err(e) => sp_u32_val(s@.skip(i as int), f) == Err::<(u32, Seq<u8>), DecodeError>(e),
        },
{
    let j = crate::wire::scan_digits(s, i);
    proof {
        assert(s@.skip(i as int).take(j - i) =~= s@.subrange(i as int, j as int));
        assert(s@.skip(i as int).skip(j - i) =~= s@.skip(j as int));
    }
    if j == i {
        return Err(DecodeError::Schema(f));
    }
    match crate::wire::digits_value_u64(s, i, j) {
        None => {
            proof {
                crate::wire::lemma_digits_val_nonneg(s@.subrange(i as int, j as int));
            }
            Err(DecodeError::Schema(f))
        },
        Some(v) => {
            if v > 0xffff_ffff {
                Err(DecodeError::Schema(f))
            } else {
                Ok((v as u32, j))
            }
        },
    }
}

fn p_dur(s: &Vec<u8>, i: usize, f: Field) -> (r: Result<(u64, usize), DecodeError>)
    requires
        i <= s@.len(),
    ensures
        match r {
            Ok(p) => i < p.1 <= s@.len() && sp_dur_val(s@.skip(i as int), f) == Ok::<
                (u64, Seq<u8>),
                DecodeError,
            >((p.0, s@.skip(p.1 as int))),
            Err(e) => sp_dur_val(s@.skip(i as int), f) == Err::<(u64, Seq<u8>), DecodeError>(e),
        },
{
    match p_str(s, i, f) {
        Err(e) => Err(e),
        Ok((w, j)) => match crate::duration::parse_duration(&w) {
            Some(d) => Ok((d, j)),
            None => Err(DecodeError::Schema(f)),
        },
    }
}

fn p_bool(s: &Vec<u8>, i: usize, f: Field) -> (r: Result<(bool, usize), DecodeError>)
    requires
        i <= s@.len(),
    ensures
        match r {
            Ok(p) => i < p.1 <= s@.len() && sp_bool_val(s@.skip(i as int), f) == Ok::<
                (bool, Seq<u8>),
                DecodeError,
            >((p.0, s@.skip(p.1 as int))),
            Err(e) => sp_bool_val(s@.skip(i as int), f) == Err::<(bool, Seq<u8>), DecodeError>(e),
        },
{
    let n: usize = s.len();
    let tlit = lv_v_true();
    let flit = lv_v_false();
    if crate::wire::match_at(s, i, &tlit) {
        proof {
            assert(l_v_true().len() == 4);
            assert(4 <= n - i);
            assert(s@.skip(i as int).skip(l_v_true().len() as int) =~= s@.skip(i + 4));
        }
        Ok((true, i + 4))
    } else if crate::wire::match_at(s, i, &flit) {
        proof {
            assert(l_v_false().len() == 5);
            assert(5 <= n - i);
            assert(s@.skip(i as int).skip(l_v_false().len() as int) =~= s@.skip(i + 5));
        }
        Ok((false, i + 5))
    } else {
        Err(DecodeError::Schema(f))
    }
}

#[verifier::rlimit(100)]
fn pt_decode(s: &Vec<u8>, i: usize) -> (r: Result<(PublicTariff, usize), DecodeError>)
    requires
        i <= s@.len(),
    ensures
        match r {
            Ok(p) => i < p.1 <= s@.len() && sp_public_tariff(s@.skip(i as int)) == Ok::<
                (PublicTariffV, Seq<u8>),
                DecodeError,
            >((p.0@, s@.skip(p.1 as int))),
            Err(e) => sp_public_tariff(s@.skip(i as int)) == Err::<
                (PublicTariffV, Seq<u8>),
                DecodeError,
            >(e),
        },
{
    let i1 = match p_byte(s, i, '{' as u8) {
        Some(j) => j,
        None => {
            return Err(DecodeError::Parse);
        },
    };
    let key_id = lv_k_id();
    let i2 = match p_key(s, i1, &key_id, Field::PublicTariffId) {
        Ok(j) => j,
        Err(e) => {
            return Err(e);
        },
    };
    let (id, i3) = match p_u32(s, i2, Field::PublicTariffId) {
        Ok(p) => p,
        Err(e) => {
            return Err(e);
        },
    };
    let key_price = lv_k_price();
    let i4 = match p_sep_key(s, i3, &key_price, Field::PublicTariffPrice) {
        Ok(j) => j,
        Err(e) => {
            return Err(e);
        },
    };
    let (price, i5) = match p_u32(s, i4, Field::PublicTariffPrice) {
        Ok(p) => p,
        Err(e) => {
            return Err(e);
        },
    };
    let key_duration = lv_k_duration();
    let i6 = match p_sep_key(s, i5, &key_duration, Field::PublicTariffDuration) {
        Ok(j) => j,
        Err(e) => {
            return Err(e);
        },
    };
    let (duration, i7) = match p_dur(s, i6, Field::PublicTariffDuration) {
        Ok(p) => p,
        Err(e) => {
            return Err(e);
        },
    };
    let key_description = lv_k_description();
    let i8 = match p_sep_key(s, i7, &key_description, Field::PublicTariffDescription) {
        Ok(j) => j,
        Err(e) => {
            return Err(e);
        },
    };
    let (description, i9) = match p_str(s, i8, Field::PublicTariffDescription) {
        Ok(p) => p,
        Err(e) => {
            return Err(e);
        },
    };
    let i10 = match p_byte(s, i9, '}' as u8) {
        Some(j) => j,
        None => {
            return Err(DecodeError::Parse);
        },
    };
    Ok((PublicTariff { id, price, duration, description }, i10))
}

#[verifier::rlimit(100)]
fn ct_decode(s: &Vec<u8>, i: usize) -> (r: Result<(PrivateTariff, usize), DecodeError>)
    requires
        i <= s@.len(),
    ensures
        match r {
            Ok(p) => i < p.1 <= s@.len() && sp_private_tariff(s@.skip(i as int)) == Ok::<
                (PrivateTariffV, Seq<u8>),
                DecodeError,
            >((p.0@, s@.skip(p.1 as int))),
            Err(e) => sp_private_tariff(s@.skip(i as int)) == Err::<
                (PrivateTariffV, Seq<u8>),
                DecodeError,
            >(e),
        },
{
    let i1 = match p_byte(s, i, '{' as u8) {
        Some(j) => j,
        None => {
            return Err(DecodeError::Parse);
        },
    };
    let key_client_price = lv_k_client_price();
    let i2 = match p_key(s, i1, &key_client_price, Field::PrivateTariffClientPrice) {
        Ok(j) => j,
        Err(e) => {
            return Err(e);
        },
    };
    let (client_price, i3) = match p_u32(s, i2, Field::PrivateTariffClientPrice) {
        Ok(p) => p,
        Err(e) => {
            return Err(e);
        },
    };
    let key_duration = lv_k_duration();
    let i4 = match p_sep_key(s, i3, &key_duration, Field::PrivateTariffDuration) {
        Ok(j) => j,
        Err(e) => {
            return Err(e);
        },
    };
    let (duration, i5) = match p_dur(s, i4, Field::PrivateTariffDuration) {
        Ok(p) => p,
        Err(e) => {
            return Err(e);
        },
    };
    let key_description = lv_k_description();
    let i6 = match p_sep_key(s, i5, &key_description, Field::PrivateTariffDescription) {
        Ok(j) => j,
        Err(e) => {
            return Err(e);
        },
    };
    let (description, i7) = match p_str(s, i6, Field::PrivateTariffDescription) {
        Ok(p) => p,
        Err(e) => {
            return Err(e);
        },
    };
    let i8 = match p_byte(s, i7, '}' as u8) {
        Some(j) => j,
        None => {
            return Err(DecodeError::Parse);
        },
    };
    Ok((PrivateTariff { client_price, duration, description }, i8))
}

#[verifier::rlimit(100)]
fn gift_decode(s: &Vec<u8>, i: usize) -> (r: Result<(Gift, usize), DecodeError>)
    requires
        i <= s@.len(),
    ensures
        match r {
            Ok(p) => i < p.1 <= s@.len() && sp_gift(s@.skip(i as int)) == Ok::<
                (GiftV, Seq<u8>),
                DecodeError,
            >((p.0@, s@.skip(p.1 as int))),
            Err(e) => sp_gift(s@.skip(i as int)) == Err::<(GiftV, Seq<u8>), DecodeError>(e),
        },
{
    let i1 = match p_byte(s, i, '{' as u8) {
        Some(j) => j,
        None => {
            return Err(DecodeError::Parse);
        },
    };
    let key_id = lv_k_id();
    let i2 = match p_key(s, i1, &key_id, Field::GiftId) {
        Ok(j) => j,
        Err(e) => {
            return Err(e);
        },
    };
    let (id, i3) = match p_u32(s, i2, Field::GiftId) {
        Ok(p) => p,
        Err(e) => {
            return Err(e);
        },
    };
    let key_price = lv_k_price();
    let i4 = match p_sep_key(s, i3, &key_price, Field::GiftPrice) {
        Ok(j) => j,
        Err(e) => {
            return Err(e);
        },
    };
    let (price, i5) = match p_u32(s, i4, Field::GiftPrice) {
        Ok(p) => p,
        Err(e) => {
            return Err(e);
        },
    };
    let key_description = lv_k_description();
    let i6 = match p_sep_key(s, i5, &key_description, Field::GiftDescription) {
        Ok(j) => j,
        Err(e) => {
            return Err(e);
        },
    };
    let (description, i7) = match p_str(s, i6, Field::GiftDescription) {
        Ok(p) => p,
        Err(e) => {
            return Err(e);
        },
    };
    let i8 = match p_byte(s, i7, '}' as u8) {
        Some(j) => j,
        None => {
            return Err(DecodeError::Parse);
        },
    };
    Ok((Gift { id, price, description }, i8))
}

#[verifier::rlimit(100)]
fn debug_decode(s: &Vec<u8>, i: usize) -> (r: Result<(DebugInfo, usize), DecodeError>)
    requires
        i <= s@.len(),
    ensures
        match r {
            Ok(p) => i < p.1 <= s@.len() && sp_debug(s@.skip(i as int)) == Ok::<
                (DebugInfoV, Seq<u8>),
                DecodeError,
            >((p.0@, s@.skip(p.1 as int))),
            Err(e) => sp_debug(s@.skip(i as int)) == Err::<(DebugInfoV, Seq<u8>), DecodeError>(e),
        },
{
    let i1 = match p_byte(s, i, '{' as u8) {
        Some(j) => j,
        None => {
            return Err(DecodeError::Parse);
        },
    };
    let key_duration = lv_k_duration();
    let i2 = match p_key(s, i1, &key_duration, Field::DebugDuration) {
        Ok(j) => j,
        Err(e) => {
            return Err(e);
        },
    };
    let (duration, i3) = match p_dur(s, i2, Field::DebugDuration) {
        Ok(p) => p,
        Err(e) => {
            return Err(e);
        },
    };
    let key_at = lv_k_at();
    let i4 = match p_sep_key(s, i3, &key_at, Field::DebugAt) {
        Ok(j) => j,
        Err(e) => {
            return Err(e);
        },
    };
    let (at, i5) = match p_str(s, i4, Field::DebugAt) {
        Ok(p) => p,
        Err(e) => {
            return Err(e);
        },
    };
    if !check_timestamp(&at) {
        return Err(DecodeError::Schema(Field::DebugAt));
    }
    let i6 = match p_byte(s, i5, '}' as u8) {
        Some(j) => j,
        None => {
            return Err(DecodeError::Parse);
        },
    };
    Ok((DebugInfo { duration, at }, i6))
}

#[verifier::rlimit(100)]
fn stream_decode(s: &Vec<u8>, i: usize) -> (r: Result<(Stream, usize), DecodeError>)
    requires
        i <= s@.len(),
    ensures
        match r {
            Ok(p) => i < p.1 <= s@.len() && sp_stream(s@.skip(i as int)) == Ok::<
                (StreamV, Seq<u8>),
                DecodeError,
            >((p.0@, s@.skip(p.1 as int))),
            Err(e) => sp_stream(s@.skip(i as int)) == Err::<(StreamV, Seq<u8>), DecodeError>(e),
        },
{
    let i1 = match p_byte(s, i, '{' as u8) {
        Some(j) => j,
        None => {
            return Err(DecodeError::Parse);
        },
    };
    let key_user_id = lv_k_user_id();
    let i2 = match p_key(s, i1, &key_user_id, Field::UserId) {
        Ok(j) => j,
        Err(e) => {
            return Err(e);
        },
    };
    let (user_id, i3) = match p_str(s, i2, Field::UserId) {
        Ok(p) => p,
        Err(e) => {
            return Err(e);
        },
    };
    if !check_uuid(&user_id) {
        return Err(DecodeError::Schema(Field::UserId));
    }
    let key_is_private = lv_k_is_private();
    let i4 = match p_sep_key(s, i3, &key_is_private, Field::IsPrivate) {
        Ok(j) => j,
        Err(e) => {
            return Err(e);
        },
    };
    let (is_private, i5) = match p_bool(s, i4, Field::IsPrivate) {
        Ok(p) => p,
        Err(e) => {
            return Err(e);
        },
    };
    let key_settings = lv_k_settings();
    let i6 = match p_sep_key(s, i5, &key_settings, Field::Settings) {
        Ok(j) => j,
        Err(e) => {
            return Err(e);
        },
    };
    let (settings, i7) = match p_u32(s, i6, Field::Settings) {
        Ok(p) => p,
        Err(e) => {
            return Err(e);
        },
    };
    let key_shard_url = lv_k_shard_url();
    let i8 = match p_sep_key(s, i7, &key_shard_url, Field::ShardUrl) {
        Ok(j) => j,
        Err(e) => {
            return Err(e);
        },
    };
    let (shard_url, i9) = match p_str(s, i8, Field::ShardUrl) {
        Ok(p) => p,
        Err(e) => {
            return Err(e);
        },
    };
    if !check_uri(&shard_url) {
        return Err(DecodeError::Schema(Field::ShardUrl));
    }
    let key_public_tariff = lv_k_public_tariff();
    let i10 = match p_sep_key(s, i9, &key_public_tariff, Field::PublicTariffField) {
        Ok(j) => j,
        Err(e) => {
            return Err(e);
        },
    };
    let (public_tariff, i11) = match pt_decode(s, i10) {
        Ok(p) => p,
        Err(e) => {
            return Err(e);
        },
    };
    let key_private_tariff = lv_k_private_tariff();
    let i12 = match p_sep_key(s, i11, &key_private_tariff, Field::PrivateTariffField) {
        Ok(j) => j,
        Err(e) => {
            return Err(e);
        },
    };
    let (private_tariff, i13) = match ct_decode(s, i12) {
        Ok(p) => p,
        Err(e) => {
            return Err(e);
        },
    };
    let i14 = match p_byte(s, i13, '}' as u8) {
        Some(j) => j,
        None => {
            return Err(DecodeError::Parse);
        },
    };
    Ok(
        (
            Stream { user_id, is_private, settings, shard_url, public_tariff, private_tariff },
            i14,
        ),
    )
}

#[verifier::rlimit(100)]
fn gift_list_decode(s: &Vec<u8>, i: usize) -> (r: Result<(Vec<Gift>, usize), DecodeError>)
    requires
        i <= s@.len(),
    ensures
        match r {
            Ok(p) => i < p.1 <= s@.len() && sp_gift_list(s@.skip(i as int)) == Ok::<
                (Seq<GiftV>, Seq<u8>),
                DecodeError,
            >((gifts_view(p.0@), s@.skip(p.1 as int))),
            Err(e) => sp_gift_list(s@.skip(i as int)) == Err::<(Seq<GiftV>, Seq<u8>), DecodeError>(
                e,
            ),
        },
    decreases s@.len() - i,
{
    let (g, j) = match gift_decode(s, i) {
        Ok(p) => p,
        Err(e) => {
            return Err(e);
        },
    };
    let ghost rem = s@.skip(i as int);
    let ghost r1 = s@.skip(j as int);
    if j < s.len() && s[j] == ',' as u8 {
        proof {
            assert(r1[0] == s@[j as int]);
            assert(r1.skip(1) =~= s@.skip(j + 1));
        }
        let (mut gs, j2) = match gift_list_decode(s, j + 1) {
            Ok(p) => p,
            Err(e) => {
                return Err(e);
            },
        };
        let ghost pre = gs@;
        gs.insert(0, g);
        proof {
            assert forall|t: int| 0 <= t < gifts_view(gs@).len() implies gifts_view(gs@)[t] == (
            seq![g@] + gifts_view(pre))[t] by {
                if t == 0 {
                    assert(gs@[0] == g);
                } else {
                    assert(gs@[t] == pre[t - 1]);
                }
            }
            assert(gifts_view(gs@) =~= seq![g@] + gifts_view(pre));
        }
        Ok((gs, j2))
    } else if j < s.len() && s[j] == ']' as u8 {
        proof {
            assert(r1[0] == s@[j as int]);
            assert(r1.skip(1) =~= s@.skip(j + 1));
        }
        let mut gs: Vec<Gift> = Vec::new();
        gs.push(g);
        proof {
            assert(gs@[0] == g);
            assert(gifts_view(gs@) =~= seq![g@]);
        }
        Ok((gs, j + 1))
    } else {
        proof {
            if j < s@.len() {
                assert(r1[0] == s@[j as int]);
            }
        }
        Err(DecodeError::Parse)
    }
}

#[verifier::rlimit(100)]
fn gifts_decode(s: &Vec<u8>, i: usize) -> (r: Result<(Vec<Gift>, usize), DecodeError>)
    requires
        i <= s@.len(),
    ensures
        match r {
            Ok(p) => i < p.1 <= s@.len() && sp_gifts(s@.skip(i as int)) == Ok::<
                (Seq<GiftV>, Seq<u8>),
                DecodeError,
            >((gifts_view(p.0@), s@.skip(p.1 as int))),
            Err(e) => sp_gifts(s@.skip(i as int)) == Err::<(Seq<GiftV>, Seq<u8>), DecodeError>(e),
        },
{
    if i < s.len() && s[i] == ']' as u8 {
        proof {
            assert(s@.skip(i as int)[0] == s@[i as int]);
            assert(s@.skip(i as int).skip(1) =~= s@.skip(i + 1));
        }
        let gs: Vec<Gift> = Vec::new();
        proof {
            assert(gifts_view(gs@) =~= Seq::<GiftV>::empty());
        }
        Ok((gs, i + 1))
    } else {
        proof {
            if i < s@.len() {
                assert(s@.skip(i as int)[0] == s@[i as int]);
            }
        }
        gift_list_decode(s, i)
    }
}

/// Decodes a request from the self-describing hierarchical format. Returns
/// `Ok` exactly on the payloads the format's grammar and the schema accept,
/// the structured error otherwise, and never panics.
#[verifier::rlimit(100)]
#[verifier::spinoff_prover]
pub fn decode_request(input: &Vec<u8>) -> (r: Result<Request, DecodeError>)
    ensures
        match r {
            Ok(req) => sp_request(input@) == Ok::<RequestV, DecodeError>(req@) && valid_request(
                req@,
            ),
            Err(e) => sp_request(input@) == Err::<RequestV, DecodeError>(e),
        },
{
    proof {
        assert(input@.skip(0) =~= input@);
    }
    let i1 = match p_byte(input, 0, '{' as u8) {
        Some(j) => j,
        None => {
            return Err(DecodeError::Parse);
        },
    };
    let key_type = lv_k_type();
    let i2 = match p_key(input, i1, &key_type, Field::RequestTypeField) {
        Ok(j) => j,
        Err(e) => {
            return Err(e);
        },
    };
    let (tv, i3) = match p_str(input, i2, Field::RequestTypeField) {
        Ok(p) => p,
        Err(e) => {
            return Err(e);
        },
    };
    let success = lv_v_success();
    let ghost old_i3 = i3;
    if !(tv.len() == success.len() && crate::wire::match_at(&tv, 0, &success)) {
        proof {
            assert(tv@.skip(0) =~= tv@);
            if tv@ == l_v_success() {
                assert(begins_with(tv@, l_v_success()));
            }
        }
        return Err(DecodeError::Schema(Field::RequestTypeField));
    }
    proof {
        assert(tv@.skip(0) =~= tv@);
        assert(tv@.subrange(0, l_v_success().len() as int) =~= tv@);
        assert(tv@ == l_v_success());
    }
    let key_stream = lv_k_stream();
    let i4 = match p_sep_key(input, i3, &key_stream, Field::StreamField) {
        Ok(j) => j,
        Err(e) => {
            return Err(e);
        },
    };
    let (stream, i5) = match stream_decode(input, i4) {
        Ok(p) => p,
        Err(e) => {
            return Err(e);
        },
    };
    let key_gifts = lv_k_gifts();
    let i6 = match p_sep_key(input, i5, &key_gifts, Field::GiftsField) {
        Ok(j) => j,
        Err(e) => {
            return Err(e);
        },
    };
    let i7 = match p_byte(input, i6, '[' as u8) {
        Some(j) => j,
        None => {
            return Err(DecodeError::Parse);
        },
    };
    let (gifts, i8) = match gifts_decode(input, i7) {
        Ok(p) => p,
        Err(e) => {
            return Err(e);
        },
    };
    let key_debug = lv_k_debug();
    let i9 = match p_sep_key(input, i8, &key_debug, Field::DebugField) {
        Ok(j) => j,
        Err(e) => {
            return Err(e);
        },
    };
    let (debug, i10) = match debug_decode(input, i9) {
        Ok(p) => p,
        Err(e) => {
            return Err(e);
        },
    };
    let i11 = match p_byte(input, i10, '}' as u8) {
        Some(j) => j,
        None => {
            return Err(DecodeError::Parse);
        },
    };
    if i11 != input.len() {
        return Err(DecodeError::Parse);
    }
    let req = Request { request_type: RequestType::Success, stream, gifts, debug };
    proof {
        lemma_sp_request_valid(input@);
    }
    Ok(req)
}

/// Decodes an event from the self-describing hierarchical format, running
/// the date field codec's decode direction on the wire date value.
#[verifier::rlimit(100)]
pub fn decode_event(input: &Vec<u8>) -> (r: Result<Event, DecodeError>)
    ensures
        match r {
            Ok(e) => sp_event(input@) == Ok::<EventV, DecodeError>(e@) && valid_event(e@),
            Err(e) => sp_event(input@) == Err::<EventV, DecodeError>(e),
        },
{
    proof {
        assert(input@.skip(0) =~= input@);
    }
    let i1 = match p_byte(input, 0, '{' as u8) {
        Some(j) => j,
        None => {
            return Err(DecodeError::Parse);
        },
    };
    let key_name = lv_k_name();
    let i2 = match p_key(input, i1, &key_name, Field::EventName) {
        Ok(j) => j,
        Err(e) => {
            return Err(e);
        },
    };
    let (name, i3) = match p_str(input, i2, Field::EventName) {
        Ok(p) => p,
        Err(e) => {
            return Err(e);
        },
    };
    let key_date = lv_k_date();
    let i4 = match p_sep_key(input, i3, &key_date, Field::EventDate) {
        Ok(j) => j,
        Err(e) => {
            return Err(e);
        },
    };
    let (w, i5) = match p_str(input, i4, Field::EventDate) {
        Ok(p) => p,
        Err(e) => {
            return Err(e);
        },
    };
    let i6 = match p_byte(input, i5, '}' as u8) {
        Some(j) => j,
        None => {
            return Err(DecodeError::Parse);
        },
    };
    if i6 != input.len() {
        return Err(DecodeError::Parse);
    }
    let date = crate::datecodec::decode_date(&w);
    proof {
        lemma_sp_event_valid(input@);
    }
    Ok(Event { name, date })
}

// ---------------------------------------------------------------------
// executable encoding
// ---------------------------------------------------------------------

fn push_qstr(out: &mut Vec<u8>, v: &Vec<u8>)
    ensures
        final(out)@ == old(out)@ + qstr(v@),
{
    out.push('"' as u8);
    crate::wire::push_lit(out, v);
    out.push('"' as u8);
    assert(out@ =~= old(out)@ + qstr(v@));
}

#[verifier::rlimit(100)]
fn push_pt(out: &mut Vec<u8>, t: &PublicTariff)
    ensures
        final(out)@ == old(out)@ + json_of_public_tariff(t@),
{
    out.push('{' as u8);
    let key_id = lv_k_id();
    crate::wire::push_lit(out, &key_id);
    crate::wire::push_u64(out, t.id as u64);
    out.push(',' as u8);
    let key_price = lv_k_price();
    crate::wire::push_lit(out, &key_price);
    crate::wire::push_u64(out, t.price as u64);
    out.push(',' as u8);
    let key_duration = lv_k_duration();
    crate::wire::push_lit(out, &key_duration);
    out.push('"' as u8);
    crate::duration::push_duration(out, t.duration);
    out.push('"' as u8);
    out.push(',' as u8);
    let key_description = lv_k_description();
    crate::wire::push_lit(out, &key_description);
    push_qstr(out, &t.description);
    out.push('}' as u8);
    assert(out@ =~= old(out)@ + json_of_public_tariff(t@));
}

#[verifier::rlimit(100)]
fn push_ct(out: &mut Vec<u8>, t: &PrivateTariff)
    ensures
        final(out)@ == old(out)@ + json_of_private_tariff(t@),
{
    out.push('{' as u8);
    let key_client_price = lv_k_client_price();
    crate::wire::push_lit(out, &key_client_price);
    crate::wire::push_u64(out, t.client_price as u64);
    out.push(',' as u8);
    let key_duration = lv_k_duration();
    crate::wire::push_lit(out, &key_duration);
    out.push('"' as u8);
    crate::duration::push_duration(out, t.duration);
    out.push('"' as u8);
    out.push(',' as u8);
    let key_description = lv_k_description();
    crate::wire::push_lit(out, &key_description);
    push_qstr(out, &t.description);
    out.push('}' as u8);
    assert(out@ =~= old(out)@ + json_of_private_tariff(t@));
}

#[verifier::rlimit(100)]
fn push_gift(out: &mut Vec<u8>, g: &Gift)
    ensures
        final(out)@ == old(out)@ + json_of_gift(g@),
{
    out.push('{' as u8);
    let key_id = lv_k_id();
    crate::wire::push_lit(out, &key_id);
    crate::wire::push_u64(out, g.id as u64);
    out.push(',' as u8);
    let key_price = lv_k_price();
    crate::wire::push_lit(out, &key_price);
    crate::wire::push_u64(out, g.price as u64);
    out.push(',' as u8);
    let key_description = lv_k_description();
    crate::wire::push_lit(out, &key_description);
    push_qstr(out, &g.description);
    out.push('}' as u8);
    assert(out@ =~= old(out)@ + json_of_gift(g@));
}

#[verifier::rlimit(100)]
fn push_debug(out: &mut Vec<u8>, d: &DebugInfo)
    ensures
        final(out)@ == old(out)@ + json_of_debug(d@),
{
    out.push('{' as u8);
    let key_duration = lv_k_duration();
    crate::wire::push_lit(out, &key_duration);
    out.push('"' as u8);
    crate::duration::push_duration(out, d.duration);
    out.push('"' as u8);
    out.push(',' as u8);
    let key_at = lv_k_at();
    crate::wire::push_lit(out, &key_at);
    push_qstr(out, &d.at);
    out.push('}' as u8);
    assert(out@ =~= old(out)@ + json_of_debug(d@));
}

#[verifier::rlimit(100)]
#[verifier::spinoff_prover]
fn push_stream(out: &mut Vec<u8>, st: &Stream)
    ensures
        final(out)@ == old(out)@ + json_of_stream(st@),
{
    out.push('{' as u8);
    let key_user_id = lv_k_user_id();
    crate::wire::push_lit(out, &key_user_id);
    push_qstr(out, &st.user_id);
    out.push(',' as u8);
    let key_is_private = lv_k_is_private();
    crate::wire::push_lit(out, &key_is_private);
    if st.is_private {
        let w = lv_v_true();
        crate::wire::push_lit(out, &w);
    } else {
        let w = lv_v_false();
        crate::wire::push_lit(out, &w);
    }
    out.push(',' as u8);
    let key_settings = lv_k_settings();
    crate::wire::push_lit(out, &key_settings);
    crate::wire::push_u64(out, st.settings as u64);
    out.push(',' as u8);
    let key_shard_url = lv_k_shard_url();
    crate::wire::push_lit(out, &key_shard_url);
    push_qstr(out, &st.shard_url);
    out.push(',' as u8);
    let key_public_tariff = lv_k_public_tariff();
    crate::wire::push_lit(out, &key_public_tariff);
    push_pt(out, &st.public_tariff);
    out.push(',' as u8);
    let key_private_tariff = lv_k_private_tariff();
    crate::wire::push_lit(out, &key_private_tariff);
    push_ct(out, &st.private_tariff);
    out.push('}' as u8);
    assert(out@ =~= old(out)@ + json_of_stream(st@));
}

/// The gift items of the sequence, in sequence order, joined by commas and
/// closed with the bracket.
#[verifier::rlimit(100)]
fn push_gift_items(out: &mut Vec<u8>, gs: &Vec<Gift>)
    ensures
        final(out)@ == old(out)@ + json_of_gift_items(gifts_view(gs@)),
    decreases gs@.len(),
{
    let ghost gv = gifts_view(gs@);
    if gs.len() == 0 {
        out.push(']' as u8);
        assert(out@ =~= old(out)@ + json_of_gift_items(gv));
        return ;
    }
    let mut i: usize = 0;
    proof {
        assert(json_prefix_of_items(gv, 0) == Seq::<u8>::empty());
        assert(out@ =~= old(out)@ + json_prefix_of_items(gv, 0));
    }
    while i < gs.len() - 1
        invariant
            0 <= i <= gs@.len() - 1,
            gv == gifts_view(gs@),
            gv.len() == gs@.len(),
            out@ =~= old(out)@ + json_prefix_of_items(gv, i as int),
        decreases gs@.len() - i,
    {
        push_gift(out, &gs[i]);
        out.push(',' as u8);
        proof {
            assert(gv[i as int] == gs@[i as int]@);
            assert(out@ =~= old(out)@ + json_prefix_of_items(gv, i + 1));
        }
        i = i + 1;
    }
    push_gift(out, &gs[i]);
    out.push(']' as u8);
    proof {
        assert(gv[i as int] == gs@[i as int]@);
        lemma_json_items_split(gv, i as int);
        assert(out@ =~= old(out)@ + json_of_gift_items(gv));
    }
}

/// The bytes of the first `i` items, each followed by its comma.
pub open spec fn json_prefix_of_items(gs: Seq<GiftV>, i: int) -> Seq<u8>
    decreases i,
{
    if i <= 0 {
        Seq::<u8>::empty()
    } else {
        json_prefix_of_items(gs, i - 1) + json_of_gift(gs[i - 1]) + seq![',' as u8]
    }
}

/// Splitting the items at the last element: the comma-joined prefix, the
/// last item, the closing bracket.
proof fn lemma_json_items_split(gs: Seq<GiftV>, i: int)
    requires
        0 <= i == gs.len() - 1,
    ensures
        json_of_gift_items(gs) == json_prefix_of_items(gs, i) + json_of_gift(gs[i]) + seq![
            ']' as u8,
        ],
    decreases i,
{
    if i == 0 {
        assert(json_prefix_of_items(gs, 0) + json_of_gift(gs[0]) + seq![']' as u8] =~= json_of_gift(
            gs[0],
        ) + seq![']' as u8]);
    } else {
        lemma_json_items_shift(gs, i);
    }
}

/// Peeling one leading item off the recursive item encoding.
proof fn lemma_json_items_shift(gs: Seq<GiftV>, i: int)
    requires
        1 <= i == gs.len() - 1,
    ensures
        json_of_gift_items(gs) == json_prefix_of_items(gs, i) + json_of_gift(gs[i]) + seq![
            ']' as u8,
        ],
    decreases gs.len(),
{
    let tail = gs.skip(1);
    if i == 1 {
        assert(tail.len() == 1);
        assert(tail[0] == gs[1]);
        assert(json_of_gift_items(tail) == json_of_gift(gs[1]) + seq![']' as u8]);
        assert(json_prefix_of_items(gs, 0) == Seq::<u8>::empty());
        assert(json_prefix_of_items(gs, 1) =~= json_of_gift(gs[0]) + seq![',' as u8]);
        assert(json_of_gift_items(gs) =~= json_prefix_of_items(gs, 1) + json_of_gift(gs[1]) + seq![
            ']' as u8,
        ]);
    } else {
        lemma_json_items_shift(tail, i - 1);
        assert(tail[i - 1] == gs[i]);
        assert forall|t: int| 1 <= t <= i implies json_prefix_of_items(gs, t) =~= json_of_gift(
            gs[0],
        ) + seq![',' as u8] + json_prefix_of_tail(gs, t) by {
            lemma_json_prefix_peel(gs, t);
        }
        assert(json_of_gift_items(gs) =~= json_prefix_of_items(gs, i) + json_of_gift(gs[i]) + seq![
            ']' as u8,
        ]);
    }
}

/// The comma-joined prefix of the tail, seen from the whole sequence.
pub open spec fn json_prefix_of_tail(gs: Seq<GiftV>, i: int) -> Seq<u8> {
    json_prefix_of_items(gs.skip(1), i - 1)
}

proof fn lemma_json_prefix_peel(gs: Seq<GiftV>, i: int)
    requires
        1 <= i <= gs.len(),
    ensures
        json_prefix_of_items(gs, i) == json_of_gift(gs[0]) + seq![',' as u8] + json_prefix_of_tail(
            gs,
            i,
        ),
    decreases i,
{
    if i == 1 {
        assert(json_prefix_of_items(gs.skip(1), 0) =~= Seq::<u8>::empty());
        assert(json_prefix_of_items(gs, 0) == Seq::<u8>::empty());
        assert(json_prefix_of_items(gs, 1) =~= json_of_gift(gs[0]) + seq![',' as u8]
            + json_prefix_of_items(gs.skip(1), 0));
    } else {
        lemma_json_prefix_peel(gs, i - 1);
        assert(gs.skip(1)[i - 2] == gs[i - 1]);
        assert(json_prefix_of_items(gs, i) =~= json_of_gift(gs[0]) + seq![',' as u8]
            + json_prefix_of_items(gs.skip(1), i - 1));
    }
}

/// Encodes a request to the self-describing hierarchical format: exactly
/// the bytes of `json_of_request`, for every request value.
#[verifier::rlimit(100)]
#[verifier::spinoff_prover]
pub fn encode_request_json(r: &Request) -> (out: Vec<u8>)
    ensures
        out@ == json_of_request(r@),
{
    let mut out: Vec<u8> = Vec::new();
    out.push('{' as u8);
    let key_type = lv_k_type();
    crate::wire::push_lit(&mut out, &key_type);
    let success = lv_v_success();
    push_qstr(&mut out, &success);
    out.push(',' as u8);
    let key_stream = lv_k_stream();
    crate::wire::push_lit(&mut out, &key_stream);
    push_stream(&mut out, &r.stream);
    out.push(',' as u8);
    let key_gifts = lv_k_gifts();
    crate::wire::push_lit(&mut out, &key_gifts);
    out.push('[' as u8);
    push_gift_items(&mut out, &r.gifts);
    out.push(',' as u8);
    let key_debug = lv_k_debug();
    crate::wire::push_lit(&mut out, &key_debug);
    push_debug(&mut out, &r.debug);
    out.push('}' as u8);
    proof {
        assert(json_of_gifts(r@.gifts) =~= seq!['[' as u8] + json_of_gift_items(r@.gifts));
        assert(out@ =~= json_of_request(r@));
    }
    out
}

/// Encodes an event to the self-describing hierarchical format, running the
/// date field codec's encode direction on the date value.
#[verifier::rlimit(100)]
pub fn encode_event_json(e: &Event) -> (out: Vec<u8>)
    ensures
        out@ == json_of_event(e@),
{
    let mut out: Vec<u8> = Vec::new();
    out.push('{' as u8);
    let key_name = lv_k_name();
    crate::wire::push_lit(&mut out, &key_name);
    push_qstr(&mut out, &e.name);
    out.push(',' as u8);
    let key_date = lv_k_date();
    crate::wire::push_lit(&mut out, &key_date);
    let wire_date = crate::datecodec::encode_date(&e.date);
    push_qstr(&mut out, &wire_date);
    out.push('}' as u8);
    assert(out@ =~= json_of_event(e@));
    out
}

} // verus!
