//! The fixed wire literals of the three exchange formats, each given once
//! as a specification-level byte sequence and once as an executable builder
//! proved to produce exactly that sequence.

use vstd::prelude::*;

verus! {

/// A quoted string: the value between two quote bytes.
pub open spec fn qstr(v: Seq<u8>) -> Seq<u8> {
    seq!['"' as u8] + v + seq!['"' as u8]
}

/// The literal `"type":`.
pub open spec fn l_k_type() -> Seq<u8> {
    seq!['"' as u8, 't' as u8, 'y' as u8, 'p' as u8, 'e' as u8, '"' as u8, ':' as u8]
}

/// Builds the literal `"type":`.
pub fn lv_k_type() -> (v: Vec<u8>)
    ensures
        v@ == l_k_type(),
{
    let mut v: Vec<u8> = Vec::new();
    v.push('"' as u8);
    v.push('t' as u8);
    v.push('y' as u8);
    v.push('p' as u8);
    v.push('e' as u8);
    v.push('"' as u8);
    v.push(':' as u8);
    proof {
        assert(v@ =~= l_k_type());
    }
    v
}

/// The literal `"stream":`.
pub open spec fn l_k_stream() -> Seq<u8> {
    seq!['"' as u8, 's' as u8, 't' as u8, 'r' as u8, 'e' as u8, 'a' as u8, 'm' as u8, '"' as u8, ':' as u8]
}

/// Builds the literal `"stream":`.
pub fn lv_k_stream() -> (v: Vec<u8>)
    ensures
        v@ == l_k_stream(),
{
    let mut v: Vec<u8> = Vec::new();
    v.push('"' as u8);
    v.push('s' as u8);
    v.push('t' as u8);
    v.push('r' as u8);
    v.push('e' as u8);
    v.push('a' as u8);
    v.push('m' as u8);
    v.push('"' as u8);
    v.push(':' as u8);
    proof {
        assert(v@ =~= l_k_stream());
    }
    v
}

/// The literal `"user_id":`.
pub open spec fn l_k_user_id() -> Seq<u8> {
    seq!['"' as u8, 'u' as u8, 's' as u8, 'e' as u8, 'r' as u8, '_' as u8, 'i' as u8, 'd' as u8, '"' as u8, ':' as u8]
}

/// Builds the literal `"user_id":`.
pub fn lv_k_user_id() -> (v: Vec<u8>)
    ensures
        v@ == l_k_user_id(),
{
    let mut v: Vec<u8> = Vec::new();
    v.push('"' as u8);
    v.push('u' as u8);
    v.push('s' as u8);
    v.push('e' as u8);
    v.push('r' as u8);
    v.push('_' as u8);
    v.push('i' as u8);
    v.push('d' as u8);
    v.push('"' as u8);
    v.push(':' as u8);
    proof {
        assert(v@ =~= l_k_user_id());
    }
    v
}

/// The literal `"is_private":`.
pub open spec fn l_k_is_private() -> Seq<u8> {
    seq!['"' as u8, 'i' as u8, 's' as u8, '_' as u8, 'p' as u8, 'r' as u8, 'i' as u8, 'v' as u8, 'a' as u8, 't' as u8, 'e' as u8, '"' as u8, ':' as u8]
}

/// Builds the literal `"is_private":`.
pub fn lv_k_is_private() -> (v: Vec<u8>)
    ensures
        v@ == l_k_is_private(),
{
    let mut v: Vec<u8> = Vec::new();
    v.push('"' as u8);
    v.push('i' as u8);
    v.push('s' as u8);
    v.push('_' as u8);
    v.push('p' as u8);
    v.push('r' as u8);
    v.push('i' as u8);
    v.push('v' as u8);
    v.push('a' as u8);
    v.push('t' as u8);
    v.push('e' as u8);
    v.push('"' as u8);
    v.push(':' as u8);
    proof {
        assert(v@ =~= l_k_is_private());
    }
    v
}

/// The literal `"settings":`.
pub open spec fn l_k_settings() -> Seq<u8> {
    seq!['"' as u8, 's' as u8, 'e' as u8, 't' as u8, 't' as u8, 'i' as u8, 'n' as u8, 'g' as u8, 's' as u8, '"' as u8, ':' as u8]
}

/// Builds the literal `"settings":`.
pub fn lv_k_settings() -> (v: Vec<u8>)
    ensures
        v@ == l_k_settings(),
{
    let mut v: Vec<u8> = Vec::new();
    v.push('"' as u8);
    v.push('s' as u8);
    v.push('e' as u8);
    v.push('t' as u8);
    v.push('t' as u8);
    v.push('i' as u8);
    v.push('n' as u8);
    v.push('g' as u8);
    v.push('s' as u8);
    v.push('"' as u8);
    v.push(':' as u8);
    proof {
        assert(v@ =~= l_k_settings());
    }
    v
}

/// The literal `"shard_url":`.
pub open spec fn l_k_shard_url() -> Seq<u8> {
    seq!['"' as u8, 's' as u8, 'h' as u8, 'a' as u8, 'r' as u8, 'd' as u8, '_' as u8, 'u' as u8, 'r' as u8, 'l' as u8, '"' as u8, ':' as u8]
}

/// Builds the literal `"shard_url":`.
pub fn lv_k_shard_url() -> (v: Vec<u8>)
    ensures
        v@ == l_k_shard_url(),
{
    let mut v: Vec<u8> = Vec::new();
    v.push('"' as u8);
    v.push('s' as u8);
    v.push('h' as u8);
    v.push('a' as u8);
    v.push('r' as u8);
    v.push('d' as u8);
    v.push('_' as u8);
    v.push('u' as u8);
    v.push('r' as u8);
    v.push('l' as u8);
    v.push('"' as u8);
    v.push(':' as u8);
    proof {
        assert(v@ =~= l_k_shard_url());
    }
    v
}

/// The literal `"public_tariff":`.
pub open spec fn l_k_public_tariff() -> Seq<u8> {
    seq!['"' as u8, 'p' as u8, 'u' as u8, 'b' as u8, 'l' as u8, 'i' as u8, 'c' as u8, '_' as u8, 't' as u8, 'a' as u8, 'r' as u8, 'i' as u8, 'f' as u8, 'f' as u8, '"' as u8, ':' as u8]
}

/// Builds the literal `"public_tariff":`.
pub fn lv_k_public_tariff() -> (v: Vec<u8>)
    ensures
        v@ == l_k_public_tariff(),
{
    let mut v: Vec<u8> = Vec::new();
    v.push('"' as u8);
    v.push('p' as u8);
    v.push('u' as u8);
    v.push('b' as u8);
    v.push('l' as u8);
    v.push('i' as u8);
    v.push('c' as u8);
    v.push('_' as u8);
    v.push('t' as u8);
    v.push('a' as u8);
    v.push('r' as u8);
    v.push('i' as u8);
    v.push('f' as u8);
    v.push('f' as u8);
    v.push('"' as u8);
    v.push(':' as u8);
    proof {
        assert(v@ =~= l_k_public_tariff());
    }
    v
}

/// The literal `"private_tariff":`.
pub open spec fn l_k_private_tariff() -> Seq<u8> {
    seq!['"' as u8, 'p' as u8, 'r' as u8, 'i' as u8, 'v' as u8, 'a' as u8, 't' as u8, 'e' as u8, '_' as u8, 't' as u8, 'a' as u8, 'r' as u8, 'i' as u8, 'f' as u8, 'f' as u8, '"' as u8, ':' as u8]
}

/// Builds the literal `"private_tariff":`.
pub fn lv_k_private_tariff() -> (v: Vec<u8>)
    ensures
        v@ == l_k_private_tariff(),
{
    let mut v: Vec<u8> = Vec::new();
    v.push('"' as u8);
    v.push('p' as u8);
    v.push('r' as u8);
    v.push('i' as u8);
    v.push('v' as u8);
    v.push('a' as u8);
    v.push('t' as u8);
    v.push('e' as u8);
    v.push('_' as u8);
    v.push('t' as u8);
    v.push('a' as u8);
    v.push('r' as u8);
    v.push('i' as u8);
    v.push('f' as u8);
    v.push('f' as u8);
    v.push('"' as u8);
    v.push(':' as u8);
    proof {
        assert(v@ =~= l_k_private_tariff());
    }
    v
}

/// The literal `"id":`.
pub open spec fn l_k_id() -> Seq<u8> {
    seq!['"' as u8, 'i' as u8, 'd' as u8, '"' as u8, ':' as u8]
}

/// Builds the literal `"id":`.
pub fn lv_k_id() -> (v: Vec<u8>)
    ensures
        v@ == l_k_id(),
{
    let mut v: Vec<u8> = Vec::new();
    v.push('"' as u8);
    v.push('i' as u8);
    v.push('d' as u8);
    v.push('"' as u8);
    v.push(':' as u8);
    proof {
        assert(v@ =~= l_k_id());
    }
    v
}

/// The literal `"price":`.
pub open spec fn l_k_price() -> Seq<u8> {
    seq!['"' as u8, 'p' as u8, 'r' as u8, 'i' as u8, 'c' as u8, 'e' as u8, '"' as u8, ':' as u8]
}

/// Builds the literal `"price":`.
pub fn lv_k_price() -> (v: Vec<u8>)
    ensures
        v@ == l_k_price(),
{
    let mut v: Vec<u8> = Vec::new();
    v.push('"' as u8);
    v.push('p' as u8);
    v.push('r' as u8);
    v.push('i' as u8);
    v.push('c' as u8);
    v.push('e' as u8);
    v.push('"' as u8);
    v.push(':' as u8);
    proof {
        assert(v@ =~= l_k_price());
    }
    v
}

/// The literal `"duration":`.
pub open spec fn l_k_duration() -> Seq<u8> {
    seq!['"' as u8, 'd' as u8, 'u' as u8, 'r' as u8, 'a' as u8, 't' as u8, 'i' as u8, 'o' as u8, 'n' as u8, '"' as u8, ':' as u8]
}

/// Builds the literal `"duration":`.
pub fn lv_k_duration() -> (v: Vec<u8>)
    ensures
        v@ == l_k_duration(),
{
    let mut v: Vec<u8> = Vec::new();
    v.push('"' as u8);
    v.push('d' as u8);
    v.push('u' as u8);
    v.push('r' as u8);
    v.push('a' as u8);
    v.push('t' as u8);
    v.push('i' as u8);
    v.push('o' as u8);
    v.push('n' as u8);
    v.push('"' as u8);
    v.push(':' as u8);
    proof {
        assert(v@ =~= l_k_duration());
    }
    v
}

/// The literal `"description":`.
pub open spec fn l_k_description() -> Seq<u8> {
    seq!['"' as u8, 'd' as u8, 'e' as u8, 's' as u8, 'c' as u8, 'r' as u8, 'i' as u8, 'p' as u8, 't' as u8, 'i' as u8, 'o' as u8, 'n' as u8, '"' as u8, ':' as u8]
}

/// Builds the literal `"description":`.
pub fn lv_k_description() -> (v: Vec<u8>)
    ensures
        v@ == l_k_description(),
{
    let mut v: Vec<u8> = Vec::new();
    v.push('"' as u8);
    v.push('d' as u8);
    v.push('e' as u8);
    v.push('s' as u8);
    v.push('c' as u8);
    v.push('r' as u8);
    v.push('i' as u8);
    v.push('p' as u8);
    v.push('t' as u8);
    v.push('i' as u8);
    v.push('o' as u8);
    v.push('n' as u8);
    v.push('"' as u8);
    v.push(':' as u8);
    proof {
        assert(v@ =~= l_k_description());
    }
    v
}

/// The literal `"client_price":`.
pub open spec fn l_k_client_price() -> Seq<u8> {
    seq!['"' as u8, 'c' as u8, 'l' as u8, 'i' as u8, 'e' as u8, 'n' as u8, 't' as u8, '_' as u8, 'p' as u8, 'r' as u8, 'i' as u8, 'c' as u8, 'e' as u8, '"' as u8, ':' as u8]
}

/// Builds the literal `"client_price":`.
pub fn lv_k_client_price() -> (v: Vec<u8>)
    ensures
        v@ == l_k_client_price(),
{
    let mut v: Vec<u8> = Vec::new();
    v.push('"' as u8);
    v.push('c' as u8);
    v.push('l' as u8);
    v.push('i' as u8);
    v.push('e' as u8);
    v.push('n' as u8);
    v.push('t' as u8);
    v.push('_' as u8);
    v.push('p' as u8);
    v.push('r' as u8);
    v.push('i' as u8);
    v.push('c' as u8);
    v.push('e' as u8);
    v.push('"' as u8);
    v.push(':' as u8);
    proof {
        assert(v@ =~= l_k_client_price());
    }
    v
}

/// The literal `"gifts":`.
pub open spec fn l_k_gifts() -> Seq<u8> {
    seq!['"' as u8, 'g' as u8, 'i' as u8, 'f' as u8, 't' as u8, 's' as u8, '"' as u8, ':' as u8]
}

/// Builds the literal `"gifts":`.
pub fn lv_k_gifts() -> (v: Vec<u8>)
    ensures
        v@ == l_k_gifts(),
{
    let mut v: Vec<u8> = Vec::new();
    v.push('"' as u8);
    v.push('g' as u8);
    v.push('i' as u8);
    v.push('f' as u8);
    v.push('t' as u8);
    v.push('s' as u8);
    v.push('"' as u8);
    v.push(':' as u8);
    proof {
        assert(v@ =~= l_k_gifts());
    }
    v
}

/// The literal `"debug":`.
pub open spec fn l_k_debug() -> Seq<u8> {
    seq!['"' as u8, 'd' as u8, 'e' as u8, 'b' as u8, 'u' as u8, 'g' as u8, '"' as u8, ':' as u8]
}

/// Builds the literal `"debug":`.
pub fn lv_k_debug() -> (v: Vec<u8>)
    ensures
        v@ == l_k_debug(),
{
    let mut v: Vec<u8> = Vec::new();
    v.push('"' as u8);
    v.push('d' as u8);
    v.push('e' as u8);
    v.push('b' as u8);
    v.push('u' as u8);
    v.push('g' as u8);
    v.push('"' as u8);
    v.push(':' as u8);
    proof {
        assert(v@ =~= l_k_debug());
    }
    v
}

/// The literal `"at":`.
pub open spec fn l_k_at() -> Seq<u8> {
    seq!['"' as u8, 'a' as u8, 't' as u8, '"' as u8, ':' as u8]
}

/// Builds the literal `"at":`.
pub fn lv_k_at() -> (v: Vec<u8>)
    ensures
        v@ == l_k_at(),
{
    let mut v: Vec<u8> = Vec::new();
    v.push('"' as u8);
    v.push('a' as u8);
    v.push('t' as u8);
    v.push('"' as u8);
    v.push(':' as u8);
    proof {
        assert(v@ =~= l_k_at());
    }
    v
}

/// The literal `"name":`.
pub open spec fn l_k_name() -> Seq<u8> {
    seq!['"' as u8, 'n' as u8, 'a' as u8, 'm' as u8, 'e' as u8, '"' as u8, ':' as u8]
}

/// Builds the literal `"name":`.
pub fn lv_k_name() -> (v: Vec<u8>)
    ensures
        v@ == l_k_name(),
{
    let mut v: Vec<u8> = Vec::new();
    v.push('"' as u8);
    v.push('n' as u8);
    v.push('a' as u8);
    v.push('m' as u8);
    v.push('e' as u8);
    v.push('"' as u8);
    v.push(':' as u8);
    proof {
        assert(v@ =~= l_k_name());
    }
    v
}

/// The literal `"date":`.
pub open spec fn l_k_date() -> Seq<u8> {
    seq!['"' as u8, 'd' as u8, 'a' as u8, 't' as u8, 'e' as u8, '"' as u8, ':' as u8]
}

/// Builds the literal `"date":`.
pub fn lv_k_date() -> (v: Vec<u8>)
    ensures
        v@ == l_k_date(),
{
    let mut v: Vec<u8> = Vec::new();
    v.push('"' as u8);
    v.push('d' as u8);
    v.push('a' as u8);
    v.push('t' as u8);
    v.push('e' as u8);
    v.push('"' as u8);
    v.push(':' as u8);
    proof {
        assert(v@ =~= l_k_date());
    }
    v
}

/// The literal `success`.
pub open spec fn l_v_success() -> Seq<u8> {
    seq!['s' as u8, 'u' as u8, 'c' as u8, 'c' as u8, 'e' as u8, 's' as u8, 's' as u8]
}

/// Builds the literal `success`.
pub fn lv_v_success() -> (v: Vec<u8>)
    ensures
        v@ == l_v_success(),
{
    let mut v: Vec<u8> = Vec::new();
    v.push('s' as u8);
    v.push('u' as u8);
    v.push('c' as u8);
    v.push('c' as u8);
    v.push('e' as u8);
    v.push('s' as u8);
    v.push('s' as u8);
    proof {
        assert(v@ =~= l_v_success());
    }
    v
}

/// The literal `true`.
pub open spec fn l_v_true() -> Seq<u8> {
    seq!['t' as u8, 'r' as u8, 'u' as u8, 'e' as u8]
}

/// Builds the literal `true`.
pub fn lv_v_true() -> (v: Vec<u8>)
    ensures
        v@ == l_v_true(),
{
    let mut v: Vec<u8> = Vec::new();
    v.push('t' as u8);
    v.push('r' as u8);
    v.push('u' as u8);
    v.push('e' as u8);
    proof {
        assert(v@ =~= l_v_true());
    }
    v
}

/// The literal `false`.
pub open spec fn l_v_false() -> Seq<u8> {
    seq!['f' as u8, 'a' as u8, 'l' as u8, 's' as u8, 'e' as u8]
}

/// Builds the literal `false`.
pub fn lv_v_false() -> (v: Vec<u8>)
    ensures
        v@ == l_v_false(),
{
    let mut v: Vec<u8> = Vec::new();
    v.push('f' as u8);
    v.push('a' as u8);
    v.push('l' as u8);
    v.push('s' as u8);
    v.push('e' as u8);
    proof {
        assert(v@ =~= l_v_false());
    }
    v
}

/// The literal `type: success\nstream:\n  user_id: `.
pub open spec fn l_y_head() -> Seq<u8> {
    seq!['t' as u8, 'y' as u8, 'p' as u8, 'e' as u8, ':' as u8, ' ' as u8, 's' as u8, 'u' as u8, 'c' as u8, 'c' as u8, 'e' as u8, 's' as u8, 's' as u8, '\n' as u8, 's' as u8, 't' as u8, 'r' as u8, 'e' as u8, 'a' as u8, 'm' as u8, ':' as u8, '\n' as u8, ' ' as u8, ' ' as u8, 'u' as u8, 's' as u8, 'e' as u8, 'r' as u8, '_' as u8, 'i' as u8, 'd' as u8, ':' as u8, ' ' as u8]
}

/// Builds the literal `type: success\nstream:\n  user_id: `.
pub fn lv_y_head() -> (v: Vec<u8>)
    ensures
        v@ == l_y_head(),
{
    let mut v: Vec<u8> = Vec::new();
    v.push('t' as u8);
    v.push('y' as u8);
    v.push('p' as u8);
    v.push('e' as u8);
    v.push(':' as u8);
    v.push(' ' as u8);
    v.push('s' as u8);
    v.push('u' as u8);
    v.push('c' as u8);
    v.push('c' as u8);
    v.push('e' as u8);
    v.push('s' as u8);
    v.push('s' as u8);
    v.push('\n' as u8);
    v.push('s' as u8);
    v.push('t' as u8);
    v.push('r' as u8);
    v.push('e' as u8);
    v.push('a' as u8);
    v.push('m' as u8);
    v.push(':' as u8);
    v.push('\n' as u8);
    v.push(' ' as u8);
    v.push(' ' as u8);
    v.push('u' as u8);
    v.push('s' as u8);
    v.push('e' as u8);
    v.push('r' as u8);
    v.push('_' as u8);
    v.push('i' as u8);
    v.push('d' as u8);
    v.push(':' as u8);
    v.push(' ' as u8);
    proof {
        assert(v@ =~= l_y_head());
    }
    v
}

/// The literal `\n  is_private: `.
pub open spec fn l_y_is_private() -> Seq<u8> {
    seq!['\n' as u8, ' ' as u8, ' ' as u8, 'i' as u8, 's' as u8, '_' as u8, 'p' as u8, 'r' as u8, 'i' as u8, 'v' as u8, 'a' as u8, 't' as u8, 'e' as u8, ':' as u8, ' ' as u8]
}

/// Builds the literal `\n  is_private: `.
pub fn lv_y_is_private() -> (v: Vec<u8>)
    ensures
        v@ == l_y_is_private(),
{
    let mut v: Vec<u8> = Vec::new();
    v.push('\n' as u8);
    v.push(' ' as u8);
    v.push(' ' as u8);
    v.push('i' as u8);
    v.push('s' as u8);
    v.push('_' as u8);
    v.push('p' as u8);
    v.push('r' as u8);
    v.push('i' as u8);
    v.push('v' as u8);
    v.push('a' as u8);
    v.push('t' as u8);
    v.push('e' as u8);
    v.push(':' as u8);
    v.push(' ' as u8);
    proof {
        assert(v@ =~= l_y_is_private());
    }
    v
}

/// The literal `\n  settings: `.
pub open spec fn l_y_settings() -> Seq<u8> {
    seq!['\n' as u8, ' ' as u8, ' ' as u8, 's' as u8, 'e' as u8, 't' as u8, 't' as u8, 'i' as u8, 'n' as u8, 'g' as u8, 's' as u8, ':' as u8, ' ' as u8]
}

/// Builds the literal `\n  settings: `.
pub fn lv_y_settings() -> (v: Vec<u8>)
    ensures
        v@ == l_y_settings(),
{
    let mut v: Vec<u8> = Vec::new();
    v.push('\n' as u8);
    v.push(' ' as u8);
    v.push(' ' as u8);
    v.push('s' as u8);
    v.push('e' as u8);
    v.push('t' as u8);
    v.push('t' as u8);
    v.push('i' as u8);
    v.push('n' as u8);
    v.push('g' as u8);
    v.push('s' as u8);
    v.push(':' as u8);
    v.push(' ' as u8);
    proof {
        assert(v@ =~= l_y_settings());
    }
    v
}

/// The literal `\n  shard_url: `.
pub open spec fn l_y_shard_url() -> Seq<u8> {
    seq!['\n' as u8, ' ' as u8, ' ' as u8, 's' as u8, 'h' as u8, 'a' as u8, 'r' as u8, 'd' as u8, '_' as u8, 'u' as u8, 'r' as u8, 'l' as u8, ':' as u8, ' ' as u8]
}

/// Builds the literal `\n  shard_url: `.
pub fn lv_y_shard_url() -> (v: Vec<u8>)
    ensures
        v@ == l_y_shard_url(),
{
    let mut v: Vec<u8> = Vec::new();
    v.push('\n' as u8);
    v.push(' ' as u8);
    v.push(' ' as u8);
    v.push('s' as u8);
    v.push('h' as u8);
    v.push('a' as u8);
    v.push('r' as u8);
    v.push('d' as u8);
    v.push('_' as u8);
    v.push('u' as u8);
    v.push('r' as u8);
    v.push('l' as u8);
    v.push(':' as u8);
    v.push(' ' as u8);
    proof {
        assert(v@ =~= l_y_shard_url());
    }
    v
}

/// The literal `\n  public_tariff:\n    id: `.
pub open spec fn l_y_public_tariff() -> Seq<u8> {
    seq!['\n' as u8, ' ' as u8, ' ' as u8, 'p' as u8, 'u' as u8, 'b' as u8, 'l' as u8, 'i' as u8, 'c' as u8, '_' as u8, 't' as u8, 'a' as u8, 'r' as u8, 'i' as u8, 'f' as u8, 'f' as u8, ':' as u8, '\n' as u8, ' ' as u8, ' ' as u8, ' ' as u8, ' ' as u8, 'i' as u8, 'd' as u8, ':' as u8, ' ' as u8]
}

/// Builds the literal `\n  public_tariff:\n    id: `.
pub fn lv_y_public_tariff() -> (v: Vec<u8>)
    ensures
        v@ == l_y_public_tariff(),
{
    let mut v: Vec<u8> = Vec::new();
    v.push('\n' as u8);
    v.push(' ' as u8);
    v.push(' ' as u8);
    v.push('p' as u8);
    v.push('u' as u8);
    v.push('b' as u8);
    v.push('l' as u8);
    v.push('i' as u8);
    v.push('c' as u8);
    v.push('_' as u8);
    v.push('t' as u8);
    v.push('a' as u8);
    v.push('r' as u8);
    v.push('i' as u8);
    v.push('f' as u8);
    v.push('f' as u8);
    v.push(':' as u8);
    v.push('\n' as u8);
    v.push(' ' as u8);
    v.push(' ' as u8);
    v.push(' ' as u8);
    v.push(' ' as u8);
    v.push('i' as u8);
    v.push('d' as u8);
    v.push(':' as u8);
    v.push(' ' as u8);
    proof {
        assert(v@ =~= l_y_public_tariff());
    }
    v
}

/// The literal `\n    price: `.
pub open spec fn l_y_price() -> Seq<u8> {
    seq!['\n' as u8, ' ' as u8, ' ' as u8, ' ' as u8, ' ' as u8, 'p' as u8, 'r' as u8, 'i' as u8, 'c' as u8, 'e' as u8, ':' as u8, ' ' as u8]
}

/// Builds the literal `\n    price: `.
pub fn lv_y_price() -> (v: Vec<u8>)
    ensures
        v@ == l_y_price(),
{
    let mut v: Vec<u8> = Vec::new();
    v.push('\n' as u8);
    v.push(' ' as u8);
    v.push(' ' as u8);
    v.push(' ' as u8);
    v.push(' ' as u8);
    v.push('p' as u8);
    v.push('r' as u8);
    v.push('i' as u8);
    v.push('c' as u8);
    v.push('e' as u8);
    v.push(':' as u8);
    v.push(' ' as u8);
    proof {
        assert(v@ =~= l_y_price());
    }
    v
}

/// The literal `\n    duration: `.
pub open spec fn l_y_duration() -> Seq<u8> {
    seq!['\n' as u8, ' ' as u8, ' ' as u8, ' ' as u8, ' ' as u8, 'd' as u8, 'u' as u8, 'r' as u8, 'a' as u8, 't' as u8, 'i' as u8, 'o' as u8, 'n' as u8, ':' as u8, ' ' as u8]
}

/// Builds the literal `\n    duration: `.
pub fn lv_y_duration() -> (v: Vec<u8>)
    ensures
        v@ == l_y_duration(),
{
    let mut v: Vec<u8> = Vec::new();
    v.push('\n' as u8);
    v.push(' ' as u8);
    v.push(' ' as u8);
    v.push(' ' as u8);
    v.push(' ' as u8);
    v.push('d' as u8);
    v.push('u' as u8);
    v.push('r' as u8);
    v.push('a' as u8);
    v.push('t' as u8);
    v.push('i' as u8);
    v.push('o' as u8);
    v.push('n' as u8);
    v.push(':' as u8);
    v.push(' ' as u8);
    proof {
        assert(v@ =~= l_y_duration());
    }
    v
}

/// The literal `\n    description: `.
pub open spec fn l_y_description() -> Seq<u8> {
    seq!['\n' as u8, ' ' as u8, ' ' as u8, ' ' as u8, ' ' as u8, 'd' as u8, 'e' as u8, 's' as u8, 'c' as u8, 'r' as u8, 'i' as u8, 'p' as u8, 't' as u8, 'i' as u8, 'o' as u8, 'n' as u8, ':' as u8, ' ' as u8]
}

/// Builds the literal `\n    description: `.
pub fn lv_y_description() -> (v: Vec<u8>)
    ensures
        v@ == l_y_description(),
{
    let mut v: Vec<u8> = Vec::new();
    v.push('\n' as u8);
    v.push(' ' as u8);
    v.push(' ' as u8);
    v.push(' ' as u8);
    v.push(' ' as u8);
    v.push('d' as u8);
    v.push('e' as u8);
    v.push('s' as u8);
    v.push('c' as u8);
    v.push('r' as u8);
    v.push('i' as u8);
    v.push('p' as u8);
    v.push('t' as u8);
    v.push('i' as u8);
    v.push('o' as u8);
    v.push('n' as u8);
    v.push(':' as u8);
    v.push(' ' as u8);
    proof {
        assert(v@ =~= l_y_description());
    }
    v
}

/// The literal `\n  private_tariff:\n    client_price: `.
pub open spec fn l_y_private_tariff() -> Seq<u8> {
    seq!['\n' as u8, ' ' as u8, ' ' as u8, 'p' as u8, 'r' as u8, 'i' as u8, 'v' as u8, 'a' as u8, 't' as u8, 'e' as u8, '_' as u8, 't' as u8, 'a' as u8, 'r' as u8, 'i' as u8, 'f' as u8, 'f' as u8, ':' as u8, '\n' as u8, ' ' as u8, ' ' as u8, ' ' as u8, ' ' as u8, 'c' as u8, 'l' as u8, 'i' as u8, 'e' as u8, 'n' as u8, 't' as u8, '_' as u8, 'p' as u8, 'r' as u8, 'i' as u8, 'c' as u8, 'e' as u8, ':' as u8, ' ' as u8]
}

/// Builds the literal `\n  private_tariff:\n    client_price: `.
pub fn lv_y_private_tariff() -> (v: Vec<u8>)
    ensures
        v@ == l_y_private_tariff(),
{
    let mut v: Vec<u8> = Vec::new();
    v.push('\n' as u8);
    v.push(' ' as u8);
    v.push(' ' as u8);
    v.push('p' as u8);
    v.push('r' as u8);
    v.push('i' as u8);
    v.push('v' as u8);
    v.push('a' as u8);
    v.push('t' as u8);
    v.push('e' as u8);
    v.push('_' as u8);
    v.push('t' as u8);
    v.push('a' as u8);
    v.push('r' as u8);
    v.push('i' as u8);
    v.push('f' as u8);
    v.push('f' as u8);
    v.push(':' as u8);
    v.push('\n' as u8);
    v.push(' ' as u8);
    v.push(' ' as u8);
    v.push(' ' as u8);
    v.push(' ' as u8);
    v.push('c' as u8);
    v.push('l' as u8);
    v.push('i' as u8);
    v.push('e' as u8);
    v.push('n' as u8);
    v.push('t' as u8);
    v.push('_' as u8);
    v.push('p' as u8);
    v.push('r' as u8);
    v.push('i' as u8);
    v.push('c' as u8);
    v.push('e' as u8);
    v.push(':' as u8);
    v.push(' ' as u8);
    proof {
        assert(v@ =~= l_y_private_tariff());
    }
    v
}

/// The literal `\ngifts: []\n`.
pub open spec fn l_y_gifts_empty() -> Seq<u8> {
    seq!['\n' as u8, 'g' as u8, 'i' as u8, 'f' as u8, 't' as u8, 's' as u8, ':' as u8, ' ' as u8, '[' as u8, ']' as u8, '\n' as u8]
}

/// Builds the literal `\ngifts: []\n`.
pub fn lv_y_gifts_empty() -> (v: Vec<u8>)
    ensures
        v@ == l_y_gifts_empty(),
{
    let mut v: Vec<u8> = Vec::new();
    v.push('\n' as u8);
    v.push('g' as u8);
    v.push('i' as u8);
    v.push('f' as u8);
    v.push('t' as u8);
    v.push('s' as u8);
    v.push(':' as u8);
    v.push(' ' as u8);
    v.push('[' as u8);
    v.push(']' as u8);
    v.push('\n' as u8);
    proof {
        assert(v@ =~= l_y_gifts_empty());
    }
    v
}

/// The literal `\ngifts:\n`.
pub open spec fn l_y_gifts() -> Seq<u8> {
    seq!['\n' as u8, 'g' as u8, 'i' as u8, 'f' as u8, 't' as u8, 's' as u8, ':' as u8, '\n' as u8]
}

/// Builds the literal `\ngifts:\n`.
pub fn lv_y_gifts() -> (v: Vec<u8>)
    ensures
        v@ == l_y_gifts(),
{
    let mut v: Vec<u8> = Vec::new();
    v.push('\n' as u8);
    v.push('g' as u8);
    v.push('i' as u8);
    v.push('f' as u8);
    v.push('t' as u8);
    v.push('s' as u8);
    v.push(':' as u8);
    v.push('\n' as u8);
    proof {
        assert(v@ =~= l_y_gifts());
    }
    v
}

/// The literal `- id: `.
pub open spec fn l_y_gift_id() -> Seq<u8> {
    seq!['-' as u8, ' ' as u8, 'i' as u8, 'd' as u8, ':' as u8, ' ' as u8]
}

/// Builds the literal `- id: `.
pub fn lv_y_gift_id() -> (v: Vec<u8>)
    ensures
        v@ == l_y_gift_id(),
{
    let mut v: Vec<u8> = Vec::new();
    v.push('-' as u8);
    v.push(' ' as u8);
    v.push('i' as u8);
    v.push('d' as u8);
    v.push(':' as u8);
    v.push(' ' as u8);
    proof {
        assert(v@ =~= l_y_gift_id());
    }
    v
}

/// The literal `\n  price: `.
pub open spec fn l_y_gift_price() -> Seq<u8> {
    seq!['\n' as u8, ' ' as u8, ' ' as u8, 'p' as u8, 'r' as u8, 'i' as u8, 'c' as u8, 'e' as u8, ':' as u8, ' ' as u8]
}

/// Builds the literal `\n  price: `.
pub fn lv_y_gift_price() -> (v: Vec<u8>)
    ensures
        v@ == l_y_gift_price(),
{
    let mut v: Vec<u8> = Vec::new();
    v.push('\n' as u8);
    v.push(' ' as u8);
    v.push(' ' as u8);
    v.push('p' as u8);
    v.push('r' as u8);
    v.push('i' as u8);
    v.push('c' as u8);
    v.push('e' as u8);
    v.push(':' as u8);
    v.push(' ' as u8);
    proof {
        assert(v@ =~= l_y_gift_price());
    }
    v
}

/// The literal `\n  description: `.
pub open spec fn l_y_gift_description() -> Seq<u8> {
    seq!['\n' as u8, ' ' as u8, ' ' as u8, 'd' as u8, 'e' as u8, 's' as u8, 'c' as u8, 'r' as u8, 'i' as u8, 'p' as u8, 't' as u8, 'i' as u8, 'o' as u8, 'n' as u8, ':' as u8, ' ' as u8]
}

/// Builds the literal `\n  description: `.
pub fn lv_y_gift_description() -> (v: Vec<u8>)
    ensures
        v@ == l_y_gift_description(),
{
    let mut v: Vec<u8> = Vec::new();
    v.push('\n' as u8);
    v.push(' ' as u8);
    v.push(' ' as u8);
    v.push('d' as u8);
    v.push('e' as u8);
    v.push('s' as u8);
    v.push('c' as u8);
    v.push('r' as u8);
    v.push('i' as u8);
    v.push('p' as u8);
    v.push('t' as u8);
    v.push('i' as u8);
    v.push('o' as u8);
    v.push('n' as u8);
    v.push(':' as u8);
    v.push(' ' as u8);
    proof {
        assert(v@ =~= l_y_gift_description());
    }
    v
}

/// The literal `\n`.
pub open spec fn l_y_nl() -> Seq<u8> {
    seq!['\n' as u8]
}

/// Builds the literal `\n`.
pub fn lv_y_nl() -> (v: Vec<u8>)
    ensures
        v@ == l_y_nl(),
{
    let mut v: Vec<u8> = Vec::new();
    v.push('\n' as u8);
    proof {
        assert(v@ =~= l_y_nl());
    }
    v
}

/// The literal `debug:\n  duration: `.
pub open spec fn l_y_debug() -> Seq<u8> {
    seq!['d' as u8, 'e' as u8, 'b' as u8, 'u' as u8, 'g' as u8, ':' as u8, '\n' as u8, ' ' as u8, ' ' as u8, 'd' as u8, 'u' as u8, 'r' as u8, 'a' as u8, 't' as u8, 'i' as u8, 'o' as u8, 'n' as u8, ':' as u8, ' ' as u8]
}

/// Builds the literal `debug:\n  duration: `.
pub fn lv_y_debug() -> (v: Vec<u8>)
    ensures
        v@ == l_y_debug(),
{
    let mut v: Vec<u8> = Vec::new();
    v.push('d' as u8);
    v.push('e' as u8);
    v.push('b' as u8);
    v.push('u' as u8);
    v.push('g' as u8);
    v.push(':' as u8);
    v.push('\n' as u8);
    v.push(' ' as u8);
    v.push(' ' as u8);
    v.push('d' as u8);
    v.push('u' as u8);
    v.push('r' as u8);
    v.push('a' as u8);
    v.push('t' as u8);
    v.push('i' as u8);
    v.push('o' as u8);
    v.push('n' as u8);
    v.push(':' as u8);
    v.push(' ' as u8);
    proof {
        assert(v@ =~= l_y_debug());
    }
    v
}

/// The literal `\n  at: `.
pub open spec fn l_y_at() -> Seq<u8> {
    seq!['\n' as u8, ' ' as u8, ' ' as u8, 'a' as u8, 't' as u8, ':' as u8, ' ' as u8]
}

/// Builds the literal `\n  at: `.
pub fn lv_y_at() -> (v: Vec<u8>)
    ensures
        v@ == l_y_at(),
{
    let mut v: Vec<u8> = Vec::new();
    v.push('\n' as u8);
    v.push(' ' as u8);
    v.push(' ' as u8);
    v.push('a' as u8);
    v.push('t' as u8);
    v.push(':' as u8);
    v.push(' ' as u8);
    proof {
        assert(v@ =~= l_y_at());
    }
    v
}

/// The literal `type = "success"\n\n[stream]\nuser_id = "`.
pub open spec fn l_t_head() -> Seq<u8> {
    seq!['t' as u8, 'y' as u8, 'p' as u8, 'e' as u8, ' ' as u8, '=' as u8, ' ' as u8, '"' as u8, 's' as u8, 'u' as u8, 'c' as u8, 'c' as u8, 'e' as u8, 's' as u8, 's' as u8, '"' as u8, '\n' as u8, '\n' as u8, '[' as u8, 's' as u8, 't' as u8, 'r' as u8, 'e' as u8, 'a' as u8, 'm' as u8, ']' as u8, '\n' as u8, 'u' as u8, 's' as u8, 'e' as u8, 'r' as u8, '_' as u8, 'i' as u8, 'd' as u8, ' ' as u8, '=' as u8, ' ' as u8, '"' as u8]
}

/// Builds the literal `type = "success"\n\n[stream]\nuser_id = "`.
pub fn lv_t_head() -> (v: Vec<u8>)
    ensures
        v@ == l_t_head(),
{
    let mut v: Vec<u8> = Vec::new();
    v.push('t' as u8);
    v.push('y' as u8);
    v.push('p' as u8);
    v.push('e' as u8);
    v.push(' ' as u8);
    v.push('=' as u8);
    v.push(' ' as u8);
    v.push('"' as u8);
    v.push('s' as u8);
    v.push('u' as u8);
    v.push('c' as u8);
    v.push('c' as u8);
    v.push('e' as u8);
    v.push('s' as u8);
    v.push('s' as u8);
    v.push('"' as u8);
    v.push('\n' as u8);
    v.push('\n' as u8);
    v.push('[' as u8);
    v.push('s' as u8);
    v.push('t' as u8);
    v.push('r' as u8);
    v.push('e' as u8);
    v.push('a' as u8);
    v.push('m' as u8);
    v.push(']' as u8);
    v.push('\n' as u8);
    v.push('u' as u8);
    v.push('s' as u8);
    v.push('e' as u8);
    v.push('r' as u8);
    v.push('_' as u8);
    v.push('i' as u8);
    v.push('d' as u8);
    v.push(' ' as u8);
    v.push('=' as u8);
    v.push(' ' as u8);
    v.push('"' as u8);
    proof {
        assert(v@ =~= l_t_head());
    }
    v
}

/// The literal `"`.
pub open spec fn l_t_q() -> Seq<u8> {
    seq!['"' as u8]
}

/// Builds the literal `"`.
pub fn lv_t_q() -> (v: Vec<u8>)
    ensures
        v@ == l_t_q(),
{
    let mut v: Vec<u8> = Vec::new();
    v.push('"' as u8);
    proof {
        assert(v@ =~= l_t_q());
    }
    v
}

/// The literal `\nis_private = `.
pub open spec fn l_t_is_private() -> Seq<u8> {
    seq!['\n' as u8, 'i' as u8, 's' as u8, '_' as u8, 'p' as u8, 'r' as u8, 'i' as u8, 'v' as u8, 'a' as u8, 't' as u8, 'e' as u8, ' ' as u8, '=' as u8, ' ' as u8]
}

/// Builds the literal `\nis_private = `.
pub fn lv_t_is_private() -> (v: Vec<u8>)
    ensures
        v@ == l_t_is_private(),
{
    let mut v: Vec<u8> = Vec::new();
    v.push('\n' as u8);
    v.push('i' as u8);
    v.push('s' as u8);
    v.push('_' as u8);
    v.push('p' as u8);
    v.push('r' as u8);
    v.push('i' as u8);
    v.push('v' as u8);
    v.push('a' as u8);
    v.push('t' as u8);
    v.push('e' as u8);
    v.push(' ' as u8);
    v.push('=' as u8);
    v.push(' ' as u8);
    proof {
        assert(v@ =~= l_t_is_private());
    }
    v
}

/// The literal `\nsettings = `.
pub open spec fn l_t_settings() -> Seq<u8> {
    seq!['\n' as u8, 's' as u8, 'e' as u8, 't' as u8, 't' as u8, 'i' as u8, 'n' as u8, 'g' as u8, 's' as u8, ' ' as u8, '=' as u8, ' ' as u8]
}

/// Builds the literal `\nsettings = `.
pub fn lv_t_settings() -> (v: Vec<u8>)
    ensures
        v@ == l_t_settings(),
{
    let mut v: Vec<u8> = Vec::new();
    v.push('\n' as u8);
    v.push('s' as u8);
    v.push('e' as u8);
    v.push('t' as u8);
    v.push('t' as u8);
    v.push('i' as u8);
    v.push('n' as u8);
    v.push('g' as u8);
    v.push('s' as u8);
    v.push(' ' as u8);
    v.push('=' as u8);
    v.push(' ' as u8);
    proof {
        assert(v@ =~= l_t_settings());
    }
    v
}

/// The literal `\nshard_url = "`.
pub open spec fn l_t_shard_url() -> Seq<u8> {
    seq!['\n' as u8, 's' as u8, 'h' as u8, 'a' as u8, 'r' as u8, 'd' as u8, '_' as u8, 'u' as u8, 'r' as u8, 'l' as u8, ' ' as u8, '=' as u8, ' ' as u8, '"' as u8]
}

/// Builds the literal `\nshard_url = "`.
pub fn lv_t_shard_url() -> (v: Vec<u8>)
    ensures
        v@ == l_t_shard_url(),
{
    let mut v: Vec<u8> = Vec::new();
    v.push('\n' as u8);
    v.push('s' as u8);
    v.push('h' as u8);
    v.push('a' as u8);
    v.push('r' as u8);
    v.push('d' as u8);
    v.push('_' as u8);
    v.push('u' as u8);
    v.push('r' as u8);
    v.push('l' as u8);
    v.push(' ' as u8);
    v.push('=' as u8);
    v.push(' ' as u8);
    v.push('"' as u8);
    proof {
        assert(v@ =~= l_t_shard_url());
    }
    v
}

/// The literal `\n\n[stream.public_tariff]\nid = `.
pub open spec fn l_t_public_tariff() -> Seq<u8> {
    seq!['\n' as u8, '\n' as u8, '[' as u8, 's' as u8, 't' as u8, 'r' as u8, 'e' as u8, 'a' as u8, 'm' as u8, '.' as u8, 'p' as u8, 'u' as u8, 'b' as u8, 'l' as u8, 'i' as u8, 'c' as u8, '_' as u8, 't' as u8, 'a' as u8, 'r' as u8, 'i' as u8, 'f' as u8, 'f' as u8, ']' as u8, '\n' as u8, 'i' as u8, 'd' as u8, ' ' as u8, '=' as u8, ' ' as u8]
}

/// Builds the literal `\n\n[stream.public_tariff]\nid = `.
pub fn lv_t_public_tariff() -> (v: Vec<u8>)
    ensures
        v@ == l_t_public_tariff(),
{
    let mut v: Vec<u8> = Vec::new();
    v.push('\n' as u8);
    v.push('\n' as u8);
    v.push('[' as u8);
    v.push('s' as u8);
    v.push('t' as u8);
    v.push('r' as u8);
    v.push('e' as u8);
    v.push('a' as u8);
    v.push('m' as u8);
    v.push('.' as u8);
    v.push('p' as u8);
    v.push('u' as u8);
    v.push('b' as u8);
    v.push('l' as u8);
    v.push('i' as u8);
    v.push('c' as u8);
    v.push('_' as u8);
    v.push('t' as u8);
    v.push('a' as u8);
    v.push('r' as u8);
    v.push('i' as u8);
    v.push('f' as u8);
    v.push('f' as u8);
    v.push(']' as u8);
    v.push('\n' as u8);
    v.push('i' as u8);
    v.push('d' as u8);
    v.push(' ' as u8);
    v.push('=' as u8);
    v.push(' ' as u8);
    proof {
        assert(v@ =~= l_t_public_tariff());
    }
    v
}

/// The literal `\nprice = `.
pub open spec fn l_t_price() -> Seq<u8> {
    seq!['\n' as u8, 'p' as u8, 'r' as u8, 'i' as u8, 'c' as u8, 'e' as u8, ' ' as u8, '=' as u8, ' ' as u8]
}

/// Builds the literal `\nprice = `.
pub fn lv_t_price() -> (v: Vec<u8>)
    ensures
        v@ == l_t_price(),
{
    let mut v: Vec<u8> = Vec::new();
    v.push('\n' as u8);
    v.push('p' as u8);
    v.push('r' as u8);
    v.push('i' as u8);
    v.push('c' as u8);
    v.push('e' as u8);
    v.push(' ' as u8);
    v.push('=' as u8);
    v.push(' ' as u8);
    proof {
        assert(v@ =~= l_t_price());
    }
    v
}

/// The literal `\nduration = "`.
pub open spec fn l_t_duration() -> Seq<u8> {
    seq!['\n' as u8, 'd' as u8, 'u' as u8, 'r' as u8, 'a' as u8, 't' as u8, 'i' as u8, 'o' as u8, 'n' as u8, ' ' as u8, '=' as u8, ' ' as u8, '"' as u8]
}

/// Builds the literal `\nduration = "`.
pub fn lv_t_duration() -> (v: Vec<u8>)
    ensures
        v@ == l_t_duration(),
{
    let mut v: Vec<u8> = Vec::new();
    v.push('\n' as u8);
    v.push('d' as u8);
    v.push('u' as u8);
    v.push('r' as u8);
    v.push('a' as u8);
    v.push('t' as u8);
    v.push('i' as u8);
    v.push('o' as u8);
    v.push('n' as u8);
    v.push(' ' as u8);
    v.push('=' as u8);
    v.push(' ' as u8);
    v.push('"' as u8);
    proof {
        assert(v@ =~= l_t_duration());
    }
    v
}

/// The literal `\ndescription = "`.
pub open spec fn l_t_description() -> Seq<u8> {
    seq!['\n' as u8, 'd' as u8, 'e' as u8, 's' as u8, 'c' as u8, 'r' as u8, 'i' as u8, 'p' as u8, 't' as u8, 'i' as u8, 'o' as u8, 'n' as u8, ' ' as u8, '=' as u8, ' ' as u8, '"' as u8]
}

/// Builds the literal `\ndescription = "`.
pub fn lv_t_description() -> (v: Vec<u8>)
    ensures
        v@ == l_t_description(),
{
    let mut v: Vec<u8> = Vec::new();
    v.push('\n' as u8);
    v.push('d' as u8);
    v.push('e' as u8);
    v.push('s' as u8);
    v.push('c' as u8);
    v.push('r' as u8);
    v.push('i' as u8);
    v.push('p' as u8);
    v.push('t' as u8);
    v.push('i' as u8);
    v.push('o' as u8);
    v.push('n' as u8);
    v.push(' ' as u8);
    v.push('=' as u8);
    v.push(' ' as u8);
    v.push('"' as u8);
    proof {
        assert(v@ =~= l_t_description());
    }
    v
}

/// The literal `\n\n[stream.private_tariff]\nclient_price = `.
pub open spec fn l_t_private_tariff() -> Seq<u8> {
    seq!['\n' as u8, '\n' as u8, '[' as u8, 's' as u8, 't' as u8, 'r' as u8, 'e' as u8, 'a' as u8, 'm' as u8, '.' as u8, 'p' as u8, 'r' as u8, 'i' as u8, 'v' as u8, 'a' as u8, 't' as u8, 'e' as u8, '_' as u8, 't' as u8, 'a' as u8, 'r' as u8, 'i' as u8, 'f' as u8, 'f' as u8, ']' as u8, '\n' as u8, 'c' as u8, 'l' as u8, 'i' as u8, 'e' as u8, 'n' as u8, 't' as u8, '_' as u8, 'p' as u8, 'r' as u8, 'i' as u8, 'c' as u8, 'e' as u8, ' ' as u8, '=' as u8, ' ' as u8]
}

/// Builds the literal `\n\n[stream.private_tariff]\nclient_price = `.
pub fn lv_t_private_tariff() -> (v: Vec<u8>)
    ensures
        v@ == l_t_private_tariff(),
{
    let mut v: Vec<u8> = Vec::new();
    v.push('\n' as u8);
    v.push('\n' as u8);
    v.push('[' as u8);
    v.push('s' as u8);
    v.push('t' as u8);
    v.push('r' as u8);
    v.push('e' as u8);
    v.push('a' as u8);
    v.push('m' as u8);
    v.push('.' as u8);
    v.push('p' as u8);
    v.push('r' as u8);
    v.push('i' as u8);
    v.push('v' as u8);
    v.push('a' as u8);
    v.push('t' as u8);
    v.push('e' as u8);
    v.push('_' as u8);
    v.push('t' as u8);
    v.push('a' as u8);
    v.push('r' as u8);
    v.push('i' as u8);
    v.push('f' as u8);
    v.push('f' as u8);
    v.push(']' as u8);
    v.push('\n' as u8);
    v.push('c' as u8);
    v.push('l' as u8);
    v.push('i' as u8);
    v.push('e' as u8);
    v.push('n' as u8);
    v.push('t' as u8);
    v.push('_' as u8);
    v.push('p' as u8);
    v.push('r' as u8);
    v.push('i' as u8);
    v.push('c' as u8);
    v.push('e' as u8);
    v.push(' ' as u8);
    v.push('=' as u8);
    v.push(' ' as u8);
    proof {
        assert(v@ =~= l_t_private_tariff());
    }
    v
}

/// The literal `\n\n[[gifts]]\nid = `.
pub open spec fn l_t_gift() -> Seq<u8> {
    seq!['\n' as u8, '\n' as u8, '[' as u8, '[' as u8, 'g' as u8, 'i' as u8, 'f' as u8, 't' as u8, 's' as u8, ']' as u8, ']' as u8, '\n' as u8, 'i' as u8, 'd' as u8, ' ' as u8, '=' as u8, ' ' as u8]
}

/// Builds the literal `\n\n[[gifts]]\nid = `.
pub fn lv_t_gift() -> (v: Vec<u8>)
    ensures
        v@ == l_t_gift(),
{
    let mut v: Vec<u8> = Vec::new();
    v.push('\n' as u8);
    v.push('\n' as u8);
    v.push('[' as u8);
    v.push('[' as u8);
    v.push('g' as u8);
    v.push('i' as u8);
    v.push('f' as u8);
    v.push('t' as u8);
    v.push('s' as u8);
    v.push(']' as u8);
    v.push(']' as u8);
    v.push('\n' as u8);
    v.push('i' as u8);
    v.push('d' as u8);
    v.push(' ' as u8);
    v.push('=' as u8);
    v.push(' ' as u8);
    proof {
        assert(v@ =~= l_t_gift());
    }
    v
}

/// The literal `\n\n[debug]\nduration = "`.
pub open spec fn l_t_debug() -> Seq<u8> {
    seq!['\n' as u8, '\n' as u8, '[' as u8, 'd' as u8, 'e' as u8, 'b' as u8, 'u' as u8, 'g' as u8, ']' as u8, '\n' as u8, 'd' as u8, 'u' as u8, 'r' as u8, 'a' as u8, 't' as u8, 'i' as u8, 'o' as u8, 'n' as u8, ' ' as u8, '=' as u8, ' ' as u8, '"' as u8]
}

/// Builds the literal `\n\n[debug]\nduration = "`.
pub fn lv_t_debug() -> (v: Vec<u8>)
    ensures
        v@ == l_t_debug(),
{
    let mut v: Vec<u8> = Vec::new();
    v.push('\n' as u8);
    v.push('\n' as u8);
    v.push('[' as u8);
    v.push('d' as u8);
    v.push('e' as u8);
    v.push('b' as u8);
    v.push('u' as u8);
    v.push('g' as u8);
    v.push(']' as u8);
    v.push('\n' as u8);
    v.push('d' as u8);
    v.push('u' as u8);
    v.push('r' as u8);
    v.push('a' as u8);
    v.push('t' as u8);
    v.push('i' as u8);
    v.push('o' as u8);
    v.push('n' as u8);
    v.push(' ' as u8);
    v.push('=' as u8);
    v.push(' ' as u8);
    v.push('"' as u8);
    proof {
        assert(v@ =~= l_t_debug());
    }
    v
}

/// The literal `\nat = "`.
pub open spec fn l_t_at() -> Seq<u8> {
    seq!['\n' as u8, 'a' as u8, 't' as u8, ' ' as u8, '=' as u8, ' ' as u8, '"' as u8]
}

/// Builds the literal `\nat = "`.
pub fn lv_t_at() -> (v: Vec<u8>)
    ensures
        v@ == l_t_at(),
{
    let mut v: Vec<u8> = Vec::new();
    v.push('\n' as u8);
    v.push('a' as u8);
    v.push('t' as u8);
    v.push(' ' as u8);
    v.push('=' as u8);
    v.push(' ' as u8);
    v.push('"' as u8);
    proof {
        assert(v@ =~= l_t_at());
    }
    v
}

/// The literal `\n`.
pub open spec fn l_t_nl() -> Seq<u8> {
    seq!['\n' as u8]
}

/// Builds the literal `\n`.
pub fn lv_t_nl() -> (v: Vec<u8>)
    ensures
        v@ == l_t_nl(),
{
    let mut v: Vec<u8> = Vec::new();
    v.push('\n' as u8);
    proof {
        assert(v@ =~= l_t_nl());
    }
    v
}

} // verus!