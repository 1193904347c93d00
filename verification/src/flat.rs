//! The flat table-of-tables format: one `key = value` line per scalar,
//! sections headed by bracketed table paths, the gifts sequence as repeated
//! double-bracketed tables, all in the schema's declaration order.
//! Encode-only.

use crate::domain::{
    DebugInfo, DebugInfoV, Gift, GiftV, PrivateTariff, PrivateTariffV, PublicTariff, PublicTariffV,
    Request, RequestV, Stream, StreamV, gifts_view,
};
use crate::duration::{dur_print, push_duration};
use crate::json::bool_wire;
use crate::lit::{
    l_t_at, l_t_debug, l_t_description, l_t_duration, l_t_gift, l_t_head, l_t_is_private, l_t_nl,
    l_t_price, l_t_private_tariff, l_t_public_tariff, l_t_q, l_t_settings, l_t_shard_url,
    l_v_false, l_v_true, lv_t_at, lv_t_debug, lv_t_description, lv_t_duration, lv_t_gift,
    lv_t_head, lv_t_is_private, lv_t_nl, lv_t_price, lv_t_private_tariff, lv_t_public_tariff,
    lv_t_q, lv_t_settings, lv_t_shard_url, lv_v_false, lv_v_true,
};
use crate::wire::{dec_of, push_lit, push_u64};
use vstd::prelude::*;

verus! {

pub open spec fn flat_of_stream(st: StreamV) -> Seq<u8> {
    l_t_head() + st.user_id + l_t_q() + l_t_is_private() + bool_wire(st.is_private)
        + l_t_settings() + dec_of(st.settings as nat) + l_t_shard_url() + st.shard_url + l_t_q()
        + flat_of_public_tariff(st.public_tariff) + flat_of_private_tariff(st.private_tariff)
}

pub open spec fn flat_of_public_tariff(t: PublicTariffV) -> Seq<u8> {
    l_t_public_tariff() + dec_of(t.id as nat) + l_t_price() + dec_of(t.price as nat)
        + l_t_duration() + dur_print(t.duration) + l_t_q() + l_t_description() + t.description
        + l_t_q()
}

pub open spec fn flat_of_private_tariff(t: PrivateTariffV) -> Seq<u8> {
    l_t_private_tariff() + dec_of(t.client_price as nat) + l_t_duration() + dur_print(t.duration)
        + l_t_q() + l_t_description() + t.description + l_t_q()
}

pub open spec fn flat_of_gift(g: GiftV) -> Seq<u8> {
    l_t_gift() + dec_of(g.id as nat) + l_t_price() + dec_of(g.price as nat) + l_t_description()
        + g.description + l_t_q()
}

/// The gift tables, one after another in sequence order.
pub open spec fn flat_of_gifts(gs: Seq<GiftV>) -> Seq<u8>
    decreases gs.len(),
{
    if gs.len() == 0 {
        Seq::<u8>::empty()
    } else {
        flat_of_gift(gs[0]) + flat_of_gifts(gs.skip(1))
    }
}

pub open spec fn flat_of_debug(d: DebugInfoV) -> Seq<u8> {
    l_t_debug() + dur_print(d.duration) + l_t_q() + l_t_at() + d.at + l_t_q() + l_t_nl()
}

/// Wire form of a whole request in the flat table-of-tables format.
pub open spec fn flat_of_request(r: RequestV) -> Seq<u8> {
    flat_of_stream(r.stream) + flat_of_gifts(r.gifts) + flat_of_debug(r.debug)
}

/// Law: appending a gift to the sequence appends exactly its table's bytes
/// at the end of the encoded list; earlier gifts' bytes stand unchanged, in
/// order.
pub proof fn lemma_flat_gifts_append(gs: Seq<GiftV>, g: GiftV)
    ensures
        flat_of_gifts(gs.push(g)) == flat_of_gifts(gs) + flat_of_gift(g),
    decreases gs.len(),
{
    if gs.len() == 0 {
        assert(gs.push(g)[0] == g);
        assert(gs.push(g).skip(1) =~= Seq::<GiftV>::empty());
        assert(flat_of_gifts(Seq::<GiftV>::empty()) == Seq::<u8>::empty());
        assert(flat_of_gifts(gs.push(g)) =~= flat_of_gifts(gs) + flat_of_gift(g));
    } else {
        assert(gs.push(g)[0] == gs[0]);
        assert(gs.push(g).skip(1) =~= gs.skip(1).push(g));
        lemma_flat_gifts_append(gs.skip(1), g);
        assert(flat_of_gifts(gs.push(g)) =~= flat_of_gifts(gs) + flat_of_gift(g));
    }
}

#[verifier::rlimit(100)]
fn push_flat_stream(out: &mut Vec<u8>, st: &Stream)
    ensures
        final(out)@ == old(out)@ + flat_of_stream(st@),
{
    let head = lv_t_head();
    push_lit(out, &head);
    push_lit(out, &st.user_id);
    let q1 = lv_t_q();
    push_lit(out, &q1);
    let k_is_private = lv_t_is_private();
    push_lit(out, &k_is_private);
    if st.is_private {
        let w = lv_v_true();
        push_lit(out, &w);
    } else {
        let w = lv_v_false();
        push_lit(out, &w);
    }
    let k_settings = lv_t_settings();
    push_lit(out, &k_settings);
    push_u64(out, st.settings as u64);
    let k_shard_url = lv_t_shard_url();
    push_lit(out, &k_shard_url);
    push_lit(out, &st.shard_url);
    let q2 = lv_t_q();
    push_lit(out, &q2);
    let ghost mark = out@;
    let k_pt = lv_t_public_tariff();
    push_lit(out, &k_pt);
    push_u64(out, st.public_tariff.id as u64);
    let k_price = lv_t_price();
    push_lit(out, &k_price);
    push_u64(out, st.public_tariff.price as u64);
    let k_duration = lv_t_duration();
    push_lit(out, &k_duration);
    push_duration(out, st.public_tariff.duration);
    let q3 = lv_t_q();
    push_lit(out, &q3);
    let k_description = lv_t_description();
    push_lit(out, &k_description);
    push_lit(out, &st.public_tariff.description);
    let q4 = lv_t_q();
    push_lit(out, &q4);
    assert(out@ =~= mark + flat_of_public_tariff(st@.public_tariff));
    let ghost mark2 = out@;
    let k_ct = lv_t_private_tariff();
    push_lit(out, &k_ct);
    push_u64(out, st.private_tariff.client_price as u64);
    let k_duration2 = lv_t_duration();
    push_lit(out, &k_duration2);
    push_duration(out, st.private_tariff.duration);
    let q5 = lv_t_q();
    push_lit(out, &q5);
    let k_description2 = lv_t_description();
    push_lit(out, &k_description2);
    push_lit(out, &st.private_tariff.description);
    let q6 = lv_t_q();
    push_lit(out, &q6);
    assert(out@ =~= mark2 + flat_of_private_tariff(st@.private_tariff));
    assert(out@ =~= old(out)@ + flat_of_stream(st@));
}

#[verifier::rlimit(100)]
fn push_flat_gift(out: &mut Vec<u8>, g: &Gift)
    ensures
        final(out)@ == old(out)@ + flat_of_gift(g@),
{
    let k_gift = lv_t_gift();
    push_lit(out, &k_gift);
    push_u64(out, g.id as u64);
    let k_price = lv_t_price();
    push_lit(out, &k_price);
    push_u64(out, g.price as u64);
    let k_description = lv_t_description();
    push_lit(out, &k_description);
    push_lit(out, &g.description);
    let q = lv_t_q();
    push_lit(out, &q);
    assert(out@ =~= old(out)@ + flat_of_gift(g@));
}

#[verifier::rlimit(100)]
fn push_flat_gifts(out: &mut Vec<u8>, gs: &Vec<Gift>)
    ensures
        final(out)@ == old(out)@ + flat_of_gifts(gifts_view(gs@)),
{
    let ghost gv = gifts_view(gs@);
    let mut i: usize = 0;
    proof {
        assert(flat_of_gifts(gv.take(0)) == Seq::<u8>::empty()) by {
            assert(gv.take(0).len() == 0);
        }
        assert(out@ =~= old(out)@ + flat_of_gifts(gv.take(0)));
    }
    while i < gs.len()
        invariant
            0 <= i <= gs@.len(),
            gv == gifts_view(gs@),
            gv.len() == gs@.len(),
            out@ =~= old(out)@ + flat_of_gifts(gv.take(i as int)),
        decreases gs@.len() - i,
    {
        push_flat_gift(out, &gs[i]);
        proof {
            assert(gv[i as int] == gs@[i as int]@);
            assert(gv.take(i + 1) =~= gv.take(i as int).push(gv[i as int]));
            lemma_flat_gifts_append(gv.take(i as int), gv[i as int]);
            assert(out@ =~= old(out)@ + flat_of_gifts(gv.take(i + 1)));
        }
        i = i + 1;
    }
    proof {
        assert(gv.take(gv.len() as int) =~= gv);
    }
}

#[verifier::rlimit(100)]
fn push_flat_debug(out: &mut Vec<u8>, d: &DebugInfo)
    ensures
        final(out)@ == old(out)@ + flat_of_debug(d@),
{
    let k_debug = lv_t_debug();
    push_lit(out, &k_debug);
    push_duration(out, d.duration);
    let q1 = lv_t_q();
    push_lit(out, &q1);
    let k_at = lv_t_at();
    push_lit(out, &k_at);
    push_lit(out, &d.at);
    let q2 = lv_t_q();
    push_lit(out, &q2);
    let nl = lv_t_nl();
    push_lit(out, &nl);
    assert(out@ =~= old(out)@ + flat_of_debug(d@));
}

/// Encodes a request to the flat table-of-tables format: exactly the bytes
/// of `flat_of_request`, for every request value.
pub fn encode_request_flat(r: &Request) -> (out: Vec<u8>)
    ensures
        out@ == flat_of_request(r@),
{
    let mut out: Vec<u8> = Vec::new();
    push_flat_stream(&mut out, &r.stream);
    push_flat_gifts(&mut out, &r.gifts);
    push_flat_debug(&mut out, &r.debug);
    assert(out@ =~= flat_of_request(r@));
    out
}

} // verus!
