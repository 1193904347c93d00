//! The human-oriented hierarchical format: an indented key-value text with
//! the schema's fields in declaration order, scalars written bare, the gifts
//! sequence as a dashed list. Encode-only.

use crate::domain::{
    DebugInfo, DebugInfoV, Gift, GiftV, PrivateTariff, PrivateTariffV, PublicTariff, PublicTariffV,
    Request, RequestV, Stream, StreamV, gifts_view,
};
use crate::duration::{dur_print, push_duration};
use crate::json::bool_wire;
use crate::lit::{
    l_v_false, l_v_true, l_y_at, l_y_debug, l_y_description, l_y_duration, l_y_gift_description,
    l_y_gift_id, l_y_gift_price, l_y_gifts, l_y_gifts_empty, l_y_head, l_y_is_private, l_y_nl,
    l_y_price, l_y_private_tariff, l_y_public_tariff, l_y_settings, l_y_shard_url, lv_v_false,
    lv_v_true, lv_y_at, lv_y_debug, lv_y_description, lv_y_duration, lv_y_gift_description,
    lv_y_gift_id, lv_y_gift_price, lv_y_gifts, lv_y_gifts_empty, lv_y_head, lv_y_is_private,
    lv_y_nl, lv_y_price, lv_y_private_tariff, lv_y_public_tariff, lv_y_settings, lv_y_shard_url,
};
use crate::wire::{dec_of, push_lit, push_u64};
use vstd::prelude::*;

verus! {

pub open spec fn yaml_of_public_tariff(t: PublicTariffV) -> Seq<u8> {
    l_y_public_tariff() + dec_of(t.id as nat) + l_y_price() + dec_of(t.price as nat)
        + l_y_duration() + dur_print(t.duration) + l_y_description() + t.description
}

pub open spec fn yaml_of_private_tariff(t: PrivateTariffV) -> Seq<u8> {
    l_y_private_tariff() + dec_of(t.client_price as nat) + l_y_duration() + dur_print(t.duration)
        + l_y_description() + t.description
}

pub open spec fn yaml_of_stream(st: StreamV) -> Seq<u8> {
    l_y_head() + st.user_id + l_y_is_private() + bool_wire(st.is_private) + l_y_settings()
        + dec_of(st.settings as nat) + l_y_shard_url() + st.shard_url + yaml_of_public_tariff(
        st.public_tariff,
    ) + yaml_of_private_tariff(st.private_tariff)
}

pub open spec fn yaml_of_gift(g: GiftV) -> Seq<u8> {
    l_y_gift_id() + dec_of(g.id as nat) + l_y_gift_price() + dec_of(g.price as nat)
        + l_y_gift_description() + g.description + l_y_nl()
}

/// The gift list's items, one after another in sequence order.
pub open spec fn yaml_of_gifts(gs: Seq<GiftV>) -> Seq<u8>
    decreases gs.len(),
{
    if gs.len() == 0 {
        Seq::<u8>::empty()
    } else {
        yaml_of_gift(gs[0]) + yaml_of_gifts(gs.skip(1))
    }
}

pub open spec fn yaml_gifts_block(gs: Seq<GiftV>) -> Seq<u8> {
    if gs.len() == 0 {
        l_y_gifts_empty()
    } else {
        l_y_gifts() + yaml_of_gifts(gs)
    }
}

pub open spec fn yaml_of_debug(d: DebugInfoV) -> Seq<u8> {
    l_y_debug() + dur_print(d.duration) + l_y_at() + d.at + l_y_nl()
}

/// Wire form of a whole request in the human-oriented format.
pub open spec fn yaml_of_request(r: RequestV) -> Seq<u8> {
    yaml_of_stream(r.stream) + yaml_gifts_block(r.gifts) + yaml_of_debug(r.debug)
}

/// Law: appending a gift to the sequence appends exactly its bytes at the
/// end of the encoded list; earlier gifts' bytes stand unchanged, in order.
pub proof fn lemma_yaml_gifts_append(gs: Seq<GiftV>, g: GiftV)
    ensures
        yaml_of_gifts(gs.push(g)) == yaml_of_gifts(gs) + yaml_of_gift(g),
    decreases gs.len(),
{
    if gs.len() == 0 {
        assert(gs.push(g)[0] == g);
        assert(gs.push(g).skip(1) =~= Seq::<GiftV>::empty());
        assert(yaml_of_gifts(Seq::<GiftV>::empty()) == Seq::<u8>::empty());
        assert(yaml_of_gifts(gs.push(g)) =~= yaml_of_gifts(gs) + yaml_of_gift(g));
    } else {
        assert(gs.push(g)[0] == gs[0]);
        assert(gs.push(g).skip(1) =~= gs.skip(1).push(g));
        lemma_yaml_gifts_append(gs.skip(1), g);
        assert(yaml_of_gifts(gs.push(g)) =~= yaml_of_gifts(gs) + yaml_of_gift(g));
    }
}

#[verifier::rlimit(100)]
fn push_yaml_stream(out: &mut Vec<u8>, st: &Stream)
    ensures
        final(out)@ == old(out)@ + yaml_of_stream(st@),
{
    let head = lv_y_head();
    push_lit(out, &head);
    push_lit(out, &st.user_id);
    let k_is_private = lv_y_is_private();
    push_lit(out, &k_is_private);
    if st.is_private {
        let w = lv_v_true();
        push_lit(out, &w);
    } else {
        let w = lv_v_false();
        push_lit(out, &w);
    }
    let k_settings = lv_y_settings();
    push_lit(out, &k_settings);
    push_u64(out, st.settings as u64);
    let k_shard_url = lv_y_shard_url();
    push_lit(out, &k_shard_url);
    push_lit(out, &st.shard_url);
    let ghost mark = out@;
    let k_pt = lv_y_public_tariff();
    push_lit(out, &k_pt);
    push_u64(out, st.public_tariff.id as u64);
    let k_price = lv_y_price();
    push_lit(out, &k_price);
    push_u64(out, st.public_tariff.price as u64);
    let k_duration = lv_y_duration();
    push_lit(out, &k_duration);
    push_duration(out, st.public_tariff.duration);
    let k_description = lv_y_description();
    push_lit(out, &k_description);
    push_lit(out, &st.public_tariff.description);
    assert(out@ =~= mark + yaml_of_public_tariff(st@.public_tariff));
    let ghost mark2 = out@;
    let k_ct = lv_y_private_tariff();
    push_lit(out, &k_ct);
    push_u64(out, st.private_tariff.client_price as u64);
    let k_duration2 = lv_y_duration();
    push_lit(out, &k_duration2);
    push_duration(out, st.private_tariff.duration);
    let k_description2 = lv_y_description();
    push_lit(out, &k_description2);
    push_lit(out, &st.private_tariff.description);
    assert(out@ =~= mark2 + yaml_of_private_tariff(st@.private_tariff));
    assert(out@ =~= old(out)@ + yaml_of_stream(st@));
}

#[verifier::rlimit(100)]
fn push_yaml_gift(out: &mut Vec<u8>, g: &Gift)
    ensures
        final(out)@ == old(out)@ + yaml_of_gift(g@),
{
    let k_id = lv_y_gift_id();
    push_lit(out, &k_id);
    push_u64(out, g.id as u64);
    let k_price = lv_y_gift_price();
    push_lit(out, &k_price);
    push_u64(out, g.price as u64);
    let k_description = lv_y_gift_description();
    push_lit(out, &k_description);
    push_lit(out, &g.description);
    let nl = lv_y_nl();
    push_lit(out, &nl);
    assert(out@ =~= old(out)@ + yaml_of_gift(g@));
}

#[verifier::rlimit(100)]
fn push_yaml_gifts(out: &mut Vec<u8>, gs: &Vec<Gift>)
    ensures
        final(out)@ == old(out)@ + yaml_gifts_block(gifts_view(gs@)),
{
    let ghost gv = gifts_view(gs@);
    if gs.len() == 0 {
        let e = lv_y_gifts_empty();
        push_lit(out, &e);
        return ;
    }
    let h = lv_y_gifts();
    push_lit(out, &h);
    let mut i: usize = 0;
    proof {
        assert(yaml_of_gifts(gv.take(0)) == Seq::<u8>::empty()) by {
            assert(gv.take(0).len() == 0);
        }
        assert(out@ =~= old(out)@ + l_y_gifts() + yaml_of_gifts(gv.take(0)));
    }
    while i < gs.len()
        invariant
            0 <= i <= gs@.len(),
            gv == gifts_view(gs@),
            gv.len() == gs@.len(),
            out@ =~= old(out)@ + l_y_gifts() + yaml_of_gifts(gv.take(i as int)),
        decreases gs@.len() - i,
    {
        push_yaml_gift(out, &gs[i]);
        proof {
            assert(gv[i as int] == gs@[i as int]@);
            assert(gv.take(i + 1) =~= gv.take(i as int).push(gv[i as int]));
            lemma_yaml_gifts_append(gv.take(i as int), gv[i as int]);
            assert(out@ =~= old(out)@ + l_y_gifts() + yaml_of_gifts(gv.take(i + 1)));
        }
        i = i + 1;
    }
    proof {
        assert(gv.take(gv.len() as int) =~= gv);
    }
}

#[verifier::rlimit(100)]
fn push_yaml_debug(out: &mut Vec<u8>, d: &DebugInfo)
    ensures
        final(out)@ == old(out)@ + yaml_of_debug(d@),
{
    let k_debug = lv_y_debug();
    push_lit(out, &k_debug);
    push_duration(out, d.duration);
    let k_at = lv_y_at();
    push_lit(out, &k_at);
    push_lit(out, &d.at);
    let nl = lv_y_nl();
    push_lit(out, &nl);
    assert(out@ =~= old(out)@ + yaml_of_debug(d@));
}

/// Encodes a request to the human-oriented hierarchical format: exactly the
/// bytes of `yaml_of_request`, for every request value.
pub fn encode_request_yaml(r: &Request) -> (out: Vec<u8>)
    ensures
        out@ == yaml_of_request(r@),
{
    let mut out: Vec<u8> = Vec::new();
    push_yaml_stream(&mut out, &r.stream);
    push_yaml_gifts(&mut out, &r.gifts);
    push_yaml_debug(&mut out, &r.debug);
    assert(out@ =~= yaml_of_request(r@));
    out
}

} // verus!
