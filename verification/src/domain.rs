//! The domain model: the entities of a stream-offer request and of an event,
//! their specification-level views, the schema invariants each must satisfy,
//! and the typed errors decoding can report.

use crate::trusted::{timestamp_ok, uri_ok};
use crate::wire::{is_digit, is_strbyte, text_ok};
use vstd::prelude::*;

verus! {

/// The field (or section) of the schema that a schema error names.
#[derive(Clone, Copy, Debug, PartialEq, Eq, Structural)]
pub enum Field {
    RequestTypeField,
    StreamField,
    UserId,
    IsPrivate,
    Settings,
    ShardUrl,
    PublicTariffField,
    PublicTariffId,
    PublicTariffPrice,
    PublicTariffDuration,
    PublicTariffDescription,
    PrivateTariffField,
    PrivateTariffClientPrice,
    PrivateTariffDuration,
    PrivateTariffDescription,
    GiftsField,
    GiftId,
    GiftPrice,
    GiftDescription,
    DebugField,
    DebugDuration,
    DebugAt,
    EventName,
    EventDate,
}

/// Why a decode failed: the payload broke the format's grammar, or it was
/// structurally well formed and a field value broke a schema invariant.
#[derive(Clone, Copy, Debug, PartialEq, Eq, Structural)]
pub enum DecodeError {
    Parse,
    Schema(Field),
}

/// The only admitted request type; its wire literal is `success`.
#[derive(Clone, Copy, Debug, PartialEq, Eq, Structural)]
pub enum RequestType {
    Success,
}

/// A tariff offered publicly. `duration` holds whole seconds; on the wire
/// it is written in the span-of-time grammar.
#[derive(Clone, Debug, PartialEq, Eq)]
pub struct PublicTariff {
    pub id: u32,
    pub price: u32,
    pub duration: u64,
    pub description: Vec<u8>,
}

pub struct PublicTariffV {
    pub id: u32,
    pub price: u32,
    pub duration: u64,
    pub description: Seq<u8>,
}

impl View for PublicTariff {
    type V = PublicTariffV;

    open spec fn view(&self) -> PublicTariffV {
        PublicTariffV {
            id: self.id,
            price: self.price,
            duration: self.duration,
            description: self.description@,
        }
    }
}

/// A tariff scoped to its stream alone; it has no identifier of its own.
#[derive(Clone, Debug, PartialEq, Eq)]
pub struct PrivateTariff {
    pub client_price: u32,
    pub duration: u64,
    pub description: Vec<u8>,
}

pub struct PrivateTariffV {
    pub client_price: u32,
    pub duration: u64,
    pub description: Seq<u8>,
}

impl View for PrivateTariff {
    type V = PrivateTariffV;

    open spec fn view(&self) -> PrivateTariffV {
        PrivateTariffV {
            client_price: self.client_price,
            duration: self.duration,
            description: self.description@,
        }
    }
}

/// The broadcast stream of the offer. `user_id` holds the canonical
/// hyphenated lowercase form of a 128-bit identifier; `shard_url` holds a
/// syntactically valid absolute URL.
#[derive(Clone, Debug, PartialEq, Eq)]
pub struct Stream {
    pub user_id: Vec<u8>,
    pub is_private: bool,
    pub settings: u32,
    pub shard_url: Vec<u8>,
    pub public_tariff: PublicTariff,
    pub private_tariff: PrivateTariff,
}

pub struct StreamV {
    pub user_id: Seq<u8>,
    pub is_private: bool,
    pub settings: u32,
    pub shard_url: Seq<u8>,
    pub public_tariff: PublicTariffV,
    pub private_tariff: PrivateTariffV,
}

impl View for Stream {
    type V = StreamV;

    open spec fn view(&self) -> StreamV {
        StreamV {
            user_id: self.user_id@,
            is_private: self.is_private,
            settings: self.settings,
            shard_url: self.shard_url@,
            public_tariff: self.public_tariff@,
            private_tariff: self.private_tariff@,
        }
    }
}

#[derive(Clone, Debug, PartialEq, Eq)]
pub struct Gift {
    pub id: u32,
    pub price: u32,
    pub description: Vec<u8>,
}

pub struct GiftV {
    pub id: u32,
    pub price: u32,
    pub description: Seq<u8>,
}

impl View for Gift {
    type V = GiftV;

    open spec fn view(&self) -> GiftV {
        GiftV { id: self.id, price: self.price, description: self.description@ }
    }
}

/// Debug metadata: a span in seconds and an RFC 3339 timestamp kept in its
/// wire spelling.
#[derive(Clone, Debug, PartialEq, Eq)]
pub struct DebugInfo {
    pub duration: u64,
    pub at: Vec<u8>,
}

pub struct DebugInfoV {
    pub duration: u64,
    pub at: Seq<u8>,
}

impl View for DebugInfo {
    type V = DebugInfoV;

    open spec fn view(&self) -> DebugInfoV {
        DebugInfoV { duration: self.duration, at: self.at@ }
    }
}

/// A whole stream-offer request.
#[derive(Clone, Debug, PartialEq, Eq)]
pub struct Request {
    pub request_type: RequestType,
    pub stream: Stream,
    pub gifts: Vec<Gift>,
    pub debug: DebugInfo,
}

pub struct RequestV {
    pub request_type: RequestType,
    pub stream: StreamV,
    pub gifts: Seq<GiftV>,
    pub debug: DebugInfoV,
}

/// The views of a sequence of gifts, in order.
pub open spec fn gifts_view(gs: Seq<Gift>) -> Seq<GiftV> {
    gs.map_values(|g: Gift| g@)
}

impl View for Request {
    type V = RequestV;

    open spec fn view(&self) -> RequestV {
        RequestV {
            request_type: self.request_type,
            stream: self.stream@,
            gifts: gifts_view(self.gifts@),
            debug: self.debug@,
        }
    }
}

/// An event: a name and a date string kept without its wire prefix.
#[derive(Clone, Debug, PartialEq, Eq)]
pub struct Event {
    pub name: Vec<u8>,
    pub date: Vec<u8>,
}

pub struct EventV {
    pub name: Seq<u8>,
    pub date: Seq<u8>,
}

impl View for Event {
    type V = EventV;

    open spec fn view(&self) -> EventV {
        EventV { name: self.name@, date: self.date@ }
    }
}

/// A lowercase hexadecimal digit.
pub open spec fn is_hex_lower(b: u8) -> bool {
    is_digit(b) || ('a' as u8 <= b && b <= 'f' as u8)
}

/// What byte the canonical identifier form demands at position `i`:
/// hyphens at the four fixed positions, lowercase hexadecimal elsewhere.
pub open spec fn uuid_byte_ok(s: Seq<u8>, i: int) -> bool {
    if i == 8 || i == 13 || i == 18 || i == 23 {
        s[i] == '-' as u8
    } else {
        is_hex_lower(s[i])
    }
}

/// `s` is the canonical hyphenated lowercase form of a 128-bit identifier.
pub open spec fn uuid_ok(s: Seq<u8>) -> bool {
    s.len() == 36 && forall|i: int| 0 <= i < 36 ==> uuid_byte_ok(s, i)
}

/// Checks the canonical identifier grammar.
pub fn check_uuid(s: &Vec<u8>) -> (r: bool)
    ensures
        r == uuid_ok(s@),
{
    if s.len() != 36 {
        return false;
    }
    let mut i: usize = 0;
    while i < 36
        invariant
            0 <= i <= 36,
            s@.len() == 36,
            forall|t: int| 0 <= t < i ==> uuid_byte_ok(s@, t),
        decreases 36 - i,
    {
        let b = s[i];
        let ok = if i == 8 || i == 13 || i == 18 || i == 23 {
            b == '-' as u8
        } else {
            (48 <= b && b <= 57) || ('a' as u8 <= b && b <= 'f' as u8)
        };
        if !ok {
            assert(!uuid_byte_ok(s@, i as int));
            return false;
        }
        i = i + 1;
    }
    true
}

/// Every byte of a canonical identifier may stand inside a quoted string.
pub proof fn lemma_uuid_text(s: Seq<u8>)
    requires
        uuid_ok(s),
    ensures
        text_ok(s),
{
    assert forall|i: int| 0 <= i < s.len() implies is_strbyte(#[trigger] s[i]) by {
        assert(uuid_byte_ok(s, i));
    }
}

pub open spec fn valid_public_tariff(t: PublicTariffV) -> bool {
    text_ok(t.description)
}

pub open spec fn valid_private_tariff(t: PrivateTariffV) -> bool {
    text_ok(t.description)
}

pub open spec fn valid_stream(s: StreamV) -> bool {
    &&& uuid_ok(s.user_id)
    &&& text_ok(s.shard_url)
    &&& uri_ok(s.shard_url)
    &&& valid_public_tariff(s.public_tariff)
    &&& valid_private_tariff(s.private_tariff)
}

pub open spec fn valid_gift(g: GiftV) -> bool {
    text_ok(g.description)
}

pub open spec fn valid_debug(d: DebugInfoV) -> bool {
    &&& text_ok(d.at)
    &&& timestamp_ok(d.at)
}

/// The schema invariant of a request: every field value lies in its type's
/// grammar. Decoding establishes it; encoding relies on it.
pub open spec fn valid_request(r: RequestV) -> bool {
    &&& valid_stream(r.stream)
    &&& forall|i: int| 0 <= i < r.gifts.len() ==> valid_gift(#[trigger] r.gifts[i])
    &&& valid_debug(r.debug)
}

/// The schema invariant of an event.
pub open spec fn valid_event(e: EventV) -> bool {
    &&& text_ok(e.name)
    &&& text_ok(e.date)
}

} // verus!
