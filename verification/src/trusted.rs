//! The two syntactic checks that outside crates perform for the schema:
//! absolute-URL syntax and RFC 3339 timestamp syntax. Each result is named
//! by an uninterpreted predicate, since both are functions of the input
//! string alone; the rest of the library is verified against those names.

use vstd::prelude::*;

verus! {

/// `s` is a syntactically valid absolute URL.
pub uninterp spec fn uri_ok(s: Seq<u8>) -> bool;

/// Relies on url::Url::parse: whether it succeeds depends on the input
/// string alone, and success means a syntactically valid absolute URL.
#[verifier::external_body]
pub(crate) fn check_uri(s: &Vec<u8>) -> (r: bool)
    ensures
        r == uri_ok(s@),
{
    match std::str::from_utf8(s) {
        Ok(t) => url::Url::parse(t).is_ok(),
        Err(_) => false,
    }
}

/// `s` is a syntactically valid RFC 3339 date-and-time with offset.
pub uninterp spec fn timestamp_ok(s: Seq<u8>) -> bool;

/// Relies on chrono::DateTime::parse_from_rfc3339: whether it succeeds
/// depends on the input string alone, and success means a syntactically
/// valid RFC 3339 date-and-time with offset.
#[verifier::external_body]
pub(crate) fn check_timestamp(s: &Vec<u8>) -> (r: bool)
    ensures
        r == timestamp_ok(s@),
{
    match std::str::from_utf8(s) {
        Ok(t) => chrono::DateTime::parse_from_rfc3339(t).is_ok(),
        Err(_) => false,
    }
}

} // verus!
