//! Text forms that outside crates compute: the Base58 form of a signature
//! and the RFC 3339 form of a point in time.

use chrono::DateTime;
use chrono::SecondsFormat;
use chrono::Utc;
use vstd::prelude::*;

verus! {

/// The Base58 text of a run of bytes, in the Bitcoin alphabet.
pub uninterp spec fn base58_text(bytes: Seq<u8>) -> Seq<char>;

/// The RFC 3339 text, in UTC with millisecond precision and a `Z` suffix, of
/// the instant `unix_millis` milliseconds after the epoch; `None` where the
/// instant lies outside the range of dates that can be represented.
pub uninterp spec fn rfc3339_millis_text(unix_millis: int) -> Option<Seq<char>>;

/// Calls `bs58::encode(..).into_string()`. Trusted: the text returned is
/// the Base58 encoding of `bytes`, a function of the bytes alone.
#[verifier::external_body]
pub(crate) fn encode_base58(bytes: &Vec<u8>) -> (text: String)
    ensures
        text@ == base58_text(bytes@),
{
    bs58::encode(bytes).into_string()
}

/// Calls `chrono::DateTime::<Utc>::from_timestamp_millis` and then
/// `to_rfc3339_opts(SecondsFormat::Millis, true)`. Trusted: the text
/// returned is a function of `unix_millis` alone, and there is none exactly
/// where the crate cannot represent the instant.
#[verifier::external_body]
pub(crate) fn format_rfc3339_millis(unix_millis: i64) -> (text: Option<String>)
    ensures
        match text {
            Some(t) => rfc3339_millis_text(unix_millis as int) == Some(t@),
            None => rfc3339_millis_text(unix_millis as int) is None,
        },
{
    match DateTime::<Utc>::from_timestamp_millis(unix_millis) {
        Some(instant) => Some(instant.to_rfc3339_opts(SecondsFormat::Millis, true)),
        None => None,
    }
}

} // verus!
