//! The points where the library leans on outside crates: hashing, hex
//! encoding, identifier generation, and the clock. Each item's contract
//! states only what the crate it calls promises.

use vstd::prelude::*;

verus! {

/// The SHA-256 digest of a byte sequence. The digest is a function of the
/// input alone; nothing further is assumed about its value.
pub uninterp spec fn sha256_of(data: Seq<u8>) -> Seq<u8>;

/// Relies on sha2::Sha256::digest: the SHA-256 digest, which depends on
/// the input bytes alone and is exactly 32 bytes long.
#[verifier::external_body]
pub fn sha256(data: &[u8]) -> (r: Vec<u8>)
    ensures
        r@ == sha256_of(data@),
        r@.len() == 32,
{
    <sha2::Sha256 as sha2::Digest>::digest(data).to_vec()
}

/// One lowercase hexadecimal digit.
pub open spec fn hex_digit(d: int) -> char {
    if d == 0 {
        '0'
    } else if d == 1 {
        '1'
    } else if d == 2 {
        '2'
    } else if d == 3 {
        '3'
    } else if d == 4 {
        '4'
    } else if d == 5 {
        '5'
    } else if d == 6 {
        '6'
    } else if d == 7 {
        '7'
    } else if d == 8 {
        '8'
    } else if d == 9 {
        '9'
    } else if d == 10 {
        'a'
    } else if d == 11 {
        'b'
    } else if d == 12 {
        'c'
    } else if d == 13 {
        'd'
    } else if d == 14 {
        'e'
    } else {
        'f'
    }
}

/// Lowercase hexadecimal encoding: two digits per byte, high nibble first.
pub open spec fn hex_of(data: Seq<u8>) -> Seq<char>
    decreases data.len(),
{
    if data.len() == 0 {
        Seq::empty()
    } else {
        hex_of(data.drop_last()) + seq![
            hex_digit(data.last() as int / 16),
            hex_digit(data.last() as int % 16),
        ]
    }
}

/// The hex encoding of `n` bytes has `2 * n` characters.
pub proof fn lemma_hex_of_len(data: Seq<u8>)
    ensures
        hex_of(data).len() == 2 * data.len(),
    decreases data.len(),
{
    if data.len() > 0 {
        lemma_hex_of_len(data.drop_last());
    }
}

/// Relies on hex::encode: lowercase hexadecimal, two digits per byte with
/// the high nibble first, as the crate's digit table shows.
#[verifier::external_body]
pub fn hex_encode(data: &Vec<u8>) -> (r: String)
    ensures
        r@ == hex_of(data@),
{
    hex::encode(data)
}

/// Relies on uuid::Uuid::new_v4 and its hyphenated rendering: a randomly
/// drawn version-4 identifier, written as 36 characters. The value varies
/// from call to call; only its length is assumed.
#[verifier::external_body]
pub fn fresh_identifier() -> (r: String)
    ensures
        r@.len() == 36,
{
    uuid::Uuid::new_v4().to_string()
}

/// Relies on chrono::Utc::now: the current Unix timestamp in seconds.
/// Nothing is assumed about the value.
#[verifier::external_body]
pub fn now_timestamp() -> (r: i64) {
    chrono::Utc::now().timestamp()
}

/// The RFC 3339 rendering of a Unix timestamp, a function of the
/// timestamp alone.
pub uninterp spec fn rfc3339_of(timestamp: int) -> Seq<char>;

/// The timestamps the date formatter accepts: years 1 through 9999.
pub open spec fn timestamp_in_range(timestamp: int) -> bool {
    -62135596800 <= timestamp <= 253402300799
}

/// Relies on chrono::DateTime::from_timestamp and
/// chrono::DateTime::to_rfc3339: the RFC 3339 text of a Unix timestamp,
/// which depends on the timestamp alone. The range bound keeps the
/// timestamp within the years the crate accepts.
#[verifier::external_body]
pub fn rfc3339_utc(timestamp: i64) -> (r: String)
    requires
        timestamp_in_range(timestamp as int),
    ensures
        r@ == rfc3339_of(timestamp as int),
{
    match chrono::DateTime::from_timestamp(timestamp, 0) {
        Some(moment) => moment.to_rfc3339(),
        None => String::new(),
    }
}

} // verus!
