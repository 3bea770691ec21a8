//! Declarations for the outside functions the library relies on: the system
//! clock and RFC 3339 rendering (chrono), random identifiers (uuid), the
//! digest (sha2), and one std string operation that vstd does not specify.
use vstd::prelude::*;

verus! {

/// Relies on std's String::push: appends the given char to the end of the string.
pub assume_specification[ String::push ](s: &mut String, c: char)
    ensures
        final(s)@ == old(s)@ + seq![c],
;

/// The RFC 3339 rendering of an epoch-second timestamp; the result depends on
/// the timestamp alone. Empty for a timestamp outside the representable range.
pub uninterp spec fn rfc3339_of(ts: int) -> Seq<char>;

/// Relies on chrono's DateTime::from_timestamp and DateTime::to_rfc3339:
/// a deterministic UTC rendering of an epoch-second timestamp; empty when
/// chrono cannot represent the timestamp.
#[verifier::external_body]
pub fn ts_to_rfc3339(ts: i64) -> (r: String)
    ensures
        r@ == rfc3339_of(ts as int),
{
    match chrono::DateTime::from_timestamp(ts, 0) {
        Some(moment) => moment.to_rfc3339(),
        None => String::new(),
    }
}

/// Relies on chrono's Utc::now and DateTime::timestamp: the current time as
/// whole seconds since the Unix epoch. Nothing is promised of the value.
#[verifier::external_body]
pub fn now_ts() -> i64 {
    chrono::Utc::now().timestamp()
}

/// Relies on uuid's Uuid::new_v4 and Uuid::as_u128: a freshly generated
/// random version-4 identifier. Nothing is promised of the value.
#[verifier::external_body]
pub fn fresh_id() -> u128 {
    uuid::Uuid::new_v4().as_u128()
}

/// The lowercase hexadecimal SHA-256 digest of a string's UTF-8 bytes; the
/// result depends on the input alone.
pub uninterp spec fn sha256_hex_of(s: Seq<char>) -> Seq<char>;

/// Relies on sha2's Sha256: the digest of the input's UTF-8 bytes, rendered
/// as 64 lowercase hexadecimal characters.
#[verifier::external_body]
pub fn sha256_hex(s: &str) -> (r: String)
    ensures
        r@ == sha256_hex_of(s@),
        r@.len() == 64,
{
    let mut hasher = <sha2::Sha256 as sha2::Digest>::new();
    sha2::Digest::update(&mut hasher, s.as_bytes());
    let digest = sha2::Digest::finalize(hasher);
    format!("{:x}", digest)
}

} // verus!
