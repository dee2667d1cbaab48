//! Hashes, encodings and random identifiers: `blake3`, `base64`, `bcrypt`
//! and `uuid`.

use vstd::prelude::*;

verus! {

/// Lower-case hexadecimal digit.
pub open spec fn is_hex_lower(c: char) -> bool {
    ('0' <= c && c <= '9') || ('a' <= c && c <= 'f')
}

/// The BLAKE3 digest of `data` in lower-case hexadecimal.
pub uninterp spec fn blake3_hex_of(data: Seq<u8>) -> Seq<char>;

/// `blake3::hash(data).to_hex()`. Its source writes the 32-byte digest as
/// 64 characters from `0123456789abcdef`, which the contract states.
#[verifier::external_body]
pub(crate) fn blake3_hex(data: &[u8]) -> (r: String)
    ensures
        r@ == blake3_hex_of(data@),
        r@.len() == 64,
        forall|i: int| 0 <= i < r@.len() ==> is_hex_lower(#[trigger] r@[i]),
{
    ::blake3::hash(data).to_hex().to_string()
}

/// Standard (padded) base64 encoding of `data`.
pub uninterp spec fn base64_standard(data: Seq<u8>) -> Seq<char>;

/// `base64::engine::general_purpose::STANDARD.encode`.
#[verifier::external_body]
pub(crate) fn base64_encode(data: &[u8]) -> (r: String)
    ensures
        r@ == base64_standard(data@),
{
    ::base64::Engine::encode(&::base64::engine::general_purpose::STANDARD, data)
}

/// `bcrypt::verify(password, hash)`: whether the password matches, or the
/// error's text where the hash is malformed.
pub uninterp spec fn bcrypt_verify_result(password: Seq<char>, hash: Seq<char>) -> Result<bool, Seq<char>>;

/// `bcrypt::verify`, with its error as text.
#[verifier::external_body]
pub(crate) fn bcrypt_verify(password: &str, hash: &str) -> (r: Result<bool, String>)
    ensures
        match r {
            Ok(b) => bcrypt_verify_result(password@, hash@) == Ok::<bool, Seq<char>>(b),
            Err(e) => bcrypt_verify_result(password@, hash@) == Err::<bool, Seq<char>>(e@),
        },
{
    ::bcrypt::verify(password, hash).map_err(|e| e.to_string())
}

/// The first seven characters of a bcrypt hash at `cost` (4..=31) in the
/// `2b` version: `$2b$`, the cost in two decimal digits, `$`.
pub open spec fn bcrypt_prefix(cost: u32) -> Seq<char> {
    seq!['$', '2', 'b', '$', ((cost / 10) + 48) as char, ((cost % 10) + 48) as char, '$']
}

/// `bcrypt::hash(password, cost)`, with its error as text. The salt is
/// random, so the hash itself is not named. Its source writes 60 characters
/// as `$2b$`, the cost in two digits, `$`, then the salt and digest, and
/// `bcrypt::verify` recomputes the digest from the salt and cost written in
/// the hash, so the password verifies against it; the contract states these.
/// It fails only where the cost is out of 4..=31 (excluded here) or the OS
/// gives no randomness.
#[verifier::external_body]
pub(crate) fn bcrypt_hash(password: &str, cost: u32) -> (r: Result<String, String>)
    requires
        4 <= cost <= 31,
    ensures
        match r {
            Ok(h) => h@.len() == 60 && h@.subrange(0, 7) == bcrypt_prefix(cost) && bcrypt_verify_result(
                password@,
                h@,
            ) == Ok::<bool, Seq<char>>(true),
            Err(_) => true,
        },
{
    ::bcrypt::hash(password, cost).map_err(|e| e.to_string())
}

/// A fresh random version-4 UUID in its hyphenated form: `uuid::Uuid::new_v4`
/// displayed, 36 characters.
#[verifier::external_body]
pub(crate) fn uuid_v4() -> (r: String)
    ensures
        r@.len() == 36,
{
    ::uuid::Uuid::new_v4().to_string()
}

} // verus!
