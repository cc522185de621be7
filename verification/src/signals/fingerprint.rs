//! Request fingerprints binding a JWT to the client that obtained it.
use vstd::prelude::*;
use crate::text;
use crate::context::IpAddress;

verus! {

/// The SHA-256 digest of the UTF-8 encoding of `text`.
pub uninterp spec fn sha256_digest(text: Seq<char>) -> Seq<u8>;

/// SHA-256 of a string's bytes (`sha2::Sha256::digest`): 32 bytes, named by
/// [`sha256_digest`].
#[verifier::external_body]
fn sha256_bytes(text: &str) -> (r: Vec<u8>)
    ensures
        r@ == sha256_digest(text@),
        r@.len() == 32,
{
    <sha2::Sha256 as sha2::Digest>::digest(text.as_bytes()).to_vec()
}

/// The lower-case hexadecimal digit of a value below 16.
pub open spec fn hex_digit_lower(d: int) -> char {
    if d < 10 { ((d + 48) as u32) as char } else { ((d + 87) as u32) as char }
}

/// Two lower-case hexadecimal digits per byte, most significant first.
pub open spec fn hex_lower(bytes: Seq<u8>) -> Seq<char>
    decreases bytes.len(),
{
    if bytes.len() == 0 {
        Seq::empty()
    } else {
        hex_lower(bytes.drop_last()).push(hex_digit_lower(bytes.last() as int / 16))
            .push(hex_digit_lower(bytes.last() as int % 16))
    }
}

/// `hex::encode`: two lower-case hexadecimal digits per byte.
#[verifier::external_body]
fn hex_encode(bytes: &[u8]) -> (r: String)
    ensures
        r@ == hex_lower(bytes@),
{
    hex::encode(bytes)
}

/// The fingerprint of an IP text and a user agent: the lower-case hex
/// SHA-256 of `ip | ua`, a missing part being empty.
pub open spec fn spec_jwt_fingerprint(ip: Option<Seq<char>>, ua: Option<Seq<char>>) -> Seq<char> {
    let i = match ip { Some(t) => t, None => Seq::empty() };
    let u = match ua { Some(t) => t, None => Seq::empty() };
    hex_lower(sha256_digest(i + "|"@ + u))
}

/// Deterministic fingerprint of the request IP and user agent:
/// `sha256(ip || "|" || ua)`, lower-case hex.
pub fn compute_jwt_fingerprint(ip: Option<&IpAddress>, ua: Option<&str>) -> (r: String)
    ensures
        r@ == spec_jwt_fingerprint(
            match ip { Some(a) => Some(a.text@), None => None },
            match ua { Some(u) => Some(u@), None => None },
        ),
{
    let mut input = match ip {
        Some(a) => a.text.clone(),
        None => String::new(),
    };
    text::push_str(&mut input, "|");
    match ua {
        Some(u) => text::push_str(&mut input, u),
        None => {},
    }
    let digest = sha256_bytes(input.as_str());
    hex_encode(&digest)
}

/// The store key of a JWT's fingerprint: the token is hashed so the bearer
/// token itself is never used as a key.
pub open spec fn spec_jwt_fingerprint_key(raw_jwt: Seq<char>) -> Seq<char> {
    "jwt:fingerprint:"@ + hex_lower(sha256_digest(raw_jwt))
}

/// Compute the key under which a JWT's fingerprint is stored.
pub fn jwt_fingerprint_key(raw_jwt: &str) -> (r: String)
    ensures
        r@ == spec_jwt_fingerprint_key(raw_jwt@),
{
    let digest = sha256_bytes(raw_jwt);
    let hex = hex_encode(&digest);
    let mut key = text::owned("jwt:fingerprint:");
    text::push_str(&mut key, hex.as_str());
    key
}

} // verus!
