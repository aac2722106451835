use vstd::prelude::*;

verus! {

/// The signature that the `jsonwebtoken` crate computes over a message
/// under a symmetric secret with its `HS256` algorithm, already in its
/// transport form (URL-safe, unpadded base64 of the MAC). The result
/// depends on the message and the secret alone.
pub uninterp spec fn sig_of(msg: Seq<u8>, secret: Seq<u8>) -> Seq<u8>;

/// Relies on `jsonwebtoken::crypto::sign` with `Algorithm::HS256` and a
/// key from `EncodingKey::from_secret`: the returned string is the
/// base64 form of the message's MAC, a function of message and secret
/// alone; base64 output is ASCII, holds no `.`, and a 32-byte MAC
/// encodes to a non-empty string. Signing an HMAC-family key cannot
/// fail — the key accepts secrets of every length and the signer
/// returns its tag unconditionally — so the error arm below is
/// unreachable.
#[verifier::external_body]
pub(crate) fn hs256_sign(msg: &[u8], secret: &[u8]) -> (r: Vec<u8>)
    ensures
        r@ == sig_of(msg@, secret@),
        forall|i: int| 0 <= i < r@.len() ==> r@[i] != 46u8,
        forall|i: int| 0 <= i < r@.len() ==> r@[i] < 128u8,
        r@.len() > 0,
{
    let key = jsonwebtoken::EncodingKey::from_secret(secret);
    match jsonwebtoken::crypto::sign(msg, &key, jsonwebtoken::Algorithm::HS256) {
        Ok(s) => s.into_bytes(),
        Err(_) => Vec::new(),
    }
}

/// Relies on `jsonwebtoken::crypto::verify` with `Algorithm::HS256` and
/// a key from `DecodingKey::from_secret`: it strictly base64-decodes
/// the presented signature and compares it in constant time against the
/// message's recomputed MAC, so it accepts exactly the byte string that
/// `jsonwebtoken::crypto::sign` returns for this message and secret.
/// A signature that is not UTF-8, or not canonical base64, is not that
/// string and is refused.
#[verifier::external_body]
pub(crate) fn hs256_verify(sig: &[u8], msg: &[u8], secret: &[u8]) -> (r: bool)
    ensures
        r == (sig@ == sig_of(msg@, secret@)),
{
    let key = jsonwebtoken::DecodingKey::from_secret(secret);
    match core::str::from_utf8(sig) {
        Ok(s) => {
            jsonwebtoken::crypto::verify(s, msg, &key, jsonwebtoken::Algorithm::HS256)
                .unwrap_or(false)
        },
        Err(_) => false,
    }
}

} // verus!
