use vstd::prelude::*;

use base64::Engine;

verus! {

/// The URL-safe, unpadded base64 encoding of a byte string, as the
/// `base64` crate computes it. The result depends on the input alone.
pub uninterp spec fn b64_of(b: Seq<u8>) -> Seq<u8>;

/// The inverse: `Some(bytes)` for a byte string that is the canonical
/// URL-safe, unpadded base64 encoding of `bytes`, `None` for anything
/// else, as the `base64` crate's strict decoder judges it.
pub uninterp spec fn b64_rev(s: Seq<u8>) -> Option<Seq<u8>>;

/// Relies on `base64::engine::general_purpose::URL_SAFE_NO_PAD.encode`:
/// the encoding is a function of the input bytes alone; its alphabet
/// (`A`-`Z`, `a`-`z`, `0`-`9`, `-`, `_`) is ASCII and holds no `.`;
/// a non-empty input encodes to a non-empty output; and the crate's
/// strict decoder recovers exactly the input from it.
#[verifier::external_body]
pub(crate) fn b64_encode(b: &[u8]) -> (r: Vec<u8>)
    ensures
        r@ == b64_of(b@),
        b64_rev(r@) == Some(b@),
        forall|i: int| 0 <= i < r@.len() ==> r@[i] != 46u8,
        forall|i: int| 0 <= i < r@.len() ==> r@[i] < 128u8,
        b@.len() > 0 ==> r@.len() > 0,
{
    base64::engine::general_purpose::URL_SAFE_NO_PAD
        .encode(b)
        .into_bytes()
}

/// Relies on `base64::engine::general_purpose::URL_SAFE_NO_PAD.decode`:
/// it accepts exactly the canonical unpadded encodings (padding is
/// refused, stray trailing bits are refused) and returns the encoded
/// bytes.
#[verifier::external_body]
pub(crate) fn b64_decode(s: &[u8]) -> (r: Option<Vec<u8>>)
    ensures
        match r {
            Some(v) => b64_rev(s@) == Some(v@) && s@ == b64_of(v@),
            None => b64_rev(s@) is None,
        },
{
    base64::engine::general_purpose::URL_SAFE_NO_PAD.decode(s).ok()
}

} // verus!
