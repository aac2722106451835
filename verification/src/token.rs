use vstd::prelude::*;

use crate::b64::b64_decode;
use crate::b64::b64_encode;
use crate::b64::b64_of;
use crate::b64::b64_rev;
use crate::bytestr::lemma_index_of_first_is;
use crate::bytestr::lemma_index_of_first_none;
use crate::bytestr::push_bytes;
use crate::claims::Claims;
use crate::claims::encode_claims;
use crate::claims::lemma_parse_of_encode;
use crate::claims::parse_claims;
use crate::claims::spec_claims_json;
use crate::claims::spec_parse_claims;
use crate::claims::valid_sub;
use crate::errors::EncodingFailure;
use crate::errors::TokenError;
use crate::jwt_crypto::hs256_sign;
use crate::jwt_crypto::hs256_verify;
use crate::jwt_crypto::sig_of;
use crate::textenc::ascii_to_string;
use crate::textenc::bytes_of_chars;
use crate::textenc::chars_of_bytes;
use crate::textenc::is_ascii_bytes;

verus! {

/// No byte is the separator `.`.
pub open spec fn is_dot_free(s: Seq<u8>) -> bool {
    forall|i: int| 0 <= i < s.len() ==> s[i] != 46u8
}

/// The header document naming the signing algorithm:
/// `{"alg":"HS256","typ":"JWT"}`.
pub open spec fn header_json() -> Seq<u8> {
    seq![
        123u8, 34u8, 97u8, 108u8, 103u8, 34u8, 58u8, 34u8, 72u8, 83u8, 50u8, 53u8, 54u8, 34u8,
        44u8, 34u8, 116u8, 121u8, 112u8, 34u8, 58u8, 34u8, 74u8, 87u8, 84u8, 34u8, 125u8,
    ]
}

/// The header document, as a value the code can write out.
fn header_json_vec() -> (v: Vec<u8>)
    ensures
        v@ == header_json(),
{
    let mut v: Vec<u8> = Vec::new();
    v.push(123);
    v.push(34);
    v.push(97);
    v.push(108);
    v.push(103);
    v.push(34);
    v.push(58);
    v.push(34);
    v.push(72);
    v.push(83);
    v.push(50);
    v.push(53);
    v.push(54);
    v.push(34);
    v.push(44);
    v.push(34);
    v.push(116);
    v.push(121);
    v.push(112);
    v.push(34);
    v.push(58);
    v.push(34);
    v.push(74);
    v.push(87);
    v.push(84);
    v.push(34);
    v.push(125);
    proof {
        assert(v@ =~= header_json());
    }
    v
}

/// Splits a token into exactly three non-empty segments on `.`:
/// the text before the first dot, the text between the first and the
/// second, and the dot-free text after the second. Anything else —
/// fewer dots, more dots, an empty segment — yields nothing.
pub open spec fn spec_split3(t: Seq<u8>) -> Option<(Seq<u8>, Seq<u8>, Seq<u8>)> {
    match t.index_of_first(46u8) {
        None => None,
        Some(i) => {
            let rest = t.skip(i + 1);
            match rest.index_of_first(46u8) {
                None => None,
                Some(j) => {
                    let h = t.take(i);
                    let c = rest.take(j);
                    let s = rest.skip(j + 1);
                    if h.len() > 0 && c.len() > 0 && s.len() > 0 && is_dot_free(s) {
                        Some((h, c, s))
                    } else {
                        None
                    }
                },
            }
        },
    }
}

/// Joining three dot-free, non-empty segments with dots and splitting
/// again recovers exactly those segments.
pub proof fn lemma_split3_join(h: Seq<u8>, c: Seq<u8>, s: Seq<u8>)
    requires
        h.len() > 0,
        c.len() > 0,
        s.len() > 0,
        is_dot_free(h),
        is_dot_free(c),
        is_dot_free(s),
    ensures
        spec_split3(h + seq![46u8] + c + seq![46u8] + s) == Some((h, c, s)),
{
    let t = h + seq![46u8] + c + seq![46u8] + s;
    assert(t[h.len() as int] == 46);
    assert(forall|k: int| 0 <= k < h.len() ==> t[k] == h[k] && t[k] != 46);
    lemma_index_of_first_is(t, 46, h.len() as int);
    let rest = t.skip(h.len() as int + 1);
    assert(rest =~= c + seq![46u8] + s);
    assert(rest[c.len() as int] == 46);
    assert(forall|k: int| 0 <= k < c.len() ==> rest[k] == c[k] && rest[k] != 46);
    lemma_index_of_first_is(rest, 46, c.len() as int);
    assert(t.take(h.len() as int) =~= h);
    assert(rest.take(c.len() as int) =~= c);
    assert(rest.skip(c.len() as int + 1) =~= s);
}

/// What validation yields for a token under a secret at an instant:
/// the subject bytes and the expiration on success, the terminal
/// rejection otherwise. The steps, in order: the token must split into
/// three non-empty segments; the third segment must be the signature
/// of the first two (checked before the claims are trusted); the
/// second segment must decode to a claims document of the expected
/// shape; the instant must lie strictly before the expiration.
pub open spec fn spec_validate(t: Seq<u8>, now: u64, secret: Seq<u8>) -> Result<
    (Seq<u8>, u64),
    TokenError,
> {
    match spec_split3(t) {
        None => Err(TokenError::Malformed),
        Some((h, c, s)) => {
            let msg = h + seq![46u8] + c;
            if s != sig_of(msg, secret) {
                Err(TokenError::InvalidSignature)
            } else {
                match b64_rev(c) {
                    None => Err(TokenError::Malformed),
                    Some(cb) => match spec_parse_claims(cb) {
                        None => Err(TokenError::Malformed),
                        Some((sub, exp)) => if now < exp {
                            Ok((sub, exp))
                        } else {
                            Err(TokenError::Expired)
                        },
                    },
                }
            }
        },
    }
}

/// The token issued for a subject expiring at an instant under a
/// secret: base64 header, a dot, base64 claims, a dot, the signature
/// of everything before the second dot.
pub open spec fn spec_issue(sub: Seq<u8>, exp: u64, secret: Seq<u8>) -> Seq<u8> {
    let msg = b64_of(header_json()) + seq![46u8] + b64_of(spec_claims_json(sub, exp));
    msg + seq![46u8] + sig_of(msg, secret)
}

/// Issues a signed token for a subject, expiring at `exp`. Issuance
/// always succeeds: the one outside step, HS256 signing under a
/// symmetric secret, cannot fail. The token is ASCII text, exactly
/// `spec_issue(sub, exp, secret)`, and validating it under the same
/// secret yields the subject and expiration at every instant strictly
/// before `exp`, and `Expired` at every instant from `exp` on.
pub fn issue_token(sub: &[u8], exp: u64, secret: &[u8]) -> (r: Result<String, EncodingFailure>)
    requires
        valid_sub(sub@),
    ensures
        r is Ok,
        r matches Ok(t) ==> {
            &&& vstd::utf8::is_ascii_chars(t@)
            &&& bytes_of_chars(t@) == spec_issue(sub@, exp, secret@)
            &&& t@ == chars_of_bytes(spec_issue(sub@, exp, secret@))
            &&& forall|at: u64|
                spec_validate(spec_issue(sub@, exp, secret@), at, secret@) == (if at < exp {
                    Ok::<(Seq<u8>, u64), TokenError>((sub@, exp))
                } else {
                    Err::<(Seq<u8>, u64), TokenError>(TokenError::Expired)
                })
        },
{
    let hj = header_json_vec();
    let h64 = b64_encode(hj.as_slice());
    let cj = encode_claims(sub, exp);
    let c64 = b64_encode(cj.as_slice());
    let mut msg: Vec<u8> = Vec::new();
    push_bytes(&mut msg, h64.as_slice());
    msg.push(46);
    push_bytes(&mut msg, c64.as_slice());
    let sig = hs256_sign(msg.as_slice(), secret);
    let ghost ti = spec_issue(sub@, exp, secret@);
    proof {
        assert(msg@ =~= h64@ + seq![46u8] + c64@);
        assert(ti =~= msg@ + seq![46u8] + sig@);
        lemma_split3_join(h64@, c64@, sig@);
        lemma_parse_of_encode(sub@, exp);
        assert(forall|at: u64|
            spec_validate(ti, at, secret@) == (if at < exp {
                Ok::<(Seq<u8>, u64), TokenError>((sub@, exp))
            } else {
                Err::<(Seq<u8>, u64), TokenError>(TokenError::Expired)
            })) by {
            assert(spec_split3(ti) == Some((h64@, c64@, sig@)));
        }
    }
    let mut tok = msg;
    tok.push(46);
    push_bytes(&mut tok, sig.as_slice());
    proof {
        assert(tok@ =~= ti);
        assert(is_ascii_bytes(tok@));
    }
    let text = ascii_to_string(tok);
    proof {
        assert(forall|t: int| 0 <= t < text@.len() ==> '\0' <= #[trigger] text@[t] <= '\u{7f}');
    }
    Ok(text)
}

/// Parses and cryptographically verifies a presented token: the
/// returned claims carry exactly the subject bytes and expiration that
/// `spec_validate` yields, and every rejection is the one it yields.
#[verifier::loop_isolation(false)]
pub fn validate_token(token: &[u8], now: u64, secret: &[u8]) -> (r: Result<Claims, TokenError>)
    ensures
        ({
            let sv = spec_validate(token@, now, secret@);
            match r {
                Ok(c) => {
                    &&& sv matches Ok(p)
                    &&& sv matches Ok(p) ==> c.sub@ == chars_of_bytes(p.0) && bytes_of_chars(c.sub@)
                        == p.0 && c.exp == p.1
                    &&& vstd::utf8::is_ascii_chars(c.sub@)
                },
                Err(e) => sv == Err::<(Seq<u8>, u64), TokenError>(e),
            }
        }),
{
    let n = token.len();
    // First separator.
    let mut i1: usize = 0;
    let mut found1: bool = false;
    while !found1 && i1 < n
        invariant
            0 <= i1 <= n,
            n == token@.len(),
            forall|k: int| 0 <= k < i1 ==> token@[k] != 46,
            found1 ==> i1 < n && token@[i1 as int] == 46,
        decreases n - i1 + (if found1 {
            0int
        } else {
            1int
        }),
    {
        if token[i1] == 46 {
            found1 = true;
        } else {
            i1 = i1 + 1;
        }
    }
    if !found1 {
        proof {
            lemma_index_of_first_none(token@, 46);
        }
        return Err(TokenError::Malformed);
    }
    proof {
        lemma_index_of_first_is(token@, 46, i1 as int);
    }
    let d1: usize = i1;
    let ghost rest = token@.skip(d1 + 1);
    // Second separator.
    let mut i2: usize = d1 + 1;
    let mut found2: bool = false;
    while !found2 && i2 < n
        invariant
            d1 + 1 <= i2 <= n,
            n == token@.len(),
            forall|k: int| d1 + 1 <= k < i2 ==> token@[k] != 46,
            found2 ==> i2 < n && token@[i2 as int] == 46,
        decreases n - i2 + (if found2 {
            0int
        } else {
            1int
        }),
    {
        if token[i2] == 46 {
            found2 = true;
        } else {
            i2 = i2 + 1;
        }
    }
    if !found2 {
        proof {
            assert(forall|k: int| 0 <= k < rest.len() ==> rest[k] == token@[d1 + 1 + k]);
            lemma_index_of_first_none(rest, 46);
        }
        return Err(TokenError::Malformed);
    }
    let d2: usize = i2;
    proof {
        assert(rest[d2 - d1 - 1] == token@[d2 as int]);
        assert(forall|k: int| 0 <= k < d2 - d1 - 1 ==> rest[k] == token@[d1 + 1 + k]);
        lemma_index_of_first_is(rest, 46, d2 - d1 - 1);
    }
    // The third segment must be dot-free and all three non-empty.
    let mut i3: usize = d2 + 1;
    while i3 < n
        invariant
            d2 + 1 <= i3 <= n,
            n == token@.len(),
            forall|k: int| d2 + 1 <= k < i3 ==> token@[k] != 46,
        decreases n - i3,
    {
        if token[i3] == 46 {
            proof {
                assert(rest.skip(d2 - d1)[i3 - d2 - 1] == token@[i3 as int]);
                assert(!is_dot_free(rest.skip(d2 - d1)));
            }
            return Err(TokenError::Malformed);
        }
        i3 = i3 + 1;
    }
    let ghost h = token@.take(d1 as int);
    let ghost c = rest.take(d2 - d1 - 1);
    let ghost s = rest.skip(d2 - d1);
    proof {
        assert(c =~= token@.subrange(d1 + 1, d2 as int));
        assert(s =~= token@.subrange(d2 + 1, n as int));
        assert(forall|k: int| 0 <= k < s.len() ==> s[k] == token@[d2 + 1 + k]);
    }
    if d1 == 0 || d2 - d1 < 2 || n - d2 < 2 {
        proof {
            assert(h.len() == 0 || c.len() == 0 || s.len() == 0);
        }
        return Err(TokenError::Malformed);
    }
    proof {
        assert(is_dot_free(s));
        assert(spec_split3(token@) == Some((h, c, s)));
    }
    let msg = &token[0..d2];
    let sig = &token[d2 + 1..n];
    proof {
        assert(msg@ =~= h + seq![46u8] + c);
        assert(sig@ =~= s);
    }
    if !hs256_verify(sig, msg, secret) {
        return Err(TokenError::InvalidSignature);
    }
    let c64 = &token[d1 + 1..d2];
    let cb = match b64_decode(c64) {
        Some(v) => v,
        None => {
            return Err(TokenError::Malformed);
        },
    };
    let (sub, exp) = match parse_claims(cb.as_slice()) {
        Some(p) => p,
        None => {
            return Err(TokenError::Malformed);
        },
    };
    if now >= exp {
        return Err(TokenError::Expired);
    }
    let sub_text = ascii_to_string(sub);
    proof {
        assert(forall|t: int|
            0 <= t < sub_text@.len() ==> '\0' <= #[trigger] sub_text@[t] <= '\u{7f}');
    }
    Ok(Claims { sub: sub_text, exp })
}

/// Tampering with the signature segment of a token that validates —
/// replacing it by any other dot-free, non-empty segment, a single
/// flipped bit included — is rejected as an invalid signature, never
/// accepted.
pub proof fn lemma_signature_tamper_rejected(
    h: Seq<u8>,
    c: Seq<u8>,
    s: Seq<u8>,
    s2: Seq<u8>,
    now: u64,
    at: u64,
    secret: Seq<u8>,
)
    requires
        h.len() > 0,
        c.len() > 0,
        s.len() > 0,
        s2.len() > 0,
        is_dot_free(h),
        is_dot_free(c),
        is_dot_free(s),
        is_dot_free(s2),
        s2 != s,
        spec_validate(h + seq![46u8] + c + seq![46u8] + s, now, secret) is Ok,
    ensures
        spec_validate(h + seq![46u8] + c + seq![46u8] + s2, at, secret) == Err::<
            (Seq<u8>, u64),
            TokenError,
        >(TokenError::InvalidSignature),
{
    lemma_split3_join(h, c, s);
    lemma_split3_join(h, c, s2);
    assert(s == sig_of(h + seq![46u8] + c, secret));
}

} // verus!
