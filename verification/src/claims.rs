use vstd::prelude::*;

use crate::bytestr::lemma_index_of_first_is;
use crate::bytestr::lemma_index_of_first_none;
use crate::bytestr::push_bytes;
use crate::bytestr::window_eq;
use crate::dec::push_dec;
use crate::dec::parse_dec;
use crate::dec::spec_dec;
use crate::dec::spec_dec_val;
use crate::dec::valid_digits;
use crate::dec::lemma_dec_val_nonneg;

verus! {

/// The payload of a session token: the subject (the user identifier in
/// its opaque string form) and the expiration instant in seconds since
/// the epoch. Created at issuance, never mutated, never persisted
/// server-side.
#[derive(Debug, PartialEq, Eq)]
pub struct Claims {
    pub sub: String,
    pub exp: u64,
}

/// The bytes `{"sub":"` that open the claims document.
pub open spec fn claims_prefix() -> Seq<u8> {
    seq![123u8, 34u8, 115u8, 117u8, 98u8, 34u8, 58u8, 34u8]
}

/// The bytes `","exp":` between the subject and the expiration.
pub open spec fn claims_mid() -> Seq<u8> {
    seq![34u8, 44u8, 34u8, 101u8, 120u8, 112u8, 34u8, 58u8]
}

/// A subject the claims document can carry verbatim: non-empty,
/// printable ASCII, no quote, no backslash.
pub open spec fn valid_sub(s: Seq<u8>) -> bool {
    &&& s.len() > 0
    &&& forall|i: int|
        0 <= i < s.len() ==> 32 <= #[trigger] s[i] <= 126 && s[i] != 34 && s[i] != 92
}

/// The claims document for a subject and an expiration: a JSON object
/// with the subject first, spelled without escapes, and the expiration
/// as a canonical decimal.
pub open spec fn spec_claims_json(sub: Seq<u8>, exp: u64) -> Seq<u8> {
    claims_prefix() + sub + claims_mid() + spec_dec(exp as nat) + seq![125u8]
}

/// Reads a claims document. Exactly the byte strings that
/// `spec_claims_json` produces for a valid subject are accepted; the
/// subject is the text up to the first quote after the opening.
pub open spec fn spec_parse_claims(b: Seq<u8>) -> Option<(Seq<u8>, u64)> {
    if b.len() < 8 || b.take(8) != claims_prefix() {
        None
    } else {
        match b.skip(8).index_of_first(34u8) {
            None => None,
            Some(j) => {
                let sub = b.subrange(8, 8 + j);
                let quote = 8 + j;
                if !valid_sub(sub) {
                    None
                } else if b.len() < quote + 8 || b.subrange(quote, quote + 8) != claims_mid() {
                    None
                } else if b.len() < quote + 10 || b.last() != 125u8 {
                    None
                } else {
                    let digits = b.subrange(quote + 8, b.len() - 1);
                    if !valid_digits(digits) {
                        None
                    } else {
                        Some((sub, spec_dec_val(digits) as u64))
                    }
                }
            },
        }
    }
}

/// The opening bytes, as a value the code can write out.
fn claims_prefix_vec() -> (v: Vec<u8>)
    ensures
        v@ == claims_prefix(),
{
    let mut v: Vec<u8> = Vec::new();
    v.push(123);
    v.push(34);
    v.push(115);
    v.push(117);
    v.push(98);
    v.push(34);
    v.push(58);
    v.push(34);
    proof {
        assert(v@ =~= claims_prefix());
    }
    v
}

/// The middle bytes, as a value the code can write out.
fn claims_mid_vec() -> (v: Vec<u8>)
    ensures
        v@ == claims_mid(),
{
    let mut v: Vec<u8> = Vec::new();
    v.push(34);
    v.push(44);
    v.push(34);
    v.push(101);
    v.push(120);
    v.push(112);
    v.push(34);
    v.push(58);
    proof {
        assert(v@ =~= claims_mid());
    }
    v
}

/// Writes the claims document for a subject and an expiration.
pub fn encode_claims(sub: &[u8], exp: u64) -> (r: Vec<u8>)
    requires
        valid_sub(sub@),
    ensures
        r@ == spec_claims_json(sub@, exp),
{
    let mut out: Vec<u8> = Vec::new();
    let p = claims_prefix_vec();
    push_bytes(&mut out, p.as_slice());
    push_bytes(&mut out, sub);
    let m = claims_mid_vec();
    push_bytes(&mut out, m.as_slice());
    push_dec(exp, &mut out);
    out.push(125);
    proof {
        assert(out@ =~= spec_claims_json(sub@, exp));
    }
    out
}

/// Reads a claims document back: the subject bytes and the expiration.
#[verifier::loop_isolation(false)]
pub fn parse_claims(b: &[u8]) -> (r: Option<(Vec<u8>, u64)>)
    ensures
        match r {
            Some(p) => spec_parse_claims(b@) == Some((p.0@, p.1)) && valid_sub(p.0@),
            None => spec_parse_claims(b@) is None,
        },
{
    if b.len() < 8 {
        return None;
    }
    let p = claims_prefix_vec();
    if !window_eq(b, 0, p.as_slice()) {
        proof {
            assert(b@.take(8) =~= b@.subrange(0, 8));
        }
        return None;
    }
    proof {
        assert(b@.take(8) =~= b@.subrange(0, 8));
    }
    let ghost tail = b@.skip(8);
    let mut jq: usize = 8;
    let mut found: bool = false;
    while !found && jq < b.len()
        invariant
            8 <= jq <= b@.len(),
            forall|k: int| 8 <= k < jq ==> b@[k] != 34,
            found ==> jq < b@.len() && b@[jq as int] == 34,
        decreases b@.len() - jq + (if found { 0int } else { 1int }),
    {
        if b[jq] == 34 {
            found = true;
        } else {
            jq = jq + 1;
        }
    }
    if !found {
        proof {
            assert(forall|k: int| 0 <= k < tail.len() ==> tail[k] == b@[8 + k] && tail[k] != 34);
            lemma_index_of_first_none(tail, 34);
        }
        return None;
    }
    proof {
        assert(tail[jq - 8] == b@[jq as int]);
        assert(forall|k: int| 0 <= k < jq - 8 ==> tail[k] == b@[8 + k] && tail[k] != 34);
        lemma_index_of_first_is(tail, 34, jq - 8);
    }
    let quote_at: usize = jq;
    let ghost subs = b@.subrange(8, quote_at as int);
    if quote_at == 8 {
        return None;
    }
    let mut k: usize = 8;
    while k < quote_at
        invariant
            8 <= k <= quote_at <= b@.len(),
            forall|t: int| 8 <= t < k ==> 32 <= #[trigger] b@[t] <= 126 && b@[t] != 92,
        decreases quote_at - k,
    {
        let c = b[k];
        if c < 32 || c > 126 || c == 92 {
            proof {
                assert(8 <= k < quote_at);
                assert(subs.len() == quote_at - 8);
                assert(subs[k - 8] == b@[k as int]);
                assert(!valid_sub(subs));
            }
            return None;
        }
        k = k + 1;
    }
    proof {
        assert(forall|t: int|
            0 <= t < subs.len() ==> 32 <= #[trigger] subs[t] <= 126 && subs[t] != 34 && subs[t]
                != 92) by {
            assert(forall|t: int| 0 <= t < subs.len() ==> subs[t] == b@[8 + t]);
        }
        assert(valid_sub(subs));
    }
    if b.len() - quote_at < 8 {
        return None;
    }
    let m = claims_mid_vec();
    if !window_eq(b, quote_at, m.as_slice()) {
        return None;
    }
    if b.len() - quote_at < 10 {
        return None;
    }
    if b[b.len() - 1] != 125 {
        return None;
    }
    let digits = &b[quote_at + 8..b.len() - 1];
    match parse_dec(digits) {
        None => {
            return None;
        },
        Some(v) => {
            let sub = vstd::slice::slice_to_vec(&b[8..quote_at]);
            proof {
                lemma_dec_val_nonneg(digits@);
            }
            Some((sub, v))
        },
    }
}

/// Reading back what was written yields the subject and expiration
/// that were written: the claims codec round-trips.
pub proof fn lemma_parse_of_encode(sub: Seq<u8>, exp: u64)
    requires
        valid_sub(sub),
    ensures
        spec_parse_claims(spec_claims_json(sub, exp)) == Some((sub, exp)),
{
    let b = spec_claims_json(sub, exp);
    let d = spec_dec(exp as nat);
    crate::dec::lemma_dec_valid(exp);
    crate::dec::lemma_dec_val_of_dec(exp as nat);
    assert(b.len() == 17 + sub.len() + d.len());
    assert(b.take(8) =~= claims_prefix());
    let tail = b.skip(8);
    assert(tail[sub.len() as int] == 34);
    assert(forall|k: int| 0 <= k < sub.len() ==> tail[k] == sub[k]);
    lemma_index_of_first_is(tail, 34, sub.len() as int);
    let quote = 8 + sub.len() as int;
    assert(b.subrange(8, quote) =~= sub);
    assert(b.subrange(quote, quote + 8) =~= claims_mid());
    assert(b.last() == 125);
    assert(b.subrange(quote + 8, b.len() - 1) =~= d);
    assert(b.len() >= quote + 10);
}

} // verus!
