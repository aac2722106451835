use vstd::prelude::*;

use vstd::arithmetic::div_mod::lemma_div_denominator;
use vstd::arithmetic::div_mod::lemma_fundamental_div_mod;

verus! {

/// A structured user identifier: the 128-bit value behind the
/// hyphenated hexadecimal spelling that travels in a token's subject.
#[derive(Clone, Copy, Debug, PartialEq, Eq, Structural, Hash)]
pub struct UserId {
    pub value: u128,
}

/// Sixteen to a power.
pub open spec fn pow16(e: nat) -> nat
    decreases e,
{
    if e == 0 {
        1
    } else {
        16 * pow16((e - 1) as nat)
    }
}

/// The hexadecimal digit of a value below sixteen, lower case.
pub open spec fn hex_digit(d: int) -> u8 {
    if d < 10 {
        (48 + d) as u8
    } else {
        (87 + d) as u8
    }
}

/// The value of a hexadecimal digit byte, either case; `-1` for
/// anything else.
pub open spec fn hex_val(b: u8) -> int {
    if 48 <= b <= 57 {
        b - 48
    } else if 97 <= b <= 102 {
        b - 87
    } else if 65 <= b <= 70 {
        b - 55
    } else {
        -1
    }
}

/// The `j`-th hexadecimal digit of a value, counting from the least
/// significant.
pub open spec fn nib_lsb(v: u128, j: nat) -> int {
    (((v as nat) / pow16(j)) % 16) as int
}

/// Where the `k`-th of the 32 digits stands in the 36-byte spelling:
/// the hyphens sit after the 8th, 12th, 16th and 20th digit.
pub open spec fn uuid_pos(k: int) -> int {
    if k < 8 {
        k
    } else if k < 12 {
        k + 1
    } else if k < 16 {
        k + 2
    } else if k < 20 {
        k + 3
    } else {
        k + 4
    }
}

/// Whether a position of the 36-byte spelling holds a hyphen.
pub open spec fn is_hyphen_pos(i: int) -> bool {
    i == 8 || i == 13 || i == 18 || i == 23
}

/// The digit slot a non-hyphen position belongs to.
pub open spec fn digit_index(i: int) -> int {
    if i < 8 {
        i
    } else if i < 13 {
        i - 1
    } else if i < 18 {
        i - 2
    } else if i < 23 {
        i - 3
    } else {
        i - 4
    }
}

/// The canonical spelling of an identifier: 32 lower-case hexadecimal
/// digits, most significant first, hyphenated 8-4-4-4-12.
pub open spec fn spec_uuid_bytes(v: u128) -> Seq<u8> {
    Seq::new(
        36,
        |i: int|
            if is_hyphen_pos(i) {
                45u8
            } else {
                hex_digit(nib_lsb(v, (31 - digit_index(i)) as nat))
            },
    )
}

/// The 32 digit bytes of a 36-byte spelling, in order.
pub open spec fn uuid_digits(b: Seq<u8>) -> Seq<u8> {
    Seq::new(32, |k: int| b[uuid_pos(k)])
}

/// The value of a string of hexadecimal digit bytes, most significant
/// first.
pub open spec fn spec_hex_seq_val(d: Seq<u8>) -> int
    decreases d.len(),
{
    if d.len() == 0 {
        0
    } else {
        spec_hex_seq_val(d.drop_last()) * 16 + hex_val(d.last())
    }
}

pub open spec fn all_hex(d: Seq<u8>) -> bool {
    forall|k: int| 0 <= k < d.len() ==> hex_val(#[trigger] d[k]) >= 0
}

/// Reads a hyphenated hexadecimal spelling: 36 bytes, hyphens in the
/// canonical places, digits of either case elsewhere; anything else is
/// refused.
pub open spec fn spec_parse_uuid(b: Seq<u8>) -> Option<u128> {
    if b.len() == 36 && b[8] == 45 && b[13] == 45 && b[18] == 45 && b[23] == 45 && all_hex(
        uuid_digits(b),
    ) {
        Some(spec_hex_seq_val(uuid_digits(b)) as u128)
    } else {
        None
    }
}

/// A string of hexadecimal digits spells a value below sixteen to its
/// length.
pub proof fn lemma_hex_seq_val_bound(d: Seq<u8>)
    requires
        all_hex(d),
    ensures
        0 <= spec_hex_seq_val(d) < pow16(d.len()),
    decreases d.len(),
{
    if d.len() > 0 {
        assert(forall|k: int|
            0 <= k < d.drop_last().len() ==> hex_val(#[trigger] d.drop_last()[k]) >= 0);
        lemma_hex_seq_val_bound(d.drop_last());
        assert(hex_val(d.last()) <= 15);
    }
}

/// Every digit of a value's spelling reads back as itself.
pub proof fn lemma_hex_digit_val(d: int)
    requires
        0 <= d < 16,
    ensures
        hex_val(hex_digit(d)) == d,
{
}

/// Dropping one digit from the low end divides the value by sixteen.
proof fn lemma_nib_step(v: u128, j: nat)
    ensures
        (v as nat) / pow16(j) / 16 == (v as nat) / pow16(j + 1),
        pow16(j) > 0,
    decreases j,
{
    lemma_pow16_pos(j);
    lemma_div_denominator(v as int, pow16(j) as int, 16);
    assert(pow16(j) * 16 == 16 * pow16(j)) by (nonlinear_arith);
    assert(pow16(j + 1) == 16 * pow16(j));
}

proof fn lemma_pow16_pos(j: nat)
    ensures
        pow16(j) > 0,
    decreases j,
{
    if j > 0 {
        lemma_pow16_pos((j - 1) as nat);
    }
}

/// The first `m` digits of a value's spelling, most significant first,
/// spell the value shifted down by the remaining digits.
proof fn lemma_uuid_val_prefix(v: u128, m: nat)
    requires
        m <= 32,
    ensures
        spec_hex_seq_val(Seq::new(m, |k: int| hex_digit(nib_lsb(v, (31 - k) as nat)))) == (
        v as nat) / pow16((32 - m) as nat),
    decreases m,
{
    let d = Seq::new(m, |k: int| hex_digit(nib_lsb(v, (31 - k) as nat)));
    if m == 0 {
        lemma_pow16_bigger_than_u128();
        lemma_pow16_pos(32);
        vstd::arithmetic::div_mod::lemma_basic_div(v as int, pow16(32) as int);
    } else {
        lemma_uuid_val_prefix(v, (m - 1) as nat);
        assert(d.drop_last() =~= Seq::new((m - 1) as nat, |k: int| hex_digit(nib_lsb(v, (31 - k) as nat))));
        let y = (v as nat) / pow16((32 - m) as nat);
        lemma_nib_step(v, (32 - m) as nat);
        assert((v as nat) / pow16((33 - m) as nat) == y / 16);
        assert(nib_lsb(v, (32 - m) as nat) == y % 16);
        assert(hex_val(d.last()) == y % 16) by {
            lemma_hex_digit_val((y % 16) as int);
        }
        lemma_fundamental_div_mod(y as int, 16);
    }
}

/// The whole spelling has 2^128 states: sixteen to the 32nd power.
proof fn lemma_pow16_bigger_than_u128()
    ensures
        pow16(32) == 0x100000000000000000000000000000000nat,
{
    reveal_with_fuel(pow16, 33);
}

/// The spelling uses only hyphens and printable hexadecimal digits, so
/// it is a subject a claims document can carry.
pub proof fn lemma_uuid_bytes_valid_sub(v: u128)
    ensures
        crate::claims::valid_sub(spec_uuid_bytes(v)),
{
    assert forall|j: nat| 0 <= #[trigger] nib_lsb(v, j) < 16 by {
        lemma_pow16_pos(j);
    }
    assert(forall|i: int|
        0 <= i < spec_uuid_bytes(v).len() ==> 32 <= #[trigger] spec_uuid_bytes(v)[i] <= 126
            && spec_uuid_bytes(v)[i] != 34 && spec_uuid_bytes(v)[i] != 92);
}

/// Reading a value's spelling back yields the value: the identifier
/// codec round-trips.
pub proof fn lemma_uuid_round_trip(v: u128)
    ensures
        spec_parse_uuid(spec_uuid_bytes(v)) == Some(v),
{
    let b = spec_uuid_bytes(v);
    let d = uuid_digits(b);
    assert forall|j: nat| 0 <= #[trigger] nib_lsb(v, j) < 16 by {
        lemma_pow16_pos(j);
    }
    assert forall|k: int| 0 <= k < 32 implies hex_val(#[trigger] d[k]) >= 0 by {
        assert(d[k] == b[uuid_pos(k)]);
        assert(!is_hyphen_pos(uuid_pos(k)));
        assert(digit_index(uuid_pos(k)) == k);
        lemma_hex_digit_val(nib_lsb(v, (31 - k) as nat));
    }
    assert(d =~= Seq::new(32, |k: int| hex_digit(nib_lsb(v, (31 - k) as nat))));
    lemma_uuid_val_prefix(v, 32);
    assert((v as nat) / pow16(0) == v as nat) by {
        vstd::arithmetic::div_mod::lemma_div_basics(v as int);
    }
    assert(spec_hex_seq_val(d) == v as nat);
}

/// Writes the canonical spelling of an identifier.
#[verifier::loop_isolation(false)]
pub fn user_id_bytes(id: UserId) -> (r: Vec<u8>)
    ensures
        r@ == spec_uuid_bytes(id.value),
{
    let ghost v = id.value;
    let mut tmp: Vec<u8> = Vec::new();
    let mut x: u128 = id.value;
    let mut j: usize = 0;
    proof {
        assert(pow16(0) == 1);
        vstd::arithmetic::div_mod::lemma_div_basics(v as int);
    }
    while j < 32
        invariant
            0 <= j <= 32,
            tmp@.len() == j,
            x as nat == (v as nat) / pow16(j as nat),
            forall|k: int| 0 <= k < j ==> tmp@[k] == hex_digit(nib_lsb(v, k as nat)),
        decreases 32 - j,
    {
        let d: u8 = (x % 16) as u8;
        proof {
            assert(nib_lsb(v, j as nat) == (x as nat) % 16);
            assert(0 <= (x as nat) % 16 < 16);
            lemma_nib_step(v, j as nat);
        }
        if d < 10 {
            tmp.push(48 + d);
        } else {
            tmp.push(87 + d);
        }
        x = x / 16;
        j = j + 1;
    }
    let mut out: Vec<u8> = Vec::new();
    let mut i: usize = 0;
    while i < 36
        invariant
            0 <= i <= 36,
            out@.len() == i,
            tmp@.len() == 32,
            forall|k: int| 0 <= k < 32 ==> tmp@[k] == hex_digit(nib_lsb(v, k as nat)),
            forall|t: int| 0 <= t < i ==> out@[t] == spec_uuid_bytes(v)[t],
        decreases 36 - i,
    {
        if i == 8 || i == 13 || i == 18 || i == 23 {
            out.push(45);
        } else {
            let di: usize = if i < 8 {
                i
            } else if i < 13 {
                i - 1
            } else if i < 18 {
                i - 2
            } else if i < 23 {
                i - 3
            } else {
                i - 4
            };
            out.push(tmp[31 - di]);
        }
        i = i + 1;
    }
    proof {
        assert(out@ =~= spec_uuid_bytes(v));
    }
    out
}

/// Reads a hyphenated hexadecimal spelling back into an identifier;
/// refuses anything that is not one.
#[verifier::loop_isolation(false)]
pub fn parse_user_id(b: &[u8]) -> (r: Option<UserId>)
    ensures
        match r {
            Some(id) => spec_parse_uuid(b@) == Some(id.value),
            None => spec_parse_uuid(b@) is None,
        },
{
    if b.len() != 36 {
        return None;
    }
    if b[8] != 45 || b[13] != 45 || b[18] != 45 || b[23] != 45 {
        return None;
    }
    let ghost d = uuid_digits(b@);
    let mut acc: u128 = 0;
    let mut k: usize = 0;
    while k < 32
        invariant
            0 <= k <= 32,
            b@.len() == 36,
            forall|t: int| 0 <= t < k ==> hex_val(#[trigger] d[t]) >= 0,
            acc as int == spec_hex_seq_val(d.take(k as int)),
        decreases 32 - k,
    {
        let pos: usize = if k < 8 {
            k
        } else if k < 12 {
            k + 1
        } else if k < 16 {
            k + 2
        } else if k < 20 {
            k + 3
        } else {
            k + 4
        };
        let c = b[pos];
        let hv: u8 = if 48 <= c && c <= 57 {
            (c - 48) as u8
        } else if 97 <= c && c <= 102 {
            (c - 87) as u8
        } else if 65 <= c && c <= 70 {
            (c - 55) as u8
        } else {
            proof {
                assert(d[k as int] == b@[uuid_pos(k as int)]);
                assert(hex_val(d[k as int]) < 0);
            }
            return None;
        };
        proof {
            assert(d[k as int] == b@[uuid_pos(k as int)]);
            assert(hex_val(d[k as int]) == hv as int);
            assert(d.take(k + 1).drop_last() =~= d.take(k as int));
            assert(forall|t: int| 0 <= t < k + 1 ==> hex_val(#[trigger] d.take(k + 1)[t]) >= 0);
            lemma_hex_seq_val_bound(d.take(k + 1));
            lemma_hex_seq_val_bound(d.take(k as int));
            lemma_pow16_mono((k + 1) as nat);
        }
        acc = acc * 16 + hv as u128;
        k = k + 1;
    }
    proof {
        assert(d.take(32) =~= d);
        assert(all_hex(d));
    }
    Some(UserId { value: acc })
}

/// Sixteen to a power up to the 32nd stays within the 128-bit range.
proof fn lemma_pow16_mono(e: nat)
    requires
        e <= 32,
    ensures
        pow16(e) <= 0x100000000000000000000000000000000nat,
    decreases 32 - e,
{
    if e == 32 {
        lemma_pow16_bigger_than_u128();
    } else {
        lemma_pow16_mono(e + 1);
        lemma_pow16_pos(e);
    }
}

} // verus!
