use vstd::prelude::*;

verus! {

/// The decimal spelling of a number: non-empty ASCII digits, no
/// leading zero except for the number zero itself.
pub open spec fn spec_dec(n: nat) -> Seq<u8>
    decreases n,
{
    if n < 10 {
        seq![(48 + n) as u8]
    } else {
        spec_dec(n / 10).push((48 + n % 10) as u8)
    }
}

/// The value spelled by a sequence of ASCII digits.
pub open spec fn spec_dec_val(s: Seq<u8>) -> int
    decreases s.len(),
{
    if s.len() == 0 {
        0
    } else {
        spec_dec_val(s.drop_last()) * 10 + (s.last() - 48)
    }
}

/// A canonical decimal spelling of a value that fits a `u64`.
pub open spec fn valid_digits(s: Seq<u8>) -> bool {
    &&& s.len() > 0
    &&& forall|i: int| 0 <= i < s.len() ==> 48 <= #[trigger] s[i] <= 57
    &&& (s.len() > 1 ==> s[0] != 48)
    &&& spec_dec_val(s) <= u64::MAX
}

pub proof fn lemma_dec_val_of_dec(n: nat)
    ensures
        spec_dec_val(spec_dec(n)) == n,
    decreases n,
{
    if n < 10 {
        assert(spec_dec(n) =~= seq![(48 + n) as u8]);
        assert(spec_dec(n).drop_last() =~= Seq::<u8>::empty());
        assert(spec_dec(n).last() == (48 + n) as u8);
        assert(spec_dec_val(spec_dec(n)) == spec_dec_val(Seq::<u8>::empty()) * 10 + ((48 + n) as u8
            - 48));
    } else {
        lemma_dec_val_of_dec(n / 10);
        assert(spec_dec(n) =~= spec_dec(n / 10).push((48 + n % 10) as u8));
        assert(spec_dec(n).drop_last() =~= spec_dec(n / 10));
        assert(spec_dec(n).last() == (48 + n % 10) as u8);
        assert(spec_dec_val(spec_dec(n)) == (n / 10) * 10 + ((48 + n % 10) as u8 - 48));
        vstd::arithmetic::div_mod::lemma_fundamental_div_mod(n as int, 10);
    }
}

/// The spelling is made of digits, is non-empty, and has no leading
/// zero except when it spells zero.
pub proof fn lemma_dec_shape(n: nat)
    ensures
        spec_dec(n).len() > 0,
        forall|i: int| 0 <= i < spec_dec(n).len() ==> 48 <= #[trigger] spec_dec(n)[i] <= 57,
        n > 0 ==> spec_dec(n)[0] != 48,
        n == 0 ==> spec_dec(n) =~= seq![48u8],
    decreases n,
{
    if n >= 10 {
        lemma_dec_shape(n / 10);
    }
}

/// A canonical spelling of a `u64` value is accepted by the digit
/// parser's validity test.
pub proof fn lemma_dec_valid(n: u64)
    ensures
        valid_digits(spec_dec(n as nat)),
{
    lemma_dec_shape(n as nat);
    lemma_dec_val_of_dec(n as nat);
}

pub proof fn lemma_dec_val_nonneg(s: Seq<u8>)
    requires
        forall|i: int| 0 <= i < s.len() ==> 48 <= #[trigger] s[i] <= 57,
    ensures
        spec_dec_val(s) >= 0,
    decreases s.len(),
{
    if s.len() > 0 {
        lemma_dec_val_nonneg(s.drop_last());
    }
}

/// Extending a digit string never shrinks its value.
pub proof fn lemma_dec_val_prefix_le(s: Seq<u8>, i: int, j: int)
    requires
        forall|k: int| 0 <= k < s.len() ==> 48 <= #[trigger] s[k] <= 57,
        0 <= i <= j <= s.len(),
    ensures
        spec_dec_val(s.take(i)) <= spec_dec_val(s.take(j)),
    decreases j - i,
{
    if i < j {
        lemma_dec_val_prefix_le(s, i, j - 1);
        assert(s.take(j).drop_last() =~= s.take(j - 1));
        assert(forall|k: int| 0 <= k < s.take(j - 1).len() ==> 48 <= #[trigger] s.take(
            j - 1,
        )[k] <= 57);
        lemma_dec_val_nonneg(s.take(j - 1));
    }
}

/// Appends the decimal spelling of `n`.
pub fn push_dec(n: u64, out: &mut Vec<u8>)
    ensures
        final(out)@ == old(out)@ + spec_dec(n as nat),
    decreases n,
{
    if n < 10 {
        out.push(48 + n as u8);
        assert(out@ =~= old(out)@ + spec_dec(n as nat));
    } else {
        push_dec(n / 10, out);
        out.push(48 + (n % 10) as u8);
        assert(out@ =~= old(out)@ + spec_dec(n as nat));
    }
}

/// Reads a canonical decimal spelling; refuses anything else: an empty
/// string, a non-digit, a leading zero, a value over `u64::MAX`.
pub fn parse_dec(s: &[u8]) -> (r: Option<u64>)
    ensures
        match r {
            Some(v) => valid_digits(s@) && spec_dec_val(s@) == v,
            None => !valid_digits(s@),
        },
{
    if s.len() == 0 {
        return None;
    }
    if s.len() > 1 && s[0] == 48 {
        return None;
    }
    let mut acc: u64 = 0;
    let mut i: usize = 0;
    while i < s.len()
        invariant
            0 <= i <= s@.len(),
            s@.len() > 0,
            s@.len() > 1 ==> s@[0] != 48,
            forall|k: int| 0 <= k < i ==> 48 <= #[trigger] s@[k] <= 57,
            spec_dec_val(s@.take(i as int)) == acc,
        decreases s@.len() - i,
    {
        let b = s[i];
        if b < 48 || b > 57 {
            return None;
        }
        let d: u64 = (b - 48) as u64;
        proof {
            assert(s@.take(i + 1).drop_last() =~= s@.take(i as int));
        }
        let shifted = match acc.checked_mul(10) {
            Some(x) => x,
            None => {
                proof {
                    overflow_means_invalid(s@, i as int, acc as int * 10 + d);
                }
                return None;
            },
        };
        let next = match shifted.checked_add(d) {
            Some(x) => x,
            None => {
                proof {
                    overflow_means_invalid(s@, i as int, acc as int * 10 + d);
                }
                return None;
            },
        };
        acc = next;
        i = i + 1;
    }
    proof {
        assert(s@.take(i as int) =~= s@);
    }
    Some(acc)
}

/// If the value read so far already exceeds `u64::MAX`, the whole
/// digit string does too.
proof fn overflow_means_invalid(s: Seq<u8>, i: int, partial: int)
    requires
        0 <= i < s.len(),
        forall|k: int| 0 <= k <= i ==> 48 <= #[trigger] s[k] <= 57,
        spec_dec_val(s.take(i + 1)) == partial,
        partial > u64::MAX,
    ensures
        !valid_digits(s),
{
    if forall|k: int| 0 <= k < s.len() ==> 48 <= #[trigger] s[k] <= 57 {
        lemma_dec_val_prefix_le(s, i + 1, s.len() as int);
        assert(s.take(s.len() as int) =~= s);
    }
}

} // verus!
