use vstd::prelude::*;

verus! {

/// A position holds the needle, nothing earlier does: that position is
/// the first occurrence.
pub proof fn lemma_index_of_first_is(s: Seq<u8>, x: u8, j: int)
    requires
        0 <= j < s.len(),
        s[j] == x,
        forall|k: int| 0 <= k < j ==> s[k] != x,
    ensures
        s.index_of_first(x) == Some(j),
{
    s.index_of_first_ensures(x);
    assert(s.contains(x));
    match s.index_of_first(x) {
        Some(i) => {
            if i < j {
                assert(s[i] != x);
            } else if i > j {
                assert(s[j] != x);
            }
        },
        None => {},
    }
}

/// No position holds the needle: there is no first occurrence.
pub proof fn lemma_index_of_first_none(s: Seq<u8>, x: u8)
    requires
        forall|k: int| 0 <= k < s.len() ==> s[k] != x,
    ensures
        s.index_of_first(x) is None,
{
    s.index_of_first_ensures(x);
    match s.index_of_first(x) {
        Some(i) => {
            assert(s[i] != x);
        },
        None => {},
    }
}

/// Appends a byte string.
pub fn push_bytes(out: &mut Vec<u8>, s: &[u8])
    ensures
        final(out)@ == old(out)@ + s@,
{
    let mut i: usize = 0;
    while i < s.len()
        invariant
            0 <= i <= s@.len(),
            out@ == old(out)@ + s@.take(i as int),
        decreases s@.len() - i,
    {
        out.push(s[i]);
        proof {
            assert(old(out)@ + s@.take(i + 1) =~= (old(out)@ + s@.take(i as int)).push(
                s@[i as int],
            ));
        }
        i = i + 1;
    }
    proof {
        assert(s@.take(s@.len() as int) =~= s@);
    }
}

/// Compares a window of `b` starting at `at` against `pat`.
pub fn window_eq(b: &[u8], at: usize, pat: &[u8]) -> (r: bool)
    requires
        at + pat@.len() <= b@.len(),
    ensures
        r == (b@.subrange(at as int, at + pat@.len()) == pat@),
{
    let (_, rest) = b.split_at(at);
    let mut i: usize = 0;
    while i < pat.len()
        invariant
            0 <= i <= pat@.len(),
            at + pat@.len() <= b@.len(),
            rest@ == b@.subrange(at as int, b@.len() as int),
            forall|k: int| 0 <= k < i ==> b@[at + k] == pat@[k],
        decreases pat@.len() - i,
    {
        if rest[i] != pat[i] {
            proof {
                assert(b@.subrange(at as int, at + pat@.len())[i as int] != pat@[i as int]);
            }
            return false;
        }
        proof {
            assert(b@[at + i] == rest@[i as int]);
        }
        i = i + 1;
    }
    proof {
        assert(b@.subrange(at as int, at + pat@.len()) =~= pat@);
    }
    true
}

} // verus!
