//! Big-endian byte strings as natural numbers.

use vstd::prelude::*;

verus! {

/// The number that a big-endian byte string denotes; the empty string denotes zero.
pub open spec fn be_value(s: Seq<u8>) -> nat
    decreases s.len(),
{
    if s.len() == 0 {
        0
    } else {
        be_value(s.drop_last()) * 256 + s.last() as nat
    }
}

/// The shortest big-endian encoding of `n`: no leading zero byte, and empty for zero.
pub open spec fn encode_min(n: nat) -> Seq<u8>
    decreases n,
{
    if n == 0 {
        seq![]
    } else {
        encode_min(n / 256).push((n % 256) as u8)
    }
}

/// The big-endian encoding of `n` in exactly `k` bytes (its low `k` bytes where `n` is wider).
pub open spec fn encode_fixed(n: nat, k: nat) -> Seq<u8>
    decreases k,
{
    if k == 0 {
        seq![]
    } else {
        encode_fixed(n / 256, (k - 1) as nat).push((n % 256) as u8)
    }
}

/// `256` to the power `k`: one more than the largest value that `k` bytes hold.
pub open spec fn pow256(k: nat) -> nat
    decreases k,
{
    if k == 0 {
        1
    } else {
        256 * pow256((k - 1) as nat)
    }
}

/// `k` zero bytes.
pub open spec fn zeros(k: nat) -> Seq<u8> {
    Seq::new(k, |i: int| 0u8)
}

/// A byte string of length `k` denotes a value below `256^k`.
pub proof fn lemma_be_value_bound(s: Seq<u8>)
    ensures
        be_value(s) < pow256(s.len()),
    decreases s.len(),
{
    if s.len() > 0 {
        lemma_be_value_bound(s.drop_last());
        let a = be_value(s.drop_last());
        let p = pow256(s.drop_last().len());
        assert(a * 256 + (s.last() as nat) < 256 * p) by (nonlinear_arith)
            requires
                a < p,
                s.last() < 256,
        ;
    }
}

/// Decoding the shortest encoding of `n` gives `n` back, and that encoding has no
/// leading zero byte.
pub proof fn lemma_encode_min_value(n: nat)
    ensures
        be_value(encode_min(n)) == n,
        encode_min(n).len() == 0 || encode_min(n)[0] != 0,
        n == 0 <==> encode_min(n).len() == 0,
    decreases n,
{
    if n > 0 {
        lemma_encode_min_value(n / 256);
        let s = encode_min(n);
        assert(s.drop_last() =~= encode_min(n / 256));
        if n / 256 == 0 {
            assert(s[0] == (n % 256) as u8);
        } else {
            assert(s[0] == encode_min(n / 256)[0]);
        }
    }
}

/// The shortest encoding of a value below `256^k` takes at most `k` bytes.
pub proof fn lemma_encode_min_len(n: nat, k: nat)
    requires
        n < pow256(k),
    ensures
        encode_min(n).len() <= k,
    decreases n,
{
    if n > 0 {
        assert(k > 0);
        let p = pow256((k - 1) as nat);
        assert(n / 256 < p) by (nonlinear_arith)
            requires
                n < 256 * p,
        ;
        lemma_encode_min_len(n / 256, (k - 1) as nat);
    }
}

/// Zero bytes in front of a byte string do not change its value.
pub proof fn lemma_leading_zeros(k: nat, s: Seq<u8>)
    ensures
        be_value(zeros(k) + s) == be_value(s),
    decreases s.len(),
{
    if s.len() == 0 {
        lemma_zeros_value(k);
        assert(zeros(k) + s =~= zeros(k));
    } else {
        lemma_leading_zeros(k, s.drop_last());
        assert((zeros(k) + s).drop_last() =~= zeros(k) + s.drop_last());
    }
}

/// A string of zero bytes denotes zero.
pub proof fn lemma_zeros_value(k: nat)
    ensures
        be_value(zeros(k)) == 0,
    decreases k,
{
    if k > 0 {
        lemma_zeros_value((k - 1) as nat);
        assert(zeros(k).drop_last() =~= zeros((k - 1) as nat));
    }
}

/// A byte string denotes zero exactly when each of its bytes is zero.
pub proof fn lemma_zero_value_iff_zero_bytes(s: Seq<u8>)
    ensures
        be_value(s) == 0 <==> forall|i: int| 0 <= i < s.len() ==> s[i] == 0,
    decreases s.len(),
{
    if s.len() > 0 {
        let t = s.drop_last();
        lemma_zero_value_iff_zero_bytes(t);
        if be_value(s) == 0 {
            assert forall|i: int| 0 <= i < s.len() implies s[i] == 0 by {
                if i < t.len() {
                    assert(s[i] == t[i]);
                }
            }
        }
        if forall|i: int| 0 <= i < s.len() ==> s[i] == 0 {
            assert forall|i: int| 0 <= i < t.len() implies t[i] == 0 by {
                assert(t[i] == s[i]);
            }
        }
    }
}

/// The `k`-byte encoding of a value below `256^k` is its shortest encoding with
/// zero bytes in front.
pub proof fn lemma_encode_fixed_pads_min(n: nat, k: nat)
    requires
        n < pow256(k),
    ensures
        encode_min(n).len() <= k,
        encode_fixed(n, k) == zeros((k - encode_min(n).len()) as nat) + encode_min(n),
    decreases k,
{
    lemma_encode_min_len(n, k);
    if k == 0 {
        assert(encode_fixed(n, k) =~= zeros(0) + encode_min(n));
    } else {
        let p = pow256((k - 1) as nat);
        assert(n / 256 < p) by (nonlinear_arith)
            requires
                n < 256 * p,
        ;
        lemma_encode_fixed_pads_min(n / 256, (k - 1) as nat);
        let z = (k - encode_min(n).len()) as nat;
        if n == 0 {
            lemma_encode_fixed_zero(k);
            assert(encode_fixed(n, k) =~= zeros(z) + encode_min(n));
        } else {
            let zl = ((k - 1) as nat - encode_min(n / 256).len()) as nat;
            assert(z == zl);
            assert(encode_fixed(n, k) =~= zeros(z) + encode_min(n));
        }
    }
}

/// The `k`-byte encoding of zero is `k` zero bytes.
pub proof fn lemma_encode_fixed_zero(k: nat)
    ensures
        encode_fixed(0, k) == zeros(k),
    decreases k,
{
    if k > 0 {
        lemma_encode_fixed_zero((k - 1) as nat);
        assert(encode_fixed(0, k) =~= zeros(k));
    } else {
        assert(encode_fixed(0, k) =~= zeros(k));
    }
}

/// Whether a big-endian byte string denotes zero.
pub fn is_zero_bytes(s: &[u8]) -> (r: bool)
    ensures
        r == (be_value(s@) == 0),
{
    let mut i: usize = 0;
    while i < s.len()
        invariant
            i <= s.len(),
            forall|j: int| 0 <= j < i ==> s@[j] == 0,
        decreases s.len() - i,
    {
        if s[i] != 0 {
            proof {
                lemma_zero_value_iff_zero_bytes(s@);
                assert(s@[i as int] != 0);
            }
            return false;
        }
        i = i + 1;
    }
    proof {
        lemma_zero_value_iff_zero_bytes(s@);
    }
    true
}

/// Whether a big-endian byte string denotes one.
pub fn is_one_bytes(s: &[u8]) -> (r: bool)
    ensures
        r == (be_value(s@) == 1),
{
    if s.len() == 0 {
        return false;
    }
    let last: usize = s.len() - 1;
    proof {
        lemma_zero_value_iff_zero_bytes(s@.drop_last());
    }
    if s[last] != 1 {
        return false;
    }
    let mut i: usize = 0;
    while i < last
        invariant
            last == s@.len() - 1,
            i <= last,
            forall|j: int| 0 <= j < i ==> s@[j] == 0,
        decreases last - i,
    {
        if s[i] != 0 {
            proof {
                lemma_zero_value_iff_zero_bytes(s@.drop_last());
                assert(s@.drop_last()[i as int] != 0);
            }
            return false;
        }
        i = i + 1;
    }
    proof {
        lemma_zero_value_iff_zero_bytes(s@.drop_last());
        assert forall|j: int| 0 <= j < s@.drop_last().len() implies s@.drop_last()[j] == 0 by {
            assert(s@.drop_last()[j] == s@[j]);
        }
    }
    true
}

/// `v` right-aligned in `N` bytes, the bytes in front of it zero.
pub fn left_pad<const N: usize>(v: &[u8]) -> (r: [u8; N])
    requires
        v@.len() <= N,
    ensures
        r@ == zeros((N - v@.len()) as nat) + v@,
{
    let mut out = [0u8; N];
    let start: usize = N - v.len();
    let mut i: usize = 0;
    while i < v.len()
        invariant
            v@.len() <= N,
            start == N - v@.len(),
            i <= v@.len(),
            forall|j: int| 0 <= j < start ==> out@[j] == 0,
            forall|j: int| 0 <= j < i ==> out@[start + j] == v@[j],
            forall|j: int| start + i <= j < N ==> out@[j] == 0,
        decreases v.len() - i,
    {
        out[start + i] = v[i];
        i = i + 1;
    }
    assert(out@ =~= zeros((N - v@.len()) as nat) + v@);
    out
}

} // verus!
