//! What holds of every exponentiation, stated over the functions' own contracts.

use vstd::prelude::*;
use vstd::arithmetic::power::{lemma_pow0, lemma_pow1, lemma0_pow};
use vstd::arithmetic::div_mod::lemma_small_mod;
use crate::encoding::{
    be_value, encode_fixed, encode_min, pow256, zeros, lemma_be_value_bound, lemma_encode_fixed_pads_min,
    lemma_encode_min_value, lemma_leading_zeros, lemma_zero_value_iff_zero_bytes,
};
use crate::modexp::modexp_value;

verus! {

/// The result in `n` bytes, for any `n` at least as long as the modulus, is the
/// shortest encoding of the result with zero bytes in front.
pub proof fn lemma_fixed_width_padding(base: Seq<u8>, exponent: Seq<u8>, modulus: Seq<u8>, n: nat)
    requires
        be_value(modulus) > 0,
        modulus.len() <= n,
    ensures
        encode_min(modexp_value(base, exponent, modulus)).len() <= n,
        encode_fixed(modexp_value(base, exponent, modulus), n) == zeros(
            (n - encode_min(modexp_value(base, exponent, modulus)).len()) as nat,
        ) + encode_min(modexp_value(base, exponent, modulus)),
{
    lemma_be_value_bound(modulus);
    lemma_pow256_monotone(modulus.len(), n);
    lemma_encode_fixed_pads_min(modexp_value(base, exponent, modulus), n);
}

proof fn lemma_pow256_monotone(j: nat, k: nat)
    requires
        j <= k,
    ensures
        pow256(j) <= pow256(k),
    decreases k,
{
    if j < k {
        lemma_pow256_monotone(j, (k - 1) as nat);
    }
}

/// An empty exponent gives one, or nothing at all modulo one.
pub proof fn lemma_exponent_zero(base: Seq<u8>, modulus: Seq<u8>)
    requires
        be_value(modulus) > 0,
    ensures
        be_value(modulus) != 1 ==> encode_min(modexp_value(base, seq![], modulus)) == seq![1u8],
        be_value(modulus) == 1 ==> encode_min(modexp_value(base, seq![], modulus)) == Seq::<u8>::empty(),
{
    lemma_pow0(be_value(base) as int);
    assert(be_value(seq![]) == 0);
    if be_value(modulus) != 1 {
        lemma_small_mod(1, be_value(modulus));
        assert(modexp_value(base, seq![], modulus) == 1);
        assert(encode_min(1) =~= seq![1u8]) by {
            assert(encode_min(0) =~= Seq::<u8>::empty());
        }
    }
}

/// An empty base gives zero for every exponent that is not zero.
pub proof fn lemma_base_zero(exponent: Seq<u8>, modulus: Seq<u8>)
    requires
        be_value(exponent) != 0,
        be_value(modulus) > 0,
    ensures
        encode_min(modexp_value(seq![], exponent, modulus)) == Seq::<u8>::empty(),
{
    assert(be_value(seq![]) == 0);
    lemma0_pow(be_value(exponent));
}

/// A modulus whose bytes are all zero denotes zero, and is refused.
pub proof fn lemma_zero_modulus(modulus: Seq<u8>)
    requires
        forall|i: int| 0 <= i < modulus.len() ==> modulus[i] == 0,
    ensures
        be_value(modulus) == 0,
{
    lemma_zero_value_iff_zero_bytes(modulus);
}

/// Raising a result to the power one under the same modulus gives it back.
pub proof fn lemma_rereduction(base: Seq<u8>, exponent: Seq<u8>, modulus: Seq<u8>)
    requires
        be_value(modulus) > 0,
    ensures
        encode_min(modexp_value(encode_min(modexp_value(base, exponent, modulus)), seq![1u8], modulus))
            == encode_min(modexp_value(base, exponent, modulus)),
{
    let v = modexp_value(base, exponent, modulus);
    lemma_encode_min_value(v);
    lemma_be_value_one();
    lemma_pow1(v as int);
    lemma_small_mod(v, be_value(modulus));
}

proof fn lemma_be_value_one()
    ensures
        be_value(seq![1u8]) == 1,
{
    let s = seq![1u8];
    assert(s.drop_last() =~= Seq::<u8>::empty());
    assert(be_value(s.drop_last()) == 0);
    assert(s.last() == 1u8);
}

/// Zero bytes in front of the base, the exponent or the modulus change nothing.
pub proof fn lemma_leading_zeros_ignored(
    base: Seq<u8>,
    exponent: Seq<u8>,
    modulus: Seq<u8>,
    i: nat,
    j: nat,
    k: nat,
)
    ensures
        be_value(zeros(k) + modulus) == be_value(modulus),
        modexp_value(zeros(i) + base, zeros(j) + exponent, zeros(k) + modulus)
            == modexp_value(base, exponent, modulus),
{
    lemma_leading_zeros(i, base);
    lemma_leading_zeros(j, exponent);
    lemma_leading_zeros(k, modulus);
}

} // verus!
