//! `base^exponent mod modulus` on big-endian byte strings.

use vstd::prelude::*;
use vstd::arithmetic::power::pow;
use crate::encoding::{
    be_value, encode_fixed, encode_min, is_one_bytes, is_zero_bytes, left_pad,
    lemma_be_value_bound, lemma_encode_fixed_pads_min,
};

verus! {

/// Why an exponentiation could not be carried out.
#[derive(Clone, Copy, Debug, PartialEq, Eq, Structural)]
pub enum ModExpError {
    /// The modulus denotes zero: there is no ring of residues modulo zero.
    InvalidModulus,
}

/// `b^e mod m` on natural numbers.
pub open spec fn mod_pow(b: nat, e: nat, m: nat) -> nat
    recommends
        m > 0,
{
    (pow(b as int, e) % (m as int)) as nat
}

/// `base^exponent mod modulus`, each operand a big-endian byte string.
pub open spec fn modexp_value(base: Seq<u8>, exponent: Seq<u8>, modulus: Seq<u8>) -> nat
    recommends
        be_value(modulus) > 0,
{
    mod_pow(be_value(base), be_value(exponent), be_value(modulus))
}

/// Relies on dashu: `UBig::from_be_bytes` reads each operand, `ConstDivisor::new`
/// builds the ring modulo `modulus` (it panics on zero), `ConstDivisor::reduce`
/// takes the base into it, `Reduced::pow` raises it to the exponent, `Reduced::residue`
/// gives the representative in `0..modulus`, and `UBig::to_be_bytes` writes it
/// without leading zero bytes. Modulus one is left out: there dashu's ring
/// element one has residue 1 rather than 0.
#[verifier::external_body]
fn dashu_mod_pow(base: &[u8], exponent: &[u8], modulus: &[u8]) -> (r: Vec<u8>)
    requires
        be_value(modulus@) > 1,
    ensures
        r@ == encode_min(modexp_value(base@, exponent@, modulus@)),
{
    let ring = dashu::integer::fast_div::ConstDivisor::new(
        dashu::integer::UBig::from_be_bytes(modulus),
    );
    let reduced = ring.reduce(dashu::integer::UBig::from_be_bytes(base));
    let exponent = dashu::integer::UBig::from_be_bytes(exponent);
    reduced.pow(&exponent).residue().to_be_bytes().into_vec()
}

/// The residue of `base^exponent` modulo `modulus`, in its shortest big-endian
/// encoding; `InvalidModulus` exactly when the modulus denotes zero.
pub fn big_mod_exp(base: &[u8], exponent: &[u8], modulus: &[u8]) -> (r: Result<Vec<u8>, ModExpError>)
    ensures
        r is Err <==> be_value(modulus@) == 0,
        r is Err ==> r->Err_0 == ModExpError::InvalidModulus,
        r is Ok ==> r->Ok_0@ == encode_min(modexp_value(base@, exponent@, modulus@)),
{
    if is_zero_bytes(modulus) {
        return Err(ModExpError::InvalidModulus);
    }
    if is_one_bytes(modulus) {
        proof {
            assert(modexp_value(base@, exponent@, modulus@) == 0);
        }
        return Ok(Vec::new());
    }
    Ok(dashu_mod_pow(base, exponent, modulus))
}

/// The residue of `base^exponent` modulo `modulus`, right-aligned in `N` bytes
/// with zero bytes in front; `InvalidModulus` exactly when the modulus denotes zero.
pub fn big_mod_exp_fixed<const N: usize>(base: &[u8], exponent: &[u8], modulus: &[u8; N]) -> (r: Result<[u8; N], ModExpError>)
    ensures
        r is Err <==> be_value(modulus@) == 0,
        r is Err ==> r->Err_0 == ModExpError::InvalidModulus,
        r is Ok ==> r->Ok_0@ == encode_fixed(modexp_value(base@, exponent@, modulus@), N as nat),
{
    let m: &[u8] = modulus.as_slice();
    match big_mod_exp(base, exponent, m) {
        Err(e) => Err(e),
        Ok(v) => {
            let ghost n = modexp_value(base@, exponent@, modulus@);
            proof {
                lemma_be_value_bound(modulus@);
                lemma_encode_fixed_pads_min(n, N as nat);
            }
            Ok(left_pad::<N>(v.as_slice()))
        },
    }
}

/// One exponentiation request: base, exponent and modulus, each a big-endian
/// byte string of its own length.
#[derive(Clone, Debug)]
pub struct BigModExpParams {
    base: Vec<u8>,
    exponent: Vec<u8>,
    modulus: Vec<u8>,
}

impl BigModExpParams {
    /// The base's bytes.
    pub closed spec fn base_spec(&self) -> Seq<u8> {
        self.base@
    }

    /// The exponent's bytes.
    pub closed spec fn exponent_spec(&self) -> Seq<u8> {
        self.exponent@
    }

    /// The modulus's bytes.
    pub closed spec fn modulus_spec(&self) -> Seq<u8> {
        self.modulus@
    }

    /// A request for `base^exponent mod modulus`.
    pub fn new(base: Vec<u8>, exponent: Vec<u8>, modulus: Vec<u8>) -> (r: Self)
        ensures
            r.base_spec() == base@,
            r.exponent_spec() == exponent@,
            r.modulus_spec() == modulus@,
    {
        BigModExpParams { base, exponent, modulus }
    }

    /// The base, big-endian.
    pub fn base(&self) -> (r: &[u8])
        ensures
            r@ == self.base_spec(),
    {
        self.base.as_slice()
    }

    /// The exponent, big-endian.
    pub fn exponent(&self) -> (r: &[u8])
        ensures
            r@ == self.exponent_spec(),
    {
        self.exponent.as_slice()
    }

    /// The modulus, big-endian.
    pub fn modulus(&self) -> (r: &[u8])
        ensures
            r@ == self.modulus_spec(),
    {
        self.modulus.as_slice()
    }

    /// Carries out the request: see [`big_mod_exp`].
    pub fn big_mod_exp(&self) -> (r: Result<Vec<u8>, ModExpError>)
        ensures
            r is Err <==> be_value(self.modulus_spec()) == 0,
            r is Err ==> r->Err_0 == ModExpError::InvalidModulus,
            r is Ok ==> r->Ok_0@ == encode_min(
                modexp_value(self.base_spec(), self.exponent_spec(), self.modulus_spec()),
            ),
    {
        big_mod_exp(self.base.as_slice(), self.exponent.as_slice(), self.modulus.as_slice())
    }
}

} // verus!
