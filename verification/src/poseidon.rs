//! The Poseidon hash, consumed as a black box: a collision-resistant 4-ary
//! hash over field elements, `hash(a, b, c, d) -> digest`.  Field elements
//! cross this boundary as their canonical four little-endian 64-bit words;
//! what the permutation returns is named, not restated.

use ff::PrimeField;
use halo2_gadgets::poseidon::primitives::{ConstantLength, P128Pow5T3};
use pasta_curves::Fp;
use vstd::prelude::*;

verus! {

/// A field element, carried as four little-endian 64-bit words of its
/// canonical representation.
#[derive(Clone, Copy, Debug, PartialEq, Eq, Structural)]
pub struct Digest {
    pub w0: u64,
    pub w1: u64,
    pub w2: u64,
    pub w3: u64,
}

impl View for Digest {
    type V = Seq<u64>;

    open spec fn view(&self) -> Seq<u64> {
        seq![self.w0, self.w1, self.w2, self.w3]
    }
}

impl Digest {
    /// The field element of a small integer.
    pub fn from_u64(v: u64) -> (r: Digest)
        ensures
            r@ == seq![v, 0u64, 0u64, 0u64],
    {
        Digest { w0: v, w1: 0, w2: 0, w3: 0 }
    }
}

/// The digest the Poseidon hash returns for the four absorbed elements: the
/// two child hashes with each child's balance beside it.
pub uninterp spec fn poseidon_digest(
    left_hash: Seq<u64>,
    left_balance: u64,
    right_hash: Seq<u64>,
    right_balance: u64,
) -> Seq<u64>;

/// Relies on `halo2_gadgets::poseidon::primitives::Hash` over the Pallas
/// base field (`P128Pow5T3`, `ConstantLength<4>`): a pure sponge whose
/// digest depends on the four absorbed field elements alone.
#[verifier::external_body]
pub(crate) fn poseidon4(
    left_hash: &Digest,
    left_balance: u64,
    right_hash: &Digest,
    right_balance: u64,
) -> (r: Digest)
    ensures
        r@ == poseidon_digest(left_hash@, left_balance, right_hash@, right_balance),
{
    let d = halo2_gadgets::poseidon::primitives::Hash::<Fp, P128Pow5T3, ConstantLength<4>, 3, 2>::init().hash([
        Fp::from_raw([left_hash.w0, left_hash.w1, left_hash.w2, left_hash.w3]),
        Fp::from(left_balance),
        Fp::from_raw([right_hash.w0, right_hash.w1, right_hash.w2, right_hash.w3]),
        Fp::from(right_balance),
    ]);
    let b = d.to_repr();
    Digest {
        w0: u64::from_le_bytes(b[0..8].try_into().unwrap()),
        w1: u64::from_le_bytes(b[8..16].try_into().unwrap()),
        w2: u64::from_le_bytes(b[16..24].try_into().unwrap()),
        w3: u64::from_le_bytes(b[24..32].try_into().unwrap()),
    }
}

} // verus!
