//! Decomposition of a wide unsigned integer into fixed-width limbs, the
//! witness-generation side of every range-checked column of the accumulator.

use crate::utils::{div_rem_pow2, lemma_pow2_le};
use vstd::arithmetic::div_mod::lemma_div_denominator;
use vstd::arithmetic::power2::{lemma2_to64, lemma2_to64_rest, lemma_pow2_adds, lemma_pow2_pos, pow2};
use vstd::prelude::*;

verus! {

/// Limb `i` of the little-endian base-`2^bit_len` decomposition of `e`.
pub open spec fn limb_of(e: int, bit_len: nat, i: int) -> int {
    (e / pow2(bit_len * i as nat) as int) % pow2(bit_len) as int
}

/// Decomposes `e` into `number_of_limbs` limbs of `bit_len` bits each,
/// little-endian: the limb at index 0 is the least significant.  Bits of `e`
/// beyond the requested limbs are dropped.
#[allow(non_snake_case)]
pub fn decompose_bigInt_to_ubits(e: u128, number_of_limbs: usize, bit_len: usize) -> (r: Vec<u64>)
    requires
        1 <= bit_len <= 64,
    ensures
        r.len() == number_of_limbs,
        forall|i: int| 0 <= i < number_of_limbs ==> r[i] == limb_of(e as int, bit_len as nat, i),
{
    let mut out: Vec<u64> = Vec::new();
    let mut cur: u128 = e;
    let mut j: usize = 0;
    proof {
        lemma2_to64();
        assert(bit_len * 0 == 0) by (nonlinear_arith);
        assert(pow2((bit_len * 0) as nat) == 1);
        assert(e as int / 1int == e as int);
    }
    while j < number_of_limbs
        invariant
            1 <= bit_len <= 64,
            j <= number_of_limbs,
            out.len() == j,
            cur == e as int / pow2((bit_len * j) as nat) as int,
            forall|i: int| 0 <= i < j ==> out[i] == limb_of(e as int, bit_len as nat, i),
        decreases number_of_limbs - j,
    {
        proof {
            lemma2_to64();
            lemma2_to64_rest();
            lemma_pow2_le(bit_len as nat, 64);
        }
        let (q, rm) = div_rem_pow2(cur, bit_len);
        proof {
            lemma_pow2_pos((bit_len * j) as nat);
            lemma_pow2_pos(bit_len as nat);
            lemma_div_denominator(
                e as int,
                pow2((bit_len * j) as nat) as int,
                pow2(bit_len as nat) as int,
            );
            lemma_pow2_adds((bit_len * j) as nat, bit_len as nat);
            assert(bit_len * j + bit_len == bit_len * (j + 1)) by (nonlinear_arith);
        }
        out.push(rm as u64);
        cur = q;
        j = j + 1;
    }
    out
}

} // verus!
