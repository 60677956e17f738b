//! The byte-decomposition less-than chip: to compare `lhs < rhs` over
//! values below `2^(8 * N_BYTES)`, the prover witnesses a boolean outcome
//! `lt` and the byte decomposition of `lhs - rhs + lt * 2^(8 * N_BYTES)`;
//! a constraint `lhs - rhs - diff + lt * range = 0`, with the bytes range
//! checked, admits only the correct outcome.

use crate::utils::{le_limbs_value, lemma_le_limbs_value_push, lemma_pow2_le, pow2_u128};
use vstd::arithmetic::div_mod::{lemma_basic_div, lemma_div_denominator};
use vstd::arithmetic::power2::{lemma2_to64, lemma2_to64_rest, lemma_pow2_adds, lemma_pow2_pos, pow2};
use vstd::prelude::*;

verus! {

/// The less-than gate: `lhs - rhs - diff + lt * range = 0`.
pub open spec fn lt_gate_holds(lhs: int, rhs: int, diff: int, lt: int, range: int) -> bool {
    lhs - rhs - diff + lt * range == 0
}

/// Soundness of the less-than gate: with `lt` boolean, `diff` range checked
/// and both operands below the range, the constraint admits exactly the correct
/// comparison outcome.
pub proof fn lemma_lt_gate_sound(lhs: int, rhs: int, diff: int, lt: int, range: int)
    requires
        0 <= lhs < range,
        0 <= rhs < range,
        0 <= diff < range,
        lt == 0 || lt == 1,
        lt_gate_holds(lhs, rhs, diff, lt, range),
    ensures
        lt == 1 <==> lhs < rhs,
{
    if lt == 0 {
        assert(lt * range == 0) by (nonlinear_arith)
            requires lt == 0,
        ;
    } else {
        assert(lt * range == range) by (nonlinear_arith)
            requires lt == 1,
        ;
    }
}

/// Shape of the byte-decomposition less-than chip: the number of bytes both
/// operands fit in.
#[derive(Clone, Copy, Debug, PartialEq, Eq, Structural)]
pub struct LtConfig {
    pub n_bytes: usize,
}

impl LtConfig {
    /// A well-formed shape: at least one byte, and a range a pair of
    /// machine words can carry.
    pub open spec fn wf(&self) -> bool {
        1 <= self.n_bytes <= 15
    }

    /// The range `2^(8 * n_bytes)` within which both operands must lie.
    pub open spec fn range(&self) -> int {
        pow2((8 * self.n_bytes) as nat) as int
    }
}

/// The byte-decomposition less-than chip.
#[derive(Clone, Copy, Debug)]
pub struct LtChip {
    pub config: LtConfig,
}

impl LtChip {
    /// The chip is well formed when its configuration is.
    pub open spec fn wf(&self) -> bool {
        self.config.wf()
    }

    pub fn construct(config: LtConfig) -> (r: Self)
        ensures
            r.config == config,
    {
        Self { config }
    }

    /// Build-time shape check: accepts exactly the well-formed widths.
    pub fn configure(n_bytes: usize) -> (r: Result<LtConfig, crate::Error>)
        ensures
            match r {
                Ok(config) => config.wf() && config.n_bytes == n_bytes,
                Err(e) => e == crate::Error::Synthesis && !(LtConfig { n_bytes }).wf(),
            },
    {
        if 1 <= n_bytes && n_bytes <= 15 {
            Ok(LtConfig { n_bytes })
        } else {
            Err(crate::Error::Synthesis)
        }
    }

    /// Witness assignment: the comparison outcome and the little-endian
    /// byte decomposition of the shifted difference.  The returned witness
    /// satisfies the comparison constraint, the bytes decode to the difference cell, and the
    /// outcome is the true comparison.
    pub fn assign(&self, lhs: u64, rhs: u64) -> (r: (u64, Vec<u64>))
        requires
            self.wf(),
            lhs < self.config.range(),
            rhs < self.config.range(),
        ensures
            ({
                let (lt, diff_bytes) = r;
                let diff = le_limbs_value(diff_bytes@, 8);
                &&& lt <= 1
                &&& (lt == 1 <==> lhs < rhs)
                &&& diff_bytes.len() == self.config.n_bytes
                &&& forall|i: int| 0 <= i < diff_bytes.len() ==> diff_bytes[i] < 256
                &&& 0 <= diff < self.config.range()
                &&& lt_gate_holds(lhs as int, rhs as int, diff, lt as int, self.config.range())
            }),
    {
        let n_bytes = self.config.n_bytes;
        proof {
            lemma2_to64();
            lemma2_to64_rest();
            lemma_pow2_le((8 * n_bytes) as nat, 120);
            lemma_pow2_adds(64, 56);
            assert(pow2(120) == 0x10000000000000000 * 0x100000000000000);
        }
        let range = pow2_u128(8 * n_bytes);
        let lt: u64 = if lhs < rhs {
            1
        } else {
            0
        };
        let diff: u128 = if lhs < rhs {
            lhs as u128 + range - rhs as u128
        } else {
            (lhs - rhs) as u128
        };
        proof {
            if lt == 1 {
                assert(lt * pow2((8 * n_bytes) as nat) == pow2((8 * n_bytes) as nat))
                    by (nonlinear_arith)
                    requires lt == 1,
                ;
            } else {
                assert(lt * pow2((8 * n_bytes) as nat) == 0) by (nonlinear_arith)
                    requires lt == 0,
                ;
            }
        }
        let mut diff_bytes: Vec<u64> = Vec::new();
        let mut remaining: u128 = diff;
        let mut k: usize = 0;
        proof {
            assert(8 * 0 == 0) by (nonlinear_arith);
            assert(pow2(0) == 1);
            assert(diff as int / 1int == diff as int);
        }
        while k < n_bytes
            invariant
                1 <= n_bytes <= 15,
                k <= n_bytes,
                diff_bytes.len() == k,
                forall|i: int| 0 <= i < k ==> diff_bytes[i] < 256,
                remaining == diff as int / pow2((8 * k) as nat) as int,
                le_limbs_value(diff_bytes@, 8) + remaining * pow2((8 * k) as nat) == diff,
            decreases n_bytes - k,
        {
            let (q, byte) = crate::utils::div_rem_pow2(remaining, 8);
            proof {
                lemma2_to64();
                lemma_pow2_pos((8 * k) as nat);
                lemma_pow2_pos(8);
                lemma_div_denominator(diff as int, pow2((8 * k) as nat) as int, pow2(8) as int);
                lemma_pow2_adds((8 * k) as nat, 8);
                assert(8 * k + 8 == 8 * (k + 1)) by (nonlinear_arith);
                lemma_le_limbs_value_push(diff_bytes@, 8, byte as u64);
                assert(8 * diff_bytes@.len() == 8 * k);
                let pk = pow2((8 * k) as nat) as int;
                let pk1 = pow2((8 * (k + 1)) as nat) as int;
                assert((q * pow2(8) + byte) * pk == q * pk1 + byte * pk) by (nonlinear_arith)
                    requires pk1 == pk * pow2(8),
                ;
            }
            diff_bytes.push(byte as u64);
            remaining = q;
            k = k + 1;
        }
        proof {
            lemma_pow2_pos((8 * n_bytes) as nat);
            lemma_basic_div(diff as int, pow2((8 * n_bytes) as nat) as int);
            assert(remaining == 0);
            assert(remaining * pow2((8 * n_bytes) as nat) == 0) by (nonlinear_arith)
                requires remaining == 0,
            ;
        }
        (lt, diff_bytes)
    }
}

} // verus!
