//! The decomposition-based overflow check: a value is witnessed as
//! `acc_cols` big-endian limbs of `max_bits` bits, each limb is looked up in
//! a fixed table of all `max_bits`-bit integers, and an equality gate binds
//! the weighted sum of the limbs back to the value.  A value too wide for
//! the limbs has no witness that satisfies both.

use crate::utils::{
    be_limbs_value, lemma_be_limbs_value_push, lemma_pow2_le, limbs_in_range, lookup_value,
    pow2_u128,
};
use crate::Error;
use vstd::arithmetic::div_mod::{lemma_basic_div, lemma_div_denominator, lemma_fundamental_div_mod};
use vstd::arithmetic::power2::{lemma2_to64, lemma_pow2_adds, lemma_pow2_pos, pow2};
use vstd::prelude::*;

verus! {

/// Shape of the decomposition check: `acc_cols` big-endian limbs of
/// `max_bits` bits.
#[derive(Clone, Copy, Debug, PartialEq, Eq, Structural)]
pub struct OverflowCheckV2Config {
    pub max_bits: usize,
    pub acc_cols: usize,
}

impl OverflowCheckV2Config {
    /// A well-formed shape, as for the carry-safe accumulator.
    pub open spec fn wf(&self) -> bool {
        &&& 1 <= self.max_bits <= 32
        &&& 1 <= self.acc_cols
        &&& self.max_bits * self.acc_cols <= 120
    }
}

/// The decomposition-based overflow check chip.
#[derive(Clone, Copy, Debug)]
pub struct OverflowChipV2 {
    pub config: OverflowCheckV2Config,
}

impl OverflowChipV2 {
    /// The chip is well formed when its configuration is.
    pub open spec fn wf(&self) -> bool {
        self.config.wf()
    }

    pub fn construct(config: OverflowCheckV2Config) -> (r: Self)
        ensures
            r.config == config,
    {
        Self { config }
    }

    /// Build-time shape check: accepts exactly the well-formed
    /// configurations.
    pub fn configure(max_bits: usize, acc_cols: usize) -> (r: Result<OverflowCheckV2Config, Error>)
        ensures
            match r {
                Ok(config) => config.wf() && config.max_bits == max_bits && config.acc_cols
                    == acc_cols,
                Err(e) => e == Error::Synthesis && !(OverflowCheckV2Config {
                    max_bits,
                    acc_cols,
                }).wf(),
            },
    {
        if 1 <= max_bits && max_bits <= 32 && 1 <= acc_cols {
            match max_bits.checked_mul(acc_cols) {
                Some(prod) => {
                    if prod <= 120 {
                        Ok(OverflowCheckV2Config { max_bits, acc_cols })
                    } else {
                        Err(Error::Synthesis)
                    }
                },
                None => Err(Error::Synthesis),
            }
        } else {
            Err(Error::Synthesis)
        }
    }

    /// Loads the fixed range table: every integer in `[0, 2^max_bits)`,
    /// in order.
    pub fn load(&self) -> (r: Vec<u64>)
        requires
            self.wf(),
        ensures
            r.len() == pow2(self.config.max_bits as nat),
            forall|i: int| 0 <= i < r.len() ==> r[i] == i,
    {
        proof {
            lemma2_to64();
            lemma_pow2_le(self.config.max_bits as nat, 32);
        }
        let bound = pow2_u128(self.config.max_bits) as u64;
        let mut table: Vec<u64> = Vec::new();
        let mut v: u64 = 0;
        while v < bound
            invariant
                table.len() == v <= bound,
                forall|i: int| 0 <= i < v ==> table[i] == i,
            decreases bound - v,
        {
            table.push(v);
            v = v + 1;
        }
        table
    }

    /// Witnesses the big-endian limb decomposition of `update_value` and
    /// checks each limb against the range table.  Succeeds exactly when the
    /// value fits the configured width; the limbs then decode to the value,
    /// which is what the equality gate of the chip enforces.
    pub fn assign(&self, update_value: u64, table: &Vec<u64>) -> (r: Result<Vec<u64>, Error>)
        requires
            self.wf(),
            table.len() == pow2(self.config.max_bits as nat),
            forall|i: int| 0 <= i < table.len() ==> table[i] == i,
        ensures
            ({
                let bits = self.config.max_bits as nat;
                let n = self.config.acc_cols as int;
                match r {
                    Ok(dec) => {
                        &&& update_value < pow2(bits * n as nat)
                        &&& dec.len() == n
                        &&& limbs_in_range(dec@, bits)
                        &&& be_limbs_value(dec@, bits) == update_value
                    },
                    Err(e) => e == Error::OutOfRange && update_value >= pow2(bits * n as nat),
                }
            }),
    {
        let bits = self.config.max_bits;
        let n = self.config.acc_cols;
        let ghost bitsn = bits as nat;
        proof {
            lemma2_to64();
            lemma_pow2_le(bitsn, 32);
            lemma_pow2_pos(bitsn);
        }
        let p = pow2_u128(bits) as u64;
        let total_bits = bits * n;
        let p_total = pow2_u128(total_bits);
        if update_value as u128 >= p_total {
            return Err(Error::OutOfRange);
        }
        proof {
            lemma_basic_div(update_value as int, p_total as int);
        }
        let mut dec: Vec<u64> = Vec::new();
        let mut i: usize = 0;
        while i < n
            invariant
                1 <= bits <= 32,
                bitsn == bits as nat,
                1 <= n,
                bits * n <= 120,
                p == pow2(bitsn),
                p <= 0x1_0000_0000,
                i <= n,
                dec.len() == i,
                limbs_in_range(dec@, bitsn),
                be_limbs_value(dec@, bitsn) == update_value as int / pow2(
                    (bits * (n - i)) as nat,
                ) as int,
            decreases n - i,
        {
            proof {
                assert(0 <= bits * (n - 1 - i) && bits * (n - 1 - i) <= 120) by (nonlinear_arith)
                    requires
                        bits * n <= 120,
                        0 <= i < n,
                        1 <= bits,
                ;
            }
            let shift = bits * (n - 1 - i);
            let (x, _rem) = crate::utils::div_rem_pow2(update_value as u128, shift);
            let (q, limb) = crate::utils::div_rem_pow2(x, bits);
            proof {
                lemma_pow2_pos((bits * (n - 1 - i)) as nat);
                lemma_pow2_pos(bitsn);
                lemma_div_denominator(
                    update_value as int,
                    pow2((bits * (n - 1 - i)) as nat) as int,
                    pow2(bitsn) as int,
                );
                lemma_pow2_adds((bits * (n - 1 - i)) as nat, bitsn);
                assert(bits * (n - 1 - i) + bits == bits * (n - i)) by (nonlinear_arith)
                    requires i < n,
                ;
                lemma_fundamental_div_mod(x as int, pow2(bitsn) as int);
                lemma_be_limbs_value_push(dec@, bitsn, limb as u64);
                assert(x as int / pow2(bitsn) as int * pow2(bitsn) == be_limbs_value(dec@, bitsn)
                    * pow2(bitsn));
            }
            dec.push(limb as u64);
            i = i + 1;
            proof {
                assert((bits * (n - i)) as nat == (bits * (n - 1 - (i - 1))) as nat);
            }
        }
        proof {
            assert((bits * (n - n)) as nat == 0) by (nonlinear_arith);
            assert(pow2(0) == 1);
            assert(update_value as int / 1int == update_value as int);
        }
        // Each limb is in range, so each lookup against the table of all
        // `max_bits`-bit integers succeeds.
        let mut j: usize = 0;
        while j < n
            invariant
                dec.len() == n,
                limbs_in_range(dec@, bitsn),
                table.len() == pow2(bitsn),
                forall|k: int| 0 <= k < table.len() ==> table[k] == k,
                j <= n,
            decreases n - j,
        {
            let hit = lookup_value(table, dec[j]);
            proof {
                assert(table@[dec@[j as int] as int] == dec@[j as int]);
                assert(table@.contains(dec@[j as int]));
            }
            assert(hit);
            j = j + 1;
        }
        Ok(dec)
    }

    /// Binds a cell to a row of the public instance column.
    pub fn expose_public(&self, cell: u64, instance: &Vec<u64>, row: usize) -> (r: bool)
        ensures
            r <==> row < instance.len() && instance[row as int] == cell,
    {
        row < instance.len() && instance[row] == cell
    }
}

} // verus!
