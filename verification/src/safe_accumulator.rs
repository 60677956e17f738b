//! The carry-safe accumulator: a big unsigned total held as `acc_cols`
//! big-endian limbs of `max_bits` bits each.  Each update adds a bounded
//! increment, re-derives the limbs with one boolean carry per limb boundary,
//! and reads the most significant limb as the overflow indicator.
//!
//! The per-boundary carry identities are the row-local form of the "add"
//! gate; `lemma_acc_gate_value` is the soundness argument that those local
//! identities, together with the range checks, pin the global addition down.

use crate::utils::{
    be_limbs_value, boolean_gate_holds, lemma_be_limbs_value_bounds, lemma_be_limbs_value_head,
    lemma_pow2_le, lemma_sum_of_take_le, lemma_sum_of_take_step, limbs_in_range, pow2_u128,
    range_check, range_check_vec, sum_of,
};
use crate::Error;
use vstd::arithmetic::power2::{lemma2_to64, lemma_pow2_adds, pow2};
use vstd::prelude::*;

verus! {

/// Shape of the accumulator: `acc_cols` big-endian limbs of `max_bits` bits.
#[derive(Clone, Copy, Debug, PartialEq, Eq, Structural)]
pub struct SafeAccumulatorConfig {
    pub max_bits: usize,
    pub acc_cols: usize,
}

impl SafeAccumulatorConfig {
    /// A well-formed shape: positive limb width and count, and a total width
    /// that a pair of machine words can carry through the update arithmetic.
    pub open spec fn wf(&self) -> bool {
        &&& 1 <= self.max_bits <= 32
        &&& 1 <= self.acc_cols
        &&& self.max_bits * self.acc_cols <= 120
    }
}

/// The carry-safe accumulator chip.
#[derive(Clone, Copy, Debug)]
pub struct SafeACcumulatorChip {
    pub config: SafeAccumulatorConfig,
}

/// The row-local identities of the "add" gate, over the previous limbs, the
/// per-boundary carries and the updated limbs (all big-endian, index 0 most
/// significant): the new value plus the previous least significant limb
/// splits into a carry and the new least significant limb, and each further
/// limb absorbs the carry from its right.  `carries[i]` is the carry out of
/// limb `i`; `carries[0]` is the carry out of the whole vector.
pub open spec fn acc_gate_holds(
    value: int,
    prev: Seq<u64>,
    carries: Seq<u64>,
    updated: Seq<u64>,
    bits: nat,
) -> bool {
    let n = prev.len() as int;
    &&& n >= 1
    &&& carries.len() == n
    &&& updated.len() == n
    &&& value + prev[n - 1] == carries[n - 1] * pow2(bits) + updated[n - 1]
    &&& forall|i: int|
        0 <= i < n - 1 ==> prev[i] + #[trigger] carries[i + 1] == carries[i] * pow2(bits)
            + updated[i]
}

/// Every carry satisfies the boolean gate.
pub open spec fn carries_boolean(carries: Seq<u64>) -> bool {
    forall|i: int| 0 <= i < carries.len() ==> boolean_gate_holds(#[trigger] carries[i] as int)
}

/// Soundness of the "add" gate: if the local carry identities hold, the
/// updated limbs encode the previous value plus the increment, up to the
/// carry out of the whole vector.
pub proof fn lemma_acc_gate_value(
    value: int,
    prev: Seq<u64>,
    carries: Seq<u64>,
    updated: Seq<u64>,
    bits: nat,
)
    requires
        acc_gate_holds(value, prev, carries, updated, bits),
    ensures
        be_limbs_value(updated, bits) + carries[0] * pow2(bits * prev.len()) == be_limbs_value(
            prev,
            bits,
        ) + value,
    decreases prev.len(),
{
    let n = prev.len() as int;
    let p = pow2(bits) as int;
    if n == 1 {
        assert(bits * 1 == bits) by (nonlinear_arith);
        assert(prev.drop_last() =~= Seq::<u64>::empty());
        assert(updated.drop_last() =~= Seq::<u64>::empty());
    } else {
        let prev_f = prev.drop_last();
        let carries_f = carries.drop_last();
        let updated_f = updated.drop_last();
        assert(acc_gate_holds(carries.last() as int, prev_f, carries_f, updated_f, bits)) by {
            assert forall|i: int|
                0 <= i < n - 2 implies prev_f[i] + #[trigger] carries_f[i + 1] == carries_f[i]
                * pow2(bits) + updated_f[i] by {
                assert(prev[i] + carries[i + 1] == carries[i] * pow2(bits) + updated[i]);
            }
            let j = n - 2;
            assert(prev[j] + carries[j + 1] == carries[j] * pow2(bits) + updated[j]);
        }
        lemma_acc_gate_value(carries.last() as int, prev_f, carries_f, updated_f, bits);
        let q = pow2(bits * (n - 1) as nat) as int;
        let r = pow2(bits * n as nat) as int;
        lemma_pow2_adds(bits * (n - 1) as nat, bits);
        assert(bits * (n - 1) + bits == bits * n) by (nonlinear_arith)
            requires n >= 2,
        ;
        let vu = be_limbs_value(updated_f, bits);
        let vp = be_limbs_value(prev_f, bits);
        let c0 = carries[0] as int;
        let cl = carries.last() as int;
        assert(vu * p + updated.last() + c0 * r == vp * p + prev.last() + value)
            by (nonlinear_arith)
            requires
                vu + c0 * q == vp + cl,
                value + prev.last() == cl * p + updated.last(),
                r == q * p,
        ;
    }
}

impl SafeACcumulatorChip {
    /// The chip is well formed when its configuration is.
    pub open spec fn wf(&self) -> bool {
        self.config.wf()
    }

    pub fn construct(config: SafeAccumulatorConfig) -> (r: Self)
        ensures
            r.config == config,
    {
        Self { config }
    }

    /// Build-time shape check: accepts exactly the well-formed
    /// configurations.
    pub fn configure(max_bits: usize, acc_cols: usize) -> (r: Result<
        SafeAccumulatorConfig,
        Error,
    >)
        ensures
            match r {
                Ok(config) => config.wf() && config.max_bits == max_bits && config.acc_cols
                    == acc_cols,
                Err(e) => e == Error::Synthesis && !(SafeAccumulatorConfig {
                    max_bits,
                    acc_cols,
                }).wf(),
            },
    {
        if 1 <= max_bits && max_bits <= 32 && 1 <= acc_cols {
            match max_bits.checked_mul(acc_cols) {
                Some(prod) => {
                    if prod <= 120 {
                        Ok(SafeAccumulatorConfig { max_bits, acc_cols })
                    } else {
                        Err(Error::Synthesis)
                    }
                },
                None => Err(Error::Synthesis),
            }
        } else {
            Err(Error::Synthesis)
        }
    }

    /// One accumulator update: adds `update_value` to the total encoded by
    /// `accumulated_values` and returns the updated limbs together with the
    /// boolean carry witnessed at each limb boundary.
    ///
    /// With `enforce_no_overflow` set (the "overflow" selector),
    /// an update whose total reaches the overflow limb is rejected; without
    /// it the overflow limb is left observable, and only a total that
    /// exceeds even the overflow limb's own range check is rejected.
    pub fn assign(
        &self,
        update_value: u64,
        accumulated_values: &Vec<u64>,
        enforce_no_overflow: bool,
    ) -> (r: Result<(Vec<u64>, Vec<u64>), Error>)
        requires
            self.wf(),
            accumulated_values.len() == self.config.acc_cols,
        ensures
            ({
            let bits = self.config.max_bits as nat;
            let n = self.config.acc_cols as int;
            let prev = accumulated_values@;
            let total = be_limbs_value(prev, bits) + update_value;
            let inputs_ok = update_value < pow2(bits) && limbs_in_range(prev, bits);
            match r {
                Ok((updated, carries)) => {
                    &&& inputs_ok
                    &&& total < pow2(bits * n as nat)
                    &&& updated.len() == n
                    &&& carries.len() == n
                    &&& limbs_in_range(updated@, bits)
                    &&& carries_boolean(carries@)
                    &&& acc_gate_holds(update_value as int, prev, carries@, updated@, bits)
                    &&& be_limbs_value(updated@, bits) == total
                    &&& (updated@[0] != 0 <==> total >= pow2(bits * (n - 1) as nat))
                    &&& (enforce_no_overflow ==> updated@[0] == 0)
                },
                Err(Error::OutOfRange) => !inputs_ok,
                Err(Error::Overflow) => {
                    &&& inputs_ok
                    &&& if enforce_no_overflow {
                        total >= pow2(bits * (n - 1) as nat)
                    } else {
                        total >= pow2(bits * n as nat)
                    }
                },
                _ => false,
            }
        }),
    {
        let bits = self.config.max_bits;
        let n = self.config.acc_cols;
        proof {
            lemma2_to64();
            lemma_pow2_le(bits as nat, 32);
        }
        let p = pow2_u128(bits) as u64;
        if !range_check(update_value, p) || !range_check_vec(accumulated_values, p) {
            return Err(Error::OutOfRange);
        }
        let ghost prev = accumulated_values@;
        let mut new_rev: Vec<u64> = Vec::new();
        let mut carries_rev: Vec<u64> = Vec::new();
        let mut carry: u64 = 0;
        let mut k: usize = 0;
        while k < n
            invariant
                1 <= bits <= 32,
                1 <= n,
                p == pow2(bits as nat),
                p <= 0x1_0000_0000,
                prev == accumulated_values@,
                prev.len() == n,
                update_value < p,
                limbs_in_range(prev, bits as nat),
                new_rev.len() == k,
                carries_rev.len() == k,
                k <= n,
                forall|j: int| 0 <= j < k ==> #[trigger] new_rev[j] < p,
                forall|j: int| 0 <= j < k ==> #[trigger] carries_rev[j] <= 1,
                k > 0 ==> carry == carries_rev[k - 1],
                k == 0 ==> carry == 0,
                k > 0 ==> update_value + prev[n - 1] == carries_rev[0] * pow2(bits as nat)
                    + new_rev[0],
                forall|j: int|
                    1 <= j < k ==> prev[n - 1 - j] + #[trigger] carries_rev[j - 1] == carries_rev[j]
                        * pow2(bits as nat) + new_rev[j],
            decreases n - k,
        {
            let incoming: u64 = if k == 0 {
                update_value
            } else {
                carry
            };
            let sum: u64 = accumulated_values[n - 1 - k] + incoming;
            let (c, limb): (u64, u64) = if sum >= p {
                (1, sum - p)
            } else {
                (0, sum)
            };
            proof {
                let pp = p as int;
                assert(c * pp + limb == sum) by (nonlinear_arith)
                    requires
                        (c == 1 && limb + pp == sum) || (c == 0 && limb == sum),
                ;
            }
            new_rev.push(limb);
            carries_rev.push(c);
            carry = c;
            k = k + 1;
        }
        let mut updated: Vec<u64> = Vec::new();
        let mut carries: Vec<u64> = Vec::new();
        let mut i: usize = 0;
        while i < n
            invariant
                new_rev.len() == n,
                carries_rev.len() == n,
                i <= n,
                updated.len() == i,
                carries.len() == i,
                forall|j: int| 0 <= j < i ==> updated[j] == new_rev[n - 1 - j],
                forall|j: int| 0 <= j < i ==> carries[j] == carries_rev[n - 1 - j],
            decreases n - i,
        {
            updated.push(new_rev[n - 1 - i]);
            carries.push(carries_rev[n - 1 - i]);
            i = i + 1;
        }
        proof {
            let bitsn = bits as nat;
            let nn = n as int;
            assert(acc_gate_holds(update_value as int, prev, carries@, updated@, bitsn)) by {
                assert(update_value + prev[nn - 1] == carries@[nn - 1] * pow2(bitsn)
                    + updated@[nn - 1]);
                assert(forall|i2: int|
                    0 <= i2 < nn - 1 ==> prev[i2] + #[trigger] carries@[i2 + 1] == carries@[i2]
                        * pow2(bitsn) + updated@[i2]) by {
                    assert(forall|j: int|
                        1 <= j < nn ==> prev[nn - 1 - j] + #[trigger] carries_rev@[j - 1]
                            == carries_rev@[j] * pow2(bitsn) + new_rev@[j]);
                    assert forall|i2: int| 0 <= i2 < nn - 1 implies prev[i2]
                        + #[trigger] carries@[i2 + 1] == carries@[i2] * pow2(bitsn)
                        + updated@[i2] by {
                        let j = nn - 1 - i2;
                        assert(prev[nn - 1 - j] + carries_rev@[j - 1] == carries_rev@[j] * pow2(
                            bitsn,
                        ) + new_rev@[j]);
                        assert(carries@[i2 + 1] == carries_rev@[j - 1]);
                        assert(carries@[i2] == carries_rev@[j]);
                        assert(updated@[i2] == new_rev@[j]);
                    }
                }
            }
            assert(limbs_in_range(updated@, bitsn)) by {
                assert forall|j: int| 0 <= j < nn implies #[trigger] updated@[j] < pow2(bitsn) by {
                    assert(updated@[j] == new_rev@[nn - 1 - j]);
                    assert(new_rev@[nn - 1 - j] < p);
                }
            }
            lemma_acc_gate_value(update_value as int, prev, carries@, updated@, bitsn);
            lemma_be_limbs_value_bounds(updated@, bitsn);
            lemma_be_limbs_value_bounds(prev, bitsn);
            assert(carries_boolean(carries@)) by {
                assert forall|j: int| 0 <= j < nn implies boolean_gate_holds(
                    #[trigger] carries@[j] as int,
                ) by {
                    assert(carries@[j] == carries_rev@[nn - 1 - j]);
                    assert(carries@[j] <= 1);
                    assert(carries@[j] as int * (1 - carries@[j] as int) == 0) by (nonlinear_arith)
                        requires carries@[j] == 0 || carries@[j] == 1,
                    ;
                }
            }
            assert(bitsn * nn as nat >= bitsn * (nn - 1) as nat) by (nonlinear_arith)
                requires nn >= 1,
            ;
            lemma_pow2_le(bitsn * (nn - 1) as nat, bitsn * nn as nat);
        }
        let ghost bitsn = bits as nat;
        let ghost nn = n as int;
        let ghost total = be_limbs_value(prev, bitsn) + update_value;
        if carries[0] != 0 {
            // The total does not fit the limb vector at all: the range check
            // on the overflow limb itself cannot be satisfied.
            proof {
                assert(total >= pow2(bitsn * nn as nat)) by {
                    assert(be_limbs_value(updated@, bitsn) + carries@[0] * pow2(bitsn * nn as nat)
                        == total);
                    assert(carries@[0] >= 1);
                    assert(carries@[0] * pow2(bitsn * nn as nat) >= pow2(bitsn * nn as nat))
                        by (nonlinear_arith)
                        requires carries@[0] >= 1,
                    ;
                }
            }
            return Err(Error::Overflow);
        }
        proof {
            assert(carries@[0] * pow2(bitsn * nn as nat) == 0) by (nonlinear_arith)
                requires carries@[0] == 0,
            ;
            assert(be_limbs_value(updated@, bitsn) == total);
            lemma_be_limbs_value_head(updated@, bitsn);
            lemma_be_limbs_value_bounds(updated@.subrange(1, nn), bitsn);
            assert(updated@[0] != 0 <==> total >= pow2(bitsn * (nn - 1) as nat)) by {
                let q = pow2(bitsn * (nn - 1) as nat) as int;
                let tail = be_limbs_value(updated@.subrange(1, nn), bitsn);
                assert(updated@.subrange(1, nn).len() == nn - 1);
                assert(total == updated@[0] * q + tail);
                assert(0 <= tail < q);
                if updated@[0] != 0 {
                    assert(updated@[0] * q >= q) by (nonlinear_arith)
                        requires updated@[0] >= 1, q >= 0,
                    ;
                } else {
                    assert(updated@[0] * q == 0) by (nonlinear_arith)
                        requires updated@[0] == 0,
                    ;
                }
            }
        }
        if enforce_no_overflow && updated[0] != 0 {
            // The "overflow" selector forces the is-zero expression of the
            // overflow limb to 1, which a nonzero limb cannot satisfy.
            return Err(Error::Overflow);
        }
        Ok((updated, carries))
    }
}

/// The accumulator circuit: an initial limb vector and a stream of values to
/// fold into it, one update row per value, with the overflow prohibition
/// active on every row.
pub struct SafeAccumulatorCircuit {
    pub values: Vec<u64>,
    pub accumulated_value: Vec<u64>,
}

impl SafeAccumulatorCircuit {
    /// Runs every update in order and returns the final limb vector, the
    /// circuit's public output.  Succeeds exactly when the initial limbs and
    /// every value pass their range checks and the grand total stays below
    /// the overflow limb; the final limbs then decode to the initial value
    /// plus the sum of all values, and the overflow limb is zero.
    pub fn synthesize(&self, chip: &SafeACcumulatorChip) -> (r: Result<Vec<u64>, Error>)
        requires
            chip.wf(),
            self.accumulated_value.len() == chip.config.acc_cols,
        ensures
            ({
                let bits = chip.config.max_bits as nat;
                let n = chip.config.acc_cols as int;
                let init = self.accumulated_value@;
                let total = be_limbs_value(init, bits) + sum_of(self.values@);
                let inputs_ok = limbs_in_range(init, bits) && (forall|i: int|
                    0 <= i < self.values.len() ==> #[trigger] self.values@[i] < pow2(bits));
                match r {
                    Ok(final_limbs) => {
                        &&& inputs_ok
                        &&& total < pow2(bits * (n - 1) as nat)
                        &&& final_limbs.len() == n
                        &&& limbs_in_range(final_limbs@, bits)
                        &&& be_limbs_value(final_limbs@, bits) == total
                        &&& final_limbs@[0] == 0
                    },
                    Err(Error::OutOfRange) => !inputs_ok,
                    Err(Error::Overflow) => total >= pow2(bits * (n - 1) as nat),
                    _ => false,
                }
            }),
    {
        let ghost bits = chip.config.max_bits as nat;
        let ghost n = chip.config.acc_cols as int;
        let ghost init = self.accumulated_value@;
        let mut current: Vec<u64> = Vec::new();
        let mut i0: usize = 0;
        while i0 < self.accumulated_value.len()
            invariant
                i0 <= self.accumulated_value.len(),
                current.len() == i0,
                forall|j: int| 0 <= j < i0 ==> current[j] == self.accumulated_value[j],
            decreases self.accumulated_value.len() - i0,
        {
            current.push(self.accumulated_value[i0]);
            i0 = i0 + 1;
        }
        proof {
            assert(current@ =~= init);
            lemma2_to64();
            lemma_pow2_le(bits, 32);
        }
        if !range_check_vec(&current, pow2_u128(chip.config.max_bits) as u64) {
            return Err(Error::OutOfRange);
        }
        let mut k: usize = 0;
        while k < self.values.len()
            invariant
                chip.wf(),
                bits == chip.config.max_bits as nat,
                n == chip.config.acc_cols as int,
                init == self.accumulated_value@,
                k <= self.values.len(),
                current.len() == n,
                limbs_in_range(current@, bits),
                limbs_in_range(init, bits),
                be_limbs_value(current@, bits) == be_limbs_value(init, bits) + sum_of(
                    self.values@.take(k as int),
                ),
                k > 0 ==> current@[0] == 0,
                forall|j: int| 0 <= j < k ==> #[trigger] self.values@[j] < pow2(bits),
            decreases self.values.len() - k,
        {
            let r = chip.assign(self.values[k], &current, true);
            proof {
                lemma_sum_of_take_step(self.values@, k as int);
            }
            match r {
                Ok((updated, _carries)) => {
                    current = updated;
                },
                Err(e) => {
                    proof {
                        let taken = be_limbs_value(init, bits) + sum_of(
                            self.values@.take(k as int + 1),
                        );
                        lemma_sum_of_take_le(self.values@, k as int + 1);
                        if e == Error::Overflow {
                            assert(taken >= pow2(bits * (n - 1) as nat));
                            assert(be_limbs_value(init, bits) + sum_of(self.values@) >= taken);
                        }
                    }
                    return Err(e);
                },
            }
            k = k + 1;
        }
        proof {
            assert(self.values@.take(self.values@.len() as int) =~= self.values@);
            if self.values.len() == 0 {
                lemma_be_limbs_value_bounds(current@, bits);
                lemma_be_limbs_value_head(current@, bits);
                lemma_be_limbs_value_bounds(current@.subrange(1, n), bits);
                if current@[0] != 0 {
                    let q = pow2(bits * (n - 1) as nat) as int;
                    assert(current@[0] * q >= q) by (nonlinear_arith)
                        requires current@[0] >= 1, q >= 0,
                    ;
                }
            }
        }
        // With no update row the overflow prohibition never ran: the initial
        // limbs are exposed as they are, and a nonzero overflow limb in them
        // is reported just as a row would report it.
        if current[0] != 0 {
            return Err(Error::Overflow);
        }
        proof {
            lemma_be_limbs_value_head(current@, bits);
            lemma_be_limbs_value_bounds(current@.subrange(1, n), bits);
            assert(current@[0] * pow2(bits * (n - 1) as nat) == 0) by (nonlinear_arith)
                requires current@[0] == 0,
            ;
            assert(current@.subrange(1, n).len() == n - 1);
        }
        Ok(current)
    }
}

} // verus!
