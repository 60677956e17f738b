//! The three-limb overflow-checked accumulator: a running total held as
//! cells `(b, c, d)` with weights `2^32`, `2^16` and `1`, updated one added
//! value per row.  The cell `b` is the overflow limb: a constraint watches it
//! through the is-zero gadget and rejects any row that leaves it nonzero.

use crate::utils::f_to_nbits;
use crate::Error;
use vstd::arithmetic::power2::lemma2_to64;
use vstd::prelude::*;

verus! {

/// The accumulate gate of the three-limb chip:
/// `a + prev_b * 2^32 + prev_c * 2^16 + prev_d = b * 2^32 + c * 2^16 + d`.
pub open spec fn overflow_gate_holds(
    a: int,
    prev_b: int,
    prev_c: int,
    prev_d: int,
    b: int,
    c: int,
    d: int,
) -> bool {
    a + prev_b * 0x1_0000_0000 + prev_c * 0x10000 + prev_d == b * 0x1_0000_0000 + c * 0x10000 + d
}

/// Shape of the three-limb overflow-checked accumulator.
#[derive(Clone, Copy, Debug, PartialEq, Eq, Structural)]
pub struct OverFlowCheckConfig {}

/// The three-limb overflow-checked accumulator chip.
#[derive(Clone, Copy, Debug)]
pub struct OverFlowChip {
    pub config: OverFlowCheckConfig,
}

impl OverFlowChip {
    pub fn construct(config: OverFlowCheckConfig) -> (r: Self)
        ensures
            r.config == config,
    {
        Self { config }
    }

    pub fn configure() -> (r: OverFlowCheckConfig) {
        OverFlowCheckConfig {  }
    }

    /// The first row: the initial accumulator cells read from the public
    /// instance, the overflow cell and the high cell both from its first
    /// row and the low cell from its second.
    pub fn assign_first_row(&self, instance: &Vec<u64>) -> (r: Result<(u64, u64, u64), Error>)
        ensures
            match r {
                Ok(t) => instance.len() >= 2 && t == (instance[0], instance[0], instance[1]),
                Err(e) => e == Error::Synthesis && instance.len() < 2,
            },
    {
        if instance.len() < 2 {
            return Err(Error::Synthesis);
        }
        Ok((instance[0], instance[0], instance[1]))
    }

    /// One update row: adds `a` to the total, re-splits it at the two
    /// 16-bit boundaries, and applies the overflow prohibition — a total
    /// that reaches the overflow cell leaves the is-zero expression of that
    /// cell at 0, which that constraint rejects.
    pub fn assign_advice_row(
        &self,
        a: u64,
        prev_b: u64,
        prev_c: u64,
        prev_d: u64,
    ) -> (r: Result<(u64, u64, u64), Error>)
        requires
            prev_b < 0x1_0000_0000,
            prev_c < 0x10000,
            prev_d < 0x10000,
        ensures
            ({
                let total = a + prev_b * 0x1_0000_0000 + prev_c * 0x10000 + prev_d;
                match r {
                    Ok((b, c, d)) => {
                        &&& total < 0x1_0000_0000
                        &&& b == 0
                        &&& c < 0x10000
                        &&& d < 0x10000
                        &&& overflow_gate_holds(
                            a as int,
                            prev_b as int,
                            prev_c as int,
                            prev_d as int,
                            b as int,
                            c as int,
                            d as int,
                        )
                    },
                    Err(e) => e == Error::Overflow && total >= 0x1_0000_0000,
                }
            }),
    {
        proof {
            lemma2_to64();
        }
        let total: u128 = a as u128 + (prev_b as u128) * 0x1_0000_0000 + (prev_c as u128) * 0x10000
            + prev_d as u128;
        let (q1, d) = f_to_nbits(total, 16);
        let (q2, c) = f_to_nbits(q1, 16);
        proof {
            assert(q2 * 0x10000 * 0x10000 == q2 * 0x1_0000_0000) by (nonlinear_arith);
        }
        let b = q2;
        if b != 0 {
            return Err(Error::Overflow);
        }
        Ok((0, c, d))
    }

    /// Binds an accumulator cell to a row of the public instance column.
    pub fn expose_public(&self, cell: u64, instance: &Vec<u64>, row: usize) -> (r: bool)
        ensures
            r <==> row < instance.len() && instance[row as int] == cell,
    {
        row < instance.len() && instance[row] == cell
    }
}

} // verus!
