//! The two-limb carry accumulator: a running total held as a high and a low
//! 16-bit-weighted pair `(b, c)`, updated one added value per row under the
//! gate `a + prev_b * 2^16 + prev_c = b * 2^16 + c`.

use crate::utils::f_to_nbits;
use vstd::arithmetic::power2::lemma2_to64;
use vstd::prelude::*;

verus! {

/// The accumulate gate of the two-limb carry chip.
pub open spec fn add_carry_gate_holds(a: int, prev_b: int, prev_c: int, b: int, c: int) -> bool {
    a + prev_b * 0x10000 + prev_c == b * 0x10000 + c
}

/// Shape of the two-limb carry chip, first version: the initial pair is
/// pinned to the constant zero.
#[derive(Clone, Copy, Debug, PartialEq, Eq, Structural)]
pub struct AddCarryConfig {}

/// The two-limb carry chip, first version.
#[derive(Clone, Copy, Debug)]
pub struct AddCarryChip {
    pub config: AddCarryConfig,
}

impl AddCarryChip {
    pub fn construct(config: AddCarryConfig) -> (r: Self)
        ensures
            r.config == config,
    {
        Self { config }
    }

    pub fn configure() -> (r: AddCarryConfig) {
        AddCarryConfig {  }
    }

    /// The first row: both accumulator cells pinned to the constant zero.
    pub fn assign_first_row(&self) -> (r: (u64, u64))
        ensures
            r == (0u64, 0u64),
    {
        (0, 0)
    }

    /// One update row: adds `a` to the pair and re-splits it at the 16-bit
    /// boundary.  The high cell carries whatever exceeds 16 bits; this
    /// version places no bound on it.
    pub fn assign_advice_row(&self, a: u64, prev_b: u64, prev_c: u64) -> (r: (u64, u64))
        requires
            prev_b < 0x1_0000_0000_0000,
        ensures
            add_carry_gate_holds(a as int, prev_b as int, prev_c as int, r.0 as int, r.1 as int),
            r.1 < 0x10000,
    {
        let sum: u128 = a as u128 + (prev_b as u128) * 0x10000 + prev_c as u128;
        let (hi, lo) = f_to_nbits(sum, 16);
        proof {
            lemma2_to64();
        }
        (hi as u64, lo)
    }

    /// Binds an accumulator cell to a row of the public instance column.
    pub fn expose_public(&self, cell: u64, instance: &Vec<u64>, row: usize) -> (r: bool)
        ensures
            r <==> row < instance.len() && instance[row as int] == cell,
    {
        row < instance.len() && instance[row] == cell
    }
}

/// Shape of the two-limb carry chip, second version: the initial pair comes
/// from the public instance, and the high cell is watched by an is-zero
/// expression so that an overflow past 16 bits is observable.
#[derive(Clone, Copy, Debug, PartialEq, Eq, Structural)]
pub struct AddCarryV2Config {}

/// The two-limb carry chip, second version.
#[derive(Clone, Copy, Debug)]
pub struct AddCarryV2Chip {
    pub config: AddCarryV2Config,
}

impl AddCarryV2Chip {
    pub fn construct(config: AddCarryV2Config) -> (r: Self)
        ensures
            r.config == config,
    {
        Self { config }
    }

    pub fn configure() -> (r: AddCarryV2Config) {
        AddCarryV2Config {  }
    }

    /// The first row: the accumulator pair read from the first two rows of
    /// the public instance column.
    pub fn assign_first_row(&self, instance: &Vec<u64>) -> (r: Result<(u64, u64), crate::Error>)
        ensures
            match r {
                Ok(pair) => instance.len() >= 2 && pair == (instance[0], instance[1]),
                Err(e) => e == crate::Error::Synthesis && instance.len() < 2,
            },
    {
        if instance.len() < 2 {
            return Err(crate::Error::Synthesis);
        }
        Ok((instance[0], instance[1]))
    }

    /// One update row, as in the first version, together with the is-zero
    /// flag of the high cell: 1 exactly when the total stayed within 16
    /// bits.
    pub fn assign_advice_row(&self, a: u64, prev_b: u64, prev_c: u64) -> (r: (u64, u64, u64))
        requires
            prev_b < 0x1_0000_0000_0000,
        ensures
            add_carry_gate_holds(a as int, prev_b as int, prev_c as int, r.0 as int, r.1 as int),
            r.1 < 0x10000,
            r.2 == 1 <==> r.0 == 0,
            r.2 <= 1,
    {
        let sum: u128 = a as u128 + (prev_b as u128) * 0x10000 + prev_c as u128;
        let (hi, lo) = f_to_nbits(sum, 16);
        proof {
            lemma2_to64();
        }
        let b = hi as u64;
        let z: u64 = if b == 0 {
            1
        } else {
            0
        };
        (b, lo, z)
    }

    /// Binds an accumulator cell to a row of the public instance column.
    pub fn expose_public(&self, cell: u64, instance: &Vec<u64>, row: usize) -> (r: bool)
        ensures
            r <==> row < instance.len() && instance[row as int] == cell,
    {
        row < instance.len() && instance[row] == cell
    }
}

} // verus!
