//! The accumulator-based inclusion check: a fixed table of ten user rows is
//! walked with a pair of accumulator columns that start from a constant and
//! copy themselves from row to row, except at the one selected row, where
//! a constraint `entry + prev_acc - acc = 0` folds that row's username and
//! balance in.  The final accumulator cells therefore expose exactly the
//! selected entry.

use crate::Error;
use vstd::prelude::*;

verus! {

/// The accumulator gate of the inclusion check, applied at the selected
/// row: `entry + prev_acc - acc = 0`.
pub open spec fn inclusion_acc_gate_holds(entry: int, prev_acc: int, acc: int) -> bool {
    entry + prev_acc - acc == 0
}

/// Shape of the accumulator-based inclusion check: ten user rows.
#[derive(Clone, Copy, Debug, PartialEq, Eq, Structural)]
pub struct InclusionCheckV2Config {}

/// The accumulator-based inclusion check chip.
#[derive(Clone, Copy, Debug)]
pub struct InclusionCheckV2Chip {
    pub config: InclusionCheckV2Config,
}

impl InclusionCheckV2Chip {
    pub fn construct(config: InclusionCheckV2Config) -> (r: Self)
        ensures
            r.config == config,
    {
        Self { config }
    }

    pub fn configure() -> (r: InclusionCheckV2Config) {
        InclusionCheckV2Config {  }
    }

    /// Walks the ten user rows: the accumulators start from the pinned
    /// constant, are copied across every unselected row, and absorb the
    /// selected row under that constraint.  Returns the final accumulator pair —
    /// the selected username and balance on top of the constant.
    pub fn assign_rows(
        &self,
        usernames: &Vec<u64>,
        balances: &Vec<u64>,
        constant: u64,
        inclusion_index: u8,
    ) -> (r: Result<(u64, u64), Error>)
        requires
            usernames.len() == 10,
            balances.len() == 10,
            inclusion_index < 10,
            constant + usernames[inclusion_index as int] <= u64::MAX,
            constant + balances[inclusion_index as int] <= u64::MAX,
        ensures
            ({
                match r {
                    Ok((user_acc, balance_acc)) => {
                        &&& user_acc == constant + usernames[inclusion_index as int]
                        &&& balance_acc == constant + balances[inclusion_index as int]
                        &&& inclusion_acc_gate_holds(
                            usernames[inclusion_index as int] as int,
                            constant as int,
                            user_acc as int,
                        )
                        &&& inclusion_acc_gate_holds(
                            balances[inclusion_index as int] as int,
                            constant as int,
                            balance_acc as int,
                        )
                    },
                    Err(_) => false,
                }
            }),
    {
        let mut username_acc: u64 = constant;
        let mut balance_acc: u64 = constant;
        let mut i: usize = 0;
        while i < 10
            invariant
                usernames.len() == 10,
                balances.len() == 10,
                inclusion_index < 10,
                constant + usernames[inclusion_index as int] <= u64::MAX,
                constant + balances[inclusion_index as int] <= u64::MAX,
                i <= 10,
                i <= inclusion_index ==> username_acc == constant && balance_acc == constant,
                i > inclusion_index ==> username_acc == constant + usernames[inclusion_index as int]
                    && balance_acc == constant + balances[inclusion_index as int],
            decreases 10 - i,
        {
            if i == inclusion_index as usize {
                username_acc = usernames[i] + username_acc;
                balance_acc = balances[i] + balance_acc;
            }
            i = i + 1;
        }
        Ok((username_acc, balance_acc))
    }

    /// Binds an accumulator cell to a row of the public instance column.
    pub fn expose_public(&self, cell: u64, instance: &Vec<u64>, row: usize) -> (r: bool)
        ensures
            r <==> row < instance.len() && instance[row as int] == cell,
    {
        row < instance.len() && instance[row] == cell
    }
}

} // verus!
