//! The plain inclusion check: every user row is assigned to the advice
//! columns, and the one selected row is bound by the permutation argument
//! to the first two rows of the public instance.  No gate is involved: the
//! claim is carried entirely by the copy constraints.

use crate::Error;
use vstd::prelude::*;

verus! {

/// Shape of the plain inclusion check: a username and a balance column.
#[derive(Clone, Copy, Debug, PartialEq, Eq, Structural)]
pub struct InclusionCheckConfig {}

/// The plain inclusion check chip.
#[derive(Clone, Copy, Debug)]
pub struct InclusionCheckChip {
    pub config: InclusionCheckConfig,
}

impl InclusionCheckChip {
    pub fn construct(config: InclusionCheckConfig) -> (r: Self)
        ensures
            r.config == config,
    {
        Self { config }
    }

    pub fn configure() -> (r: InclusionCheckConfig) {
        InclusionCheckConfig {  }
    }

    /// A row that only carries its entry: nothing is constrained on it.
    pub fn assign_generic_row(&self, username: u64, balance: u64) -> (r: Result<(), Error>)
        ensures
            r == Result::<(), Error>::Ok(()),
    {
        let _ = username;
        let _ = balance;
        Ok(())
    }

    /// The selected row: its cells are handed back so that the caller can
    /// bind them to the public instance.
    pub fn assign_inclusion_check_row(&self, username: u64, balance: u64) -> (r: Result<
        (u64, u64),
        Error,
    >)
        ensures
            r == Result::<(u64, u64), Error>::Ok((username, balance)),
    {
        Ok((username, balance))
    }

    /// Binds the selected row's cells to the first two rows of the public
    /// instance: the inclusion claim holds exactly when both match.
    pub fn expose_public(
        &self,
        public_username_cell: u64,
        public_balance_cell: u64,
        instance: &Vec<u64>,
    ) -> (r: bool)
        ensures
            r <==> instance.len() >= 2 && instance[0] == public_username_cell && instance[1]
                == public_balance_cell,
    {
        instance.len() >= 2 && instance[0] == public_username_cell && instance[1]
            == public_balance_cell
    }
}

} // verus!
