//! The lookup-based less-than chip: the caller materializes a table holding
//! every value from 0 up to (but not including) the target, and the chip
//! asserts that the input appears in that table — which holds exactly when
//! the input is less than the target.

use crate::utils::lookup_value;
use vstd::prelude::*;

verus! {

/// Shape of the lookup-based less-than chip.
#[derive(Clone, Copy, Debug, PartialEq, Eq, Structural)]
pub struct LessThanConfig {}

/// The lookup-based less-than chip.
#[derive(Clone, Copy, Debug)]
pub struct LessThanChip {
    pub config: LessThanConfig,
}

/// The table is the initial segment `0, 1, ..., target - 1`.
pub open spec fn is_initial_segment(table: Seq<u64>, target: int) -> bool {
    &&& table.len() == target
    &&& forall|i: int| 0 <= i < table.len() ==> table[i] == i
}

/// Membership in an initial-segment table is exactly the strict comparison
/// against the target.
pub proof fn lemma_initial_segment_contains(table: Seq<u64>, target: int, value: u64)
    requires
        is_initial_segment(table, target),
    ensures
        table.contains(value) <==> value < target,
{
    if value < target {
        assert(table[value as int] == value);
    }
}

impl LessThanChip {
    pub fn construct(config: LessThanConfig) -> (r: Self)
        ensures
            r.config == config,
    {
        Self { config }
    }

    pub fn configure() -> (r: LessThanConfig) {
        LessThanConfig {  }
    }

    /// The dynamic lookup: succeeds exactly when the input appears in the
    /// table, hence — for an initial-segment table — exactly when the input
    /// is less than the target.
    pub fn assign(&self, input: u64, table: &Vec<u64>) -> (r: bool)
        ensures
            r <==> table@.contains(input),
    {
        lookup_value(table, input)
    }
}

} // verus!
