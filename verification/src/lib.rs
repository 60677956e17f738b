//! Constraint logic and witness generation for a carry-safe accumulator and a
//! Merkle sum tree, the core of a PLONK-style proof of solvency.
//!
//! Witness values are modelled as bounded unsigned integers and the row-local
//! polynomial gates as identities over the mathematical integers.  Every value
//! a gate touches is range-checked to a width far below the field modulus, so
//! no gate can wrap around the field and the integer reading of each identity
//! coincides with its reading in the field.  The one operation that cannot be
//! stated over the integers, the Poseidon permutation, is consumed as a black
//! box through a single trusted wrapper.

pub mod add_carry;
pub mod decompose;
pub mod inclusion_check;
pub mod inclusion_check_v2;
pub mod is_zero;
pub mod less_than;
pub mod less_than_v2;
pub mod overflow_check;
pub mod merkle_sum_tree;
pub mod overflow_check_v2;
pub mod poseidon;
pub mod safe_accumulator;
pub mod utils;

use vstd::prelude::*;

verus! {

/// A failure of witness assignment.  A `Synthesis` error is a build-time
/// shape error; every other variant marks an input on which the constraints
/// of the corresponding gate cannot be satisfied, so that any proof attempt
/// over that witness would be rejected.
#[derive(Clone, Copy, Debug, PartialEq, Eq, Structural)]
pub enum Error {
    /// The chip was configured with a malformed shape.
    Synthesis,
    /// A witness value lies outside its range check.
    OutOfRange,
    /// An accumulated total exceeded the width the limb vector can prove.
    Overflow,
    /// A path direction bit is neither 0 nor 1.
    NonBooleanIndex,
    /// A balance sum exceeded the machine word it is carried in.
    BalanceOverflow,
    /// The enforced strict comparison does not hold.
    NotLessThan,
}

} // verus!
