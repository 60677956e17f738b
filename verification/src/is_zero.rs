//! The is-zero gadget: from a value `v` and an auxiliary "inverse" witness,
//! the expression `z = 1 - v * v_inv` acts as a boolean flag with `z = 1`
//! exactly when `v = 0`, reusable inside larger gates.
//!
//! In the field the assignment phase sets the auxiliary witness to `v⁻¹`
//! whenever `v` is nonzero, which drives the expression to 0; a constraint
//! `v * (1 - v * v_inv) = 0` then makes any other auxiliary choice for a
//! nonzero `v` unusable as a "zero" claim.  The model keeps the observable
//! flag and states that constraint over the integers, where the soundness
//! direction — a nonzero expression forces `v = 0` — holds just as it does
//! in the field.

use vstd::prelude::*;

verus! {

/// The is-zero expression `1 - v * v_inv`.
pub open spec fn is_zero_expr(value: int, value_inv: int) -> int {
    1 - value * value_inv
}

/// The is-zero gate `v * (1 - v * v_inv) = 0`.
pub open spec fn is_zero_gate_holds(value: int, value_inv: int) -> bool {
    value * is_zero_expr(value, value_inv) == 0
}

/// Soundness of that constraint: whatever auxiliary witness was chosen, a nonzero
/// is-zero expression can only stand next to a zero value.
pub proof fn lemma_is_zero_gate_sound(value: int, value_inv: int)
    requires
        is_zero_gate_holds(value, value_inv),
    ensures
        is_zero_expr(value, value_inv) != 0 ==> value == 0,
{
    assert(value * (1 - value * value_inv) == 0 ==> value == 0 || 1 - value * value_inv == 0)
        by (nonlinear_arith);
}

/// Completeness of the assignment: the witness the chip writes satisfies the
/// gate and gives the expression its intended boolean value.
pub proof fn lemma_is_zero_assignment(value: int, value_inv: int)
    requires
        value == 0 ==> value_inv == 0,
        value != 0 ==> value * value_inv == 1,
    ensures
        is_zero_gate_holds(value, value_inv),
        is_zero_expr(value, value_inv) == if value == 0 { 1int } else { 0int },
{
    if value == 0 {
        assert(value * (1 - value * value_inv) == 0) by (nonlinear_arith)
            requires value == 0,
        ;
    } else {
        assert(value * (1 - value * value_inv) == 0) by (nonlinear_arith)
            requires value * value_inv == 1,
        ;
    }
}

/// Shape of the is-zero gadget.  The columns it is wired to live in the
/// arithmetization; nothing of them is needed to state what the gadget
/// computes.
#[derive(Clone, Copy, Debug, PartialEq, Eq, Structural)]
pub struct IsZeroConfig {}

/// The is-zero chip.
#[derive(Clone, Copy, Debug)]
pub struct IsZeroChip {
    pub config: IsZeroConfig,
}

impl IsZeroChip {
    pub fn construct(config: IsZeroConfig) -> (r: Self)
        ensures
            r.config == config,
    {
        IsZeroChip { config }
    }

    pub fn configure() -> (r: IsZeroConfig) {
        IsZeroConfig {  }
    }

    /// Witness assignment: the value of the is-zero expression for the
    /// auxiliary witness the chip writes (`v⁻¹` for a nonzero value, 0
    /// otherwise).
    pub fn assign(&self, value: u64) -> (z: u64)
        ensures
            z <= 1,
            z == 1 <==> value == 0,
    {
        if value == 0 {
            1
        } else {
            0
        }
    }
}

} // verus!
