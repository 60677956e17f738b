//! The Merkle sum tree chip: for each tree level, a boolean direction bit
//! conditionally swaps the running `(hash, balance)` node with the sibling
//! supplied by the path, the swapped 4-tuple is hashed by Poseidon to give
//! the parent hash, and the two balances are added to give the parent sum.
//! The terminal sum is enforced to be strictly less than a public
//! threshold.

use crate::less_than_v2::{LtChip, LtConfig};
use crate::poseidon::{poseidon4, poseidon_digest, Digest};
use crate::utils::{
    boolean_gate_holds, lemma_sum_of_take_le, lemma_sum_of_take_step, sum_of,
};
use crate::Error;
use vstd::arithmetic::power2::{lemma2_to64, lemma2_to64_rest};
use vstd::prelude::*;

verus! {

/// The swap gate, one instance per value pair:
/// `bit * 2 * (sibling - prev) - (left - prev) - (sibling - right) = 0`.
pub open spec fn swap_gate_holds(prev: int, sibling: int, bit: int, left: int, right: int) -> bool {
    bit * 2 * (sibling - prev) - (left - prev) - (sibling - right) == 0
}

/// The sum gate: `left_balance + right_balance - computed_sum = 0`.
pub open spec fn sum_gate_holds(left_balance: int, right_balance: int, computed_sum: int) -> bool {
    left_balance + right_balance - computed_sum == 0
}

/// What the boolean and swap gates admit: under a boolean bit, the output
/// pair is the input pair — swapped exactly when the bit is set — shifted
/// by one common offset that the permutation argument on the hash inputs
/// removes.
pub proof fn lemma_swap_gate_characterization(
    prev: int,
    sibling: int,
    bit: int,
    left: int,
    right: int,
)
    requires
        boolean_gate_holds(bit),
    ensures
        swap_gate_holds(prev, sibling, bit, left, right) <==> ((bit == 0 && left - prev == right
            - sibling) || (bit == 1 && left - sibling == right - prev)),
{
    crate::utils::lemma_boolean_gate(bit);
    if bit == 0 {
        assert(bit * 2 * (sibling - prev) == 0) by (nonlinear_arith)
            requires bit == 0,
        ;
    } else {
        assert(bit * 2 * (sibling - prev) == 2 * (sibling - prev)) by (nonlinear_arith)
            requires bit == 1,
        ;
    }
}

/// The swap gate selects exactly one relabeling: among the two pairings of
/// the input values, the boolean and swap gates together admit only the one
/// the bit asks for, and fail for every non-boolean bit.
pub proof fn lemma_swap_gate_selects(prev: int, sibling: int, bit: int, left: int, right: int)
    requires
        (left == prev && right == sibling) || (left == sibling && right == prev),
    ensures
        (boolean_gate_holds(bit) && swap_gate_holds(prev, sibling, bit, left, right)) <==> ((bit
            == 0 || bit == 1) && if bit == 1 {
            left == sibling && right == prev
        } else {
            left == prev && right == sibling
        }),
{
    crate::utils::lemma_boolean_gate(bit);
    if boolean_gate_holds(bit) {
        lemma_swap_gate_characterization(prev, sibling, bit, left, right);
    }
}

/// One level of the reference computation: the node and sibling are ordered
/// by the bit, hashed, and their balances added (truncating; the chip
/// rejects the overflowing case before this is reached).
pub open spec fn layer_spec(
    hash: Seq<u64>,
    balance: u64,
    element_hash: Digest,
    element_balance: u64,
    bit: u64,
) -> (Seq<u64>, u64) {
    let s = (balance + element_balance) as u64;
    if bit == 1 {
        (poseidon_digest(element_hash@, element_balance, hash, balance), s)
    } else {
        (poseidon_digest(hash, balance, element_hash@, element_balance), s)
    }
}

/// The reference recursive-hash computation over a whole path: the root
/// hash and root sum reached from a leaf by folding `layer_spec` over the
/// path elements in order.
pub open spec fn root_spec(
    hash: Seq<u64>,
    balance: u64,
    element_hashes: Seq<Digest>,
    element_balances: Seq<u64>,
    bits: Seq<u64>,
) -> (Seq<u64>, u64)
    decreases element_hashes.len(),
{
    if element_hashes.len() == 0 {
        (hash, balance)
    } else {
        let (h, b) = layer_spec(hash, balance, element_hashes[0], element_balances[0], bits[0]);
        root_spec(h, b, element_hashes.skip(1), element_balances.skip(1), bits.skip(1))
    }
}

/// Shape of the Merkle sum tree chip.
#[derive(Clone, Copy, Debug, PartialEq, Eq, Structural)]
pub struct MerkleSumTreeConfig {}

/// The Merkle sum tree chip.
#[derive(Clone, Copy, Debug)]
pub struct MerkleSumTreeChip {
    pub config: MerkleSumTreeConfig,
}

impl MerkleSumTreeChip {
    pub fn construct(config: MerkleSumTreeConfig) -> (r: Self)
        ensures
            r.config == config,
    {
        Self { config }
    }

    pub fn configure() -> (r: MerkleSumTreeConfig) {
        MerkleSumTreeConfig {  }
    }

    /// Assigns the leaf hash and balance to their cells; these cells are
    /// what the first two rows of the public instance are bound to.
    pub fn assing_leaf_hash_and_balance(&self, leaf_hash: Digest, leaf_balance: u64) -> (r: (
        Digest,
        u64,
    ))
        ensures
            r == (leaf_hash, leaf_balance),
    {
        (leaf_hash, leaf_balance)
    }

    /// One tree level.  Rejects a non-boolean direction bit (both the
    /// boolean and the swap gate fail on it) and a balance sum beyond the
    /// machine word; otherwise returns the parent node computed by the
    /// reference layer step, with the balance-pair swap and sum gates
    /// satisfied by the witnessed row.
    pub fn merkle_prove_layer(
        &self,
        prev_hash: &Digest,
        prev_balance: u64,
        element_hash: &Digest,
        element_balance: u64,
        index: u64,
    ) -> (r: Result<(Digest, u64), Error>)
        ensures
            ({
                let spec_r = layer_spec(prev_hash@, prev_balance, *element_hash, element_balance, index);
                match r {
                    Ok((h, b)) => {
                        &&& index == 0 || index == 1
                        &&& boolean_gate_holds(index as int)
                        &&& prev_balance + element_balance <= u64::MAX
                        &&& b == prev_balance + element_balance
                        &&& h@ == spec_r.0
                        &&& b == spec_r.1
                        &&& sum_gate_holds(prev_balance as int, element_balance as int, b as int)
                        &&& swap_gate_holds(
                            prev_balance as int,
                            element_balance as int,
                            index as int,
                            if index == 1 { element_balance as int } else { prev_balance as int },
                            if index == 1 { prev_balance as int } else { element_balance as int },
                        )
                    },
                    Err(Error::NonBooleanIndex) => index > 1,
                    Err(Error::BalanceOverflow) => index <= 1 && prev_balance + element_balance
                        > u64::MAX,
                    _ => false,
                }
            }),
    {
        if index > 1 {
            return Err(Error::NonBooleanIndex);
        }
        let computed_sum = match prev_balance.checked_add(element_balance) {
            Some(s) => s,
            None => {
                return Err(Error::BalanceOverflow);
            },
        };
        proof {
            crate::utils::lemma_boolean_gate(index as int);
            lemma_swap_gate_selects(
                prev_balance as int,
                element_balance as int,
                index as int,
                if index == 1 { element_balance as int } else { prev_balance as int },
                if index == 1 { prev_balance as int } else { element_balance as int },
            );
        }
        let computed_hash = if index == 1 {
            poseidon4(element_hash, element_balance, prev_hash, prev_balance)
        } else {
            poseidon4(prev_hash, prev_balance, element_hash, element_balance)
        };
        Ok((computed_hash, computed_sum))
    }

    /// Enforces that the computed sum is strictly less than the public
    /// assets threshold, through the byte-decomposition less-than gadget.
    pub fn enforce_less_than(&self, computed_sum: u64, assets_sum: u64) -> (r: Result<(), Error>)
        ensures
            match r {
                Ok(()) => computed_sum < assets_sum,
                Err(e) => e == Error::NotLessThan && computed_sum >= assets_sum,
            },
    {
        proof {
            lemma2_to64();
            lemma2_to64_rest();
            assert(8 * 8 == 64);
        }
        let lt_chip = LtChip::construct(LtConfig { n_bytes: 8 });
        let (lt, _diff_bytes) = lt_chip.assign(computed_sum, assets_sum);
        if lt == 1 {
            Ok(())
        } else {
            Err(Error::NotLessThan)
        }
    }

    /// Binds a hash cell to a row of the public instance column.
    pub fn expose_public(&self, cell: &Digest, instance: &Vec<Digest>, row: usize) -> (r: bool)
        ensures
            r <==> row < instance.len() && instance[row as int] == *cell,
    {
        row < instance.len() && instance[row] == *cell
    }
}

/// The Merkle sum tree circuit: a leaf, the path from it to the root, and
/// the public assets threshold the root sum must stay below.
pub struct MerkleSumTreeCircuit {
    pub leaf_hash: Digest,
    pub leaf_balance: u64,
    pub path_element_hashes: Vec<Digest>,
    pub path_element_balances: Vec<u64>,
    pub path_indices: Vec<u64>,
    pub assets_sum: u64,
}

impl MerkleSumTreeCircuit {
    /// Every path direction bit is boolean.
    pub open spec fn bits_boolean(&self) -> bool {
        forall|i: int| 0 <= i < self.path_indices.len() ==> #[trigger] self.path_indices@[i] <= 1
    }

    /// The root node of the reference recursive-hash computation over this
    /// circuit's inputs.
    pub open spec fn spec_root(&self) -> (Seq<u64>, u64) {
        root_spec(
            self.leaf_hash@,
            self.leaf_balance,
            self.path_element_hashes@,
            self.path_element_balances@,
            self.path_indices@,
        )
    }

    /// The total the root sum must decode to: the leaf balance plus every
    /// sibling balance along the path.
    pub open spec fn total_liabilities(&self) -> int {
        self.leaf_balance + sum_of(self.path_element_balances@)
    }

    /// Wires the whole circuit: assigns the leaf, folds one
    /// `merkle_prove_layer` per path step, and enforces the computed sum to
    /// be strictly less than the assets threshold.  Returns the values the
    /// public instance is bound to: leaf hash, leaf balance, root hash and
    /// root sum.
    pub fn synthesize(&self, chip: &MerkleSumTreeChip) -> (r: Result<
        (Digest, u64, Digest, u64),
        Error,
    >)
        requires
            self.path_element_hashes.len() == self.path_element_balances.len(),
            self.path_indices.len() == self.path_element_balances.len(),
        ensures
            ({
                match r {
                    Ok((lh, lb, root_hash, root_sum)) => {
                        &&& lh == self.leaf_hash
                        &&& lb == self.leaf_balance
                        &&& self.bits_boolean()
                        &&& self.total_liabilities() <= u64::MAX
                        &&& root_sum == self.total_liabilities()
                        &&& root_hash@ == self.spec_root().0
                        &&& root_sum == self.spec_root().1
                        &&& root_sum < self.assets_sum
                    },
                    Err(Error::NonBooleanIndex) => !self.bits_boolean(),
                    Err(Error::BalanceOverflow) => self.total_liabilities() > u64::MAX,
                    Err(Error::NotLessThan) => {
                        &&& self.bits_boolean()
                        &&& self.total_liabilities() <= u64::MAX
                        &&& self.total_liabilities() >= self.assets_sum
                    },
                    _ => false,
                }
            }),
    {
        let (leaf_hash, leaf_balance) = chip.assing_leaf_hash_and_balance(
            self.leaf_hash,
            self.leaf_balance,
        );
        let mut next_hash = leaf_hash;
        let mut next_sum = leaf_balance;
        let len = self.path_element_balances.len();
        let mut k: usize = 0;
        proof {
            assert(self.path_element_hashes@.skip(0) =~= self.path_element_hashes@);
            assert(self.path_element_balances@.skip(0) =~= self.path_element_balances@);
            assert(self.path_indices@.skip(0) =~= self.path_indices@);
            assert(self.path_element_balances@.take(0) =~= Seq::<u64>::empty());
        }
        while k < len
            invariant
                self.path_element_hashes.len() == len,
                self.path_element_balances.len() == len,
                self.path_indices.len() == len,
                k <= len,
                next_sum == self.leaf_balance + sum_of(self.path_element_balances@.take(k as int)),
                root_spec(
                    next_hash@,
                    next_sum,
                    self.path_element_hashes@.skip(k as int),
                    self.path_element_balances@.skip(k as int),
                    self.path_indices@.skip(k as int),
                ) == self.spec_root(),
                forall|j: int| 0 <= j < k ==> #[trigger] self.path_indices@[j] <= 1,
            decreases len - k,
        {
            let step = chip.merkle_prove_layer(
                &next_hash,
                next_sum,
                &self.path_element_hashes[k],
                self.path_element_balances[k],
                self.path_indices[k],
            );
            proof {
                lemma_sum_of_take_step(self.path_element_balances@, k as int);
                lemma_sum_of_take_le(self.path_element_balances@, k as int + 1);
            }
            match step {
                Ok((h, s)) => {
                    proof {
                        let eh = self.path_element_hashes@.skip(k as int);
                        let eb = self.path_element_balances@.skip(k as int);
                        let ix = self.path_indices@.skip(k as int);
                        assert(eh[0] == self.path_element_hashes@[k as int]);
                        assert(eb[0] == self.path_element_balances@[k as int]);
                        assert(ix[0] == self.path_indices@[k as int]);
                        assert(eh.skip(1) =~= self.path_element_hashes@.skip(k as int + 1));
                        assert(eb.skip(1) =~= self.path_element_balances@.skip(k as int + 1));
                        assert(ix.skip(1) =~= self.path_indices@.skip(k as int + 1));
                    }
                    next_hash = h;
                    next_sum = s;
                },
                Err(e) => {
                    proof {
                        if e == Error::NonBooleanIndex {
                            assert(self.path_indices@[k as int] > 1);
                        }
                    }
                    return Err(e);
                },
            }
            k = k + 1;
        }
        proof {
            assert(self.path_element_hashes@.skip(len as int) =~= Seq::<Digest>::empty());
            assert(self.path_element_balances@.take(len as int) =~= self.path_element_balances@);
        }
        match chip.enforce_less_than(next_sum, self.assets_sum) {
            Ok(()) => Ok((leaf_hash, leaf_balance, next_hash, next_sum)),
            Err(e) => Err(e),
        }
    }
}

} // verus!
