//! Shared limb arithmetic: the value encoded by a big-endian limb vector, the
//! carry split of a wide sum, and the product polynomial behind the
//! small-range check.

use vstd::arithmetic::div_mod::lemma_fundamental_div_mod;
use vstd::arithmetic::power2::{
    lemma2_to64, lemma2_to64_rest, lemma_pow2_adds, lemma_pow2_pos, lemma_pow2_strictly_increases,
    pow2,
};
use vstd::prelude::*;

verus! {

/// The integer encoded by a big-endian limb vector: index 0 is the most
/// significant limb and each limb spans `bits` binary digits.
pub open spec fn be_limbs_value(limbs: Seq<u64>, bits: nat) -> int
    decreases limbs.len(),
{
    if limbs.len() == 0 {
        0
    } else {
        be_limbs_value(limbs.drop_last(), bits) * pow2(bits) + limbs.last()
    }
}

/// Every limb of the vector lies in `[0, 2^bits)`.
pub open spec fn limbs_in_range(limbs: Seq<u64>, bits: nat) -> bool {
    forall|i: int| 0 <= i < limbs.len() ==> limbs[i] < pow2(bits)
}

/// A limb vector in range encodes a value in `[0, 2^(bits * len))`.
pub proof fn lemma_be_limbs_value_bounds(limbs: Seq<u64>, bits: nat)
    ensures
        0 <= be_limbs_value(limbs, bits),
        limbs_in_range(limbs, bits) ==> be_limbs_value(limbs, bits) < pow2(bits * limbs.len()),
    decreases limbs.len(),
{
    lemma_pow2_pos(bits);
    if limbs.len() == 0 {
        assert(bits * 0 == 0) by (nonlinear_arith);
        lemma_pow2_pos(0);
    } else {
        let prefix = limbs.drop_last();
        let n = limbs.len();
        lemma_be_limbs_value_bounds(prefix, bits);
        assert(limbs_in_range(limbs, bits) ==> limbs_in_range(prefix, bits));
        let v = be_limbs_value(prefix, bits);
        let p = pow2(bits) as int;
        assert(0 <= v * p) by (nonlinear_arith)
            requires 0 <= v && 0 < p,
        ;
        if limbs_in_range(limbs, bits) {
            lemma_pow2_adds(bits, bits * (n - 1) as nat);
            assert(bits + bits * (n - 1) == bits * n) by (nonlinear_arith)
                requires n >= 1,
            ;
            let q = pow2(bits * (n - 1) as nat) as int;
            assert(v * p + limbs.last() < p * q) by (nonlinear_arith)
                requires
                    0 <= v < q,
                    0 < p,
                    limbs.last() < p,
            ;
        }
    }
}

/// Appending a least-significant limb multiplies the encoded value by
/// `2^bits` and adds the new limb.
pub proof fn lemma_be_limbs_value_push(limbs: Seq<u64>, bits: nat, x: u64)
    ensures
        be_limbs_value(limbs.push(x), bits) == be_limbs_value(limbs, bits) * pow2(bits) + x,
{
    assert(limbs.push(x).drop_last() =~= limbs);
    assert(limbs.push(x).last() == x);
}

/// Splitting off the most significant limb: the encoded value is the head
/// limb scaled by the width of the tail, plus the value of the tail.
pub proof fn lemma_be_limbs_value_head(limbs: Seq<u64>, bits: nat)
    requires
        limbs.len() >= 1,
    ensures
        be_limbs_value(limbs, bits) == limbs[0] * pow2(bits * (limbs.len() - 1) as nat)
            + be_limbs_value(limbs.subrange(1, limbs.len() as int), bits),
    decreases limbs.len(),
{
    let n = limbs.len() as int;
    let tail = limbs.subrange(1, n);
    if n == 1 {
        assert(tail =~= Seq::<u64>::empty());
        assert(limbs.drop_last() =~= Seq::<u64>::empty());
        assert(bits * 0 == 0) by (nonlinear_arith);
        lemma2_to64();
        assert(limbs[0] * pow2(0) == limbs[0]) by (nonlinear_arith)
            requires pow2(0) == 1,
        ;
    } else {
        let front = limbs.drop_last();
        lemma_be_limbs_value_head(front, bits);
        assert(front.subrange(1, front.len() as int) =~= tail.drop_last());
        let p = pow2(bits) as int;
        let q = pow2(bits * (n - 2) as nat) as int;
        let r = pow2(bits * (n - 1) as nat) as int;
        lemma_pow2_adds(bits * (n - 2) as nat, bits);
        assert(bits * (n - 2) + bits == bits * (n - 1)) by (nonlinear_arith)
            requires n >= 2,
        ;
        let h = limbs[0] as int;
        let t = be_limbs_value(tail.drop_last(), bits);
        assert((h * q + t) * p == h * (q * p) + t * p) by (nonlinear_arith);
    }
}

/// The integer encoded by a little-endian limb vector: index 0 is the least
/// significant limb.
pub open spec fn le_limbs_value(limbs: Seq<u64>, bits: nat) -> int
    decreases limbs.len(),
{
    if limbs.len() == 0 {
        0
    } else {
        le_limbs_value(limbs.drop_last(), bits) + limbs.last() * pow2(
            bits * (limbs.len() - 1) as nat,
        )
    }
}

/// Appending a most-significant limb adds it at the next weight.
pub proof fn lemma_le_limbs_value_push(limbs: Seq<u64>, bits: nat, x: u64)
    ensures
        le_limbs_value(limbs.push(x), bits) == le_limbs_value(limbs, bits) + x * pow2(
            bits * limbs.len(),
        ),
{
    assert(limbs.push(x).drop_last() =~= limbs);
    assert(limbs.push(x).last() == x);
}

/// Whether `value` appears in the materialized lookup table.
pub fn lookup_value(table: &Vec<u64>, value: u64) -> (r: bool)
    ensures
        r <==> table@.contains(value),
{
    let mut idx: usize = 0;
    while idx < table.len()
        invariant
            idx <= table.len(),
            forall|j: int| 0 <= j < idx ==> table[j] != value,
        decreases table.len() - idx,
    {
        if table[idx] == value {
            assert(table@.contains(value));
            return true;
        }
        idx = idx + 1;
    }
    false
}

/// The sum of a sequence of witness values.
pub open spec fn sum_of(values: Seq<u64>) -> int
    decreases values.len(),
{
    if values.len() == 0 {
        0
    } else {
        sum_of(values.drop_last()) + values.last()
    }
}

/// A sum of unsigned values is nonnegative, and no prefix exceeds it.
pub proof fn lemma_sum_of_take_le(values: Seq<u64>, j: int)
    requires
        0 <= j <= values.len(),
    ensures
        0 <= sum_of(values.take(j)) <= sum_of(values),
    decreases values.len(),
{
    if values.len() == 0 {
        assert(values.take(j) =~= values);
    } else if j == values.len() {
        assert(values.take(j) =~= values);
        lemma_sum_of_take_le(values.drop_last(), j - 1);
        assert(values.drop_last().take(j - 1) =~= values.drop_last());
    } else {
        lemma_sum_of_take_le(values.drop_last(), j);
        assert(values.drop_last().take(j) =~= values.take(j));
    }
}

/// Taking one more value extends the prefix sum by that value.
pub proof fn lemma_sum_of_take_step(values: Seq<u64>, j: int)
    requires
        0 <= j < values.len(),
    ensures
        sum_of(values.take(j + 1)) == sum_of(values.take(j)) + values[j],
{
    assert(values.take(j + 1).drop_last() =~= values.take(j));
    assert(values.take(j + 1).last() == values[j]);
}

/// The boolean gate `e * (1 - e) = 0`: satisfied exactly by 0 and 1.
pub open spec fn boolean_gate_holds(e: int) -> bool {
    e * (1 - e) == 0
}

/// The boolean gate admits exactly the two boolean values.
pub proof fn lemma_boolean_gate(e: int)
    ensures
        boolean_gate_holds(e) <==> (e == 0 || e == 1),
{
    assert(e * (1 - e) == 0 <==> e == 0 || 1 - e == 0) by (nonlinear_arith);
}

/// Monotonicity of `2^e`.
pub proof fn lemma_pow2_le(e1: nat, e2: nat)
    requires
        e1 <= e2,
    ensures
        pow2(e1) <= pow2(e2),
{
    if e1 < e2 {
        lemma_pow2_strictly_increases(e1, e2);
    }
}

/// `2^e` as an executable value.
pub fn pow2_u128(e: usize) -> (r: u128)
    requires
        e <= 127,
    ensures
        r == pow2(e as nat),
{
    proof {
        lemma2_to64();
        lemma2_to64_rest();
    }
    let mut r: u128 = 1;
    let mut i: usize = 0;
    while i < e
        invariant
            i <= e <= 127,
            r == pow2(i as nat),
        decreases e - i,
    {
        proof {
            lemma2_to64();
            lemma2_to64_rest();
            lemma_pow2_adds(i as nat, 1);
            lemma_pow2_adds(64, 64);
            lemma_pow2_strictly_increases((i + 1) as nat, 128);
        }
        r = r * 2;
        i = i + 1;
    }
    r
}

/// Splits a wide value into a carry part and an `n`-bit remainder:
/// the quotient and remainder of the value by `2^n`.
pub fn f_to_nbits(value: u128, n: usize) -> (r: (u128, u64))
    requires
        1 <= n <= 64,
    ensures
        r.0 * pow2(n as nat) + r.1 == value,
        r.1 < pow2(n as nat),
        r.0 == value as int / pow2(n as nat) as int,
{
    let p = pow2_u128(n);
    proof {
        lemma2_to64();
        lemma2_to64_rest();
        lemma_pow2_pos(n as nat);
        lemma_pow2_le(n as nat, 64);
        lemma_fundamental_div_mod(value as int, p as int);
        let q = value as int / p as int;
        assert(p * q == q * p) by (nonlinear_arith);
    }
    let hi = value / p;
    let lo = value % p;
    (hi, lo as u64)
}

/// Recombines an accumulated pair of `max_bits`-wide limbs with a new value
/// and splits the total again: the carry-out and the low limb of
/// `value + hi * 2^max_bits + lo`.
pub fn add_carry(value: u64, hi: u64, lo: u64, max_bits: usize) -> (r: (u128, u64))
    requires
        1 <= max_bits <= 63,
        hi < pow2(max_bits as nat),
    ensures
        r.0 * pow2(max_bits as nat) + r.1 == value + hi * pow2(max_bits as nat) + lo,
        r.1 < pow2(max_bits as nat),
{
    let p = pow2_u128(max_bits);
    proof {
        lemma2_to64();
        lemma2_to64_rest();
        lemma_pow2_le(max_bits as nat, 63);
        assert((hi as u128) * (p as u128) < 0x8000_0000_0000_0000 * 0x8000_0000_0000_0000)
            by (nonlinear_arith)
            requires
                hi < p,
                p <= 0x8000_0000_0000_0000,
        ;
    }
    let sum: u128 = value as u128 + (hi as u128) * p + lo as u128;
    f_to_nbits(sum, max_bits)
}

/// The product polynomial `w * (1 - w) * (2 - w) * ... * (range - 1 - w)`
/// that the polynomial range check activates under its selector.
pub open spec fn range_poly(w: int, range: nat) -> int
    decreases range,
{
    if range <= 1 {
        w
    } else {
        range_poly(w, (range - 1) as nat) * (range - 1 - w)
    }
}

/// The range-check product vanishes exactly on the allowed values: for a
/// positive range, `range_poly(w, range) == 0` iff `0 <= w < range`.
pub proof fn lemma_range_poly_zero_iff(w: int, range: nat)
    requires
        range >= 1,
    ensures
        range_poly(w, range) == 0 <==> 0 <= w < range,
    decreases range,
{
    if range > 1 {
        lemma_range_poly_zero_iff(w, (range - 1) as nat);
        let a = range_poly(w, (range - 1) as nat);
        let b = range - 1 - w;
        assert(a * b == 0 <==> a == 0 || b == 0) by (nonlinear_arith);
    }
}

/// Whether a single witness value passes the range check against `range`.
pub fn range_check(value: u64, range: u64) -> (r: bool)
    ensures
        r <==> value < range,
        range >= 1 ==> (r <==> range_poly(value as int, range as nat) == 0),
{
    proof {
        if range >= 1 {
            lemma_range_poly_zero_iff(value as int, range as nat);
        }
    }
    value < range
}

/// Whether every value of a witness vector passes the range check: the model
/// of activating one range-check product per element.
pub fn range_check_vec(value_vec: &Vec<u64>, range: u64) -> (r: bool)
    ensures
        r <==> forall|i: int| 0 <= i < value_vec.len() ==> value_vec[i] < range,
{
    let mut idx: usize = 0;
    while idx < value_vec.len()
        invariant
            idx <= value_vec.len(),
            forall|i: int| 0 <= i < idx ==> value_vec[i] < range,
        decreases value_vec.len() - idx,
    {
        if value_vec[idx] >= range {
            return false;
        }
        idx = idx + 1;
    }
    true
}

/// Division and remainder by `2^bits`, together: `value = q * 2^bits + r`.
pub fn div_rem_pow2(value: u128, bits: usize) -> (r: (u128, u128))
    requires
        bits <= 127,
    ensures
        r.0 == value as int / pow2(bits as nat) as int,
        r.1 == value as int % pow2(bits as nat) as int,
        value == r.0 * pow2(bits as nat) + r.1,
        r.1 < pow2(bits as nat),
{
    let p = pow2_u128(bits);
    proof {
        lemma_pow2_pos(bits as nat);
        lemma_fundamental_div_mod(value as int, p as int);
        let q = value as int / p as int;
        assert(p * q == q * p) by (nonlinear_arith);
    }
    (value / p, value % p)
}

} // verus!
