use sum_tree_chips::add_carry::{AddCarryChip, AddCarryV2Chip};
use sum_tree_chips::decompose::decompose_bigInt_to_ubits;
use sum_tree_chips::overflow_check::OverFlowChip;
use sum_tree_chips::overflow_check_v2::OverflowChipV2;
use sum_tree_chips::safe_accumulator::{SafeACcumulatorChip, SafeAccumulatorCircuit};
use sum_tree_chips::utils::range_check;
use sum_tree_chips::Error;

#[test]
fn test_carry_1() {
    // a: new value
    let a = vec![(1u64 << 16) - 1, 1];
    let public_inputs = vec![1u64, 0]; // final accumulated values

    let chip = AddCarryChip::construct(AddCarryChip::configure());
    let (mut prev_b, mut prev_c) = chip.assign_first_row();
    for value in a {
        let (b, c) = chip.assign_advice_row(value, prev_b, prev_c);
        prev_b = b;
        prev_c = c;
    }
    assert!(chip.expose_public(prev_b, &public_inputs, 0));
    assert!(chip.expose_public(prev_c, &public_inputs, 1));
}

#[test]
fn test_carry_2() {
    let a = 1u64;
    let public_inputs = vec![0u64, (1 << 16) - 2, 0, (1 << 16) - 1];

    let chip = AddCarryV2Chip::construct(AddCarryV2Chip::configure());
    let (prev_b, prev_c) = chip.assign_first_row(&public_inputs).unwrap();
    let (b, c, is_zero_flag) = chip.assign_advice_row(a, prev_b, prev_c);
    assert!(chip.expose_public(b, &public_inputs, 2));
    assert!(chip.expose_public(c, &public_inputs, 3));
    assert_eq!(is_zero_flag, 1);
}

#[test]
fn overflow_check_test_none_overflow_case() {
    // a: new value
    let a = (1u64 << 16) + 3;
    let public_inputs = vec![
        // initial values for the two low limbs
        0u64,
        (1 << 16) - 2,
        // checking value: overflow limb, then the high and low limbs
        0,
        2,
        1,
    ];

    let chip = OverFlowChip::construct(OverFlowChip::configure());
    let (prev_b, prev_c, prev_d) = chip.assign_first_row(&public_inputs).unwrap();
    let (b, c, d) = chip.assign_advice_row(a, prev_b, prev_c, prev_d).unwrap();
    assert!(chip.expose_public(b, &public_inputs, 2));
    assert!(chip.expose_public(c, &public_inputs, 3));
    assert!(chip.expose_public(d, &public_inputs, 4));
}

#[test]
fn overflow_check_test_overflow_case() {
    // a: new value
    let a = (1u64 << 32) + 2;
    let public_inputs = vec![0u64, (1 << 16) - 1];

    let chip = OverFlowChip::construct(OverFlowChip::configure());
    let (prev_b, prev_c, prev_d) = chip.assign_first_row(&public_inputs).unwrap();
    let r = chip.assign_advice_row(a, prev_b, prev_c, prev_d);
    assert_eq!(r, Err(Error::Overflow));
}

#[test]
fn overflow_check_v2_test_none_overflow_case() {
    let a = (1u64 << 16) - 2;
    let b = 1u64;

    let config = OverflowChipV2::configure(4, 4).unwrap();
    let chip = OverflowChipV2::construct(config);
    let table = chip.load();
    assert!(chip.assign(a, &table).is_ok());
    assert!(chip.assign(b, &table).is_ok());
    assert!(chip.assign(a + b, &table).is_ok());
}

#[test]
fn overflow_check_v2_test_overflow_case() {
    let a = (1u64 << 16) - 2;
    let b = 3u64;

    let config = OverflowChipV2::configure(4, 4).unwrap();
    let chip = OverflowChipV2::construct(config);
    let table = chip.load();
    assert!(chip.assign(a, &table).is_ok());
    assert!(chip.assign(b, &table).is_ok());
    assert_eq!(chip.assign(a + b, &table), Err(Error::OutOfRange));
}

#[test]
fn safe_accumulator_test_none_overflow_case() {
    let values = vec![4u64];
    let accumulated_value = vec![
        0u64,
        0,
        (1 << 4) - 2, // 0xe
        (1 << 4) - 3, // 0xd
    ];

    let result_accumulated = vec![
        0u64,
        0,
        (1 << 4) - 1, // 0xf
        1,            // 0x1
    ];

    let chip = SafeACcumulatorChip::construct(SafeACcumulatorChip::configure(4, 4).unwrap());
    let circuit = SafeAccumulatorCircuit { values, accumulated_value };
    let final_limbs = circuit.synthesize(&chip).unwrap();
    assert_eq!(final_limbs, result_accumulated);
}

#[test]
fn test_none_overflow_case_with_multiple_values() {
    let values = vec![1u64, 3];
    let accumulated_value = vec![
        0u64,
        0,
        (1 << 4) - 2, // 0xe
        (1 << 4) - 3, // 0xd
    ];

    let result_accumulated = vec![
        0u64,
        0,
        (1 << 4) - 1, // 0xf
        1,            // 0x1
    ];

    let chip = SafeACcumulatorChip::construct(SafeACcumulatorChip::configure(4, 4).unwrap());
    let circuit = SafeAccumulatorCircuit { values, accumulated_value };
    let final_limbs = circuit.synthesize(&chip).unwrap();
    assert_eq!(final_limbs, result_accumulated);
}

#[test]
fn safe_accumulator_test_overflow_case() {
    let values = vec![4u64];
    let accumulated_value = vec![
        0u64,
        (1 << 4) - 1, // 0xf
        (1 << 4) - 1, // 0xf
        (1 << 4) - 3, // 0xd
    ];

    let chip = SafeACcumulatorChip::construct(SafeACcumulatorChip::configure(4, 4).unwrap());
    let circuit = SafeAccumulatorCircuit { values, accumulated_value };
    assert_eq!(circuit.synthesize(&chip), Err(Error::Overflow));
}

#[test]
#[allow(non_snake_case)]
fn test_decompose_bigInt_to_u16() {
    // The value whose 64-bit digits are [u32::MAX, u32::MAX]: 2^64 - 1.
    let b: u128 = 0xffff_ffff_ffff_ffff;
    let decom = decompose_bigInt_to_ubits(b, 12, 16);
    assert_eq!(decom[0], 65535);
    assert_eq!(decom[1], 65535);
    assert_eq!(decom[2], 65535);
    assert_eq!(decom[3], 65535);
    assert_eq!(decom[4], 0);
}

#[test]
fn test_decompose_mixed_limbs() {
    // 0x1_23_45 in 4-bit limbs, little-endian.
    let decom = decompose_bigInt_to_ubits(0x1_2345, 6, 4);
    assert_eq!(decom, vec![5, 4, 3, 2, 1, 0]);
}

#[test]
fn test_range_check_boundaries() {
    assert!(range_check(0, 16));
    assert!(range_check(15, 16));
    assert!(!range_check(16, 16));
    assert!(!range_check(255, 16));
}

#[test]
fn test_accumulator_detection_mode_exposes_overflow_limb() {
    // Adding past the three low limbs leaves the overflow limb observable
    // when the prohibition selector is off.
    let chip = SafeACcumulatorChip::construct(SafeACcumulatorChip::configure(4, 4).unwrap());
    let prev = vec![0u64, 0xf, 0xf, 0xd];
    let (updated, carries) = chip.assign(4, &prev, false).unwrap();
    assert_eq!(updated, vec![1, 0, 0, 1]);
    assert_eq!(carries, vec![0, 1, 1, 1]);
    // The same update under the prohibition is rejected.
    assert_eq!(chip.assign(4, &prev, true), Err(Error::Overflow));
}

#[test]
fn test_accumulator_rejects_out_of_range_inputs() {
    let chip = SafeACcumulatorChip::construct(SafeACcumulatorChip::configure(4, 4).unwrap());
    // The increment must itself pass the 4-bit range check.
    assert_eq!(chip.assign(16, &vec![0u64, 0, 0, 0], true), Err(Error::OutOfRange));
    // So must every previous limb.
    assert_eq!(chip.assign(1, &vec![0u64, 0, 16, 0], true), Err(Error::OutOfRange));
}

#[test]
fn test_accumulator_hard_overflow_past_all_limbs() {
    // A total that exceeds even the overflow limb's range check is a hard
    // failure in detection mode too.
    let chip = SafeACcumulatorChip::construct(SafeACcumulatorChip::configure(4, 4).unwrap());
    let prev = vec![0xfu64, 0xf, 0xf, 0xf];
    assert_eq!(chip.assign(1, &prev, false), Err(Error::Overflow));
}

#[test]
fn test_configure_rejects_malformed_shape() {
    assert_eq!(SafeACcumulatorChip::configure(0, 4), Err(Error::Synthesis));
    assert_eq!(SafeACcumulatorChip::configure(33, 4), Err(Error::Synthesis));
    assert_eq!(SafeACcumulatorChip::configure(16, 100), Err(Error::Synthesis));
    assert!(SafeACcumulatorChip::configure(16, 4).is_ok());
}
