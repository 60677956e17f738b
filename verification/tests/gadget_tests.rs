use sum_tree_chips::inclusion_check_v2::InclusionCheckV2Chip;
use sum_tree_chips::is_zero::IsZeroChip;
use sum_tree_chips::less_than::LessThanChip;
use sum_tree_chips::less_than_v2::LtChip;
use sum_tree_chips::Error;

#[test]
fn less_than_test_less_than_2() {
    // initate value
    let value = 755u64;
    let chip = LessThanChip::construct(LessThanChip::configure());

    let target = 800u64;

    // define public inputs looping from 0 to target and adding each value
    let mut pub_inputs: Vec<u64> = vec![];
    let mut i = 0u64;
    while i < target {
        pub_inputs.push(i);
        i += 1;
    }

    // should verify as value is less than target
    assert!(chip.assign(value, &pub_inputs));

    // shouldn't verify as value is greater than target
    let target_2 = 754u64;

    let mut pub_inputs_2: Vec<u64> = vec![];
    let mut j = 0u64;
    while j < target_2 {
        pub_inputs_2.push(j);
        j += 1;
    }

    assert!(!chip.assign(value, &pub_inputs_2));
}

#[test]
fn less_than_v2_test_less_than_2() {
    // initate the compared values
    let value_l = 5u64;
    let value_r = 10u64;
    let check = true;

    let chip = LtChip::construct(LtChip::configure(8).unwrap());

    // Test 1 - should be valid
    let (lt, _diff) = chip.assign(value_l, value_r);
    assert_eq!(lt == 1, check);

    // switch value_l and value_r
    // Test 2 - the claimed outcome no longer matches
    let (lt2, _diff2) = chip.assign(10, 5);
    assert_ne!(lt2 == 1, check);

    // let check be false
    // Test 3 - should be valid
    assert_eq!(lt2 == 1, false);
}

#[test]
fn test_inclusion_check_2() {
    // initate usernames and balances array
    let mut usernames: Vec<u64> = vec![0; 10];
    let mut balances: Vec<u64> = vec![0; 10];

    // add 10 values to the username array and balances array
    for i in 0..10u64 {
        usernames[i as usize] = i;
        balances[i as usize] = i * 2;
    }

    let chip = InclusionCheckV2Chip::construct(InclusionCheckV2Chip::configure());
    let (user_acc, balance_acc) = chip.assign_rows(&usernames, &balances, 0, 7).unwrap();

    // Test 1 - Inclusion check on an existing entry for the corresponding inclusion_index
    let public_input_valid = vec![7u64, 14];
    assert!(chip.expose_public(user_acc, &public_input_valid, 0));
    assert!(chip.expose_public(balance_acc, &public_input_valid, 1));

    // Test 2 - Inclusion check on an existing entry but not for the corresponding inclusion_index
    let public_input_invalid = vec![8u64, 16];
    assert!(!chip.expose_public(user_acc, &public_input_invalid, 0));
    assert!(!chip.expose_public(balance_acc, &public_input_invalid, 1));

    // Test 3 - Inclusion check on a non-existing entry
    let public_input_invalid2 = vec![10u64, 20];
    assert!(!chip.expose_public(user_acc, &public_input_invalid2, 0));
    assert!(!chip.expose_public(balance_acc, &public_input_invalid2, 1));
}

#[test]
fn test_is_zero_flag() {
    let chip = IsZeroChip::construct(IsZeroChip::configure());
    assert_eq!(chip.assign(0), 1);
    assert_eq!(chip.assign(1), 0);
    assert_eq!(chip.assign(12345), 0);
}

#[test]
fn test_lt_chip_diff_bytes() {
    // 5 < 10: diff = 5 - 10 + 2^64, whose little-endian bytes are
    // 0xfb 0xff ... 0xff.
    let chip = LtChip::construct(LtChip::configure(8).unwrap());
    let (lt, diff) = chip.assign(5, 10);
    assert_eq!(lt, 1);
    assert_eq!(diff, vec![0xfb, 0xff, 0xff, 0xff, 0xff, 0xff, 0xff, 0xff]);

    // 10 >= 5: diff = 10 - 5 = 5.
    let (lt2, diff2) = chip.assign(10, 5);
    assert_eq!(lt2, 0);
    assert_eq!(diff2, vec![5, 0, 0, 0, 0, 0, 0, 0]);
}

#[test]
fn test_lt_chip_rejects_bad_width() {
    assert_eq!(LtChip::configure(0), Err(Error::Synthesis));
    assert_eq!(LtChip::configure(16), Err(Error::Synthesis));
}

#[test]
fn test_lt_chip_equal_values() {
    let chip = LtChip::construct(LtChip::configure(8).unwrap());
    let (lt, _diff) = chip.assign(7, 7);
    assert_eq!(lt, 0);
}

#[test]
fn test_inclusion_check_1() {
    // initate usernames and balances array
    let mut usernames: Vec<u64> = vec![0; 10];
    let mut balances: Vec<u64> = vec![0; 10];

    // add 10 values to the username array and balances array
    for i in 0..10u64 {
        usernames[i as usize] = i;
        balances[i as usize] = i * 2;
    }
    let inclusion_index = 7usize;

    let chip = sum_tree_chips::inclusion_check::InclusionCheckChip::construct(
        sum_tree_chips::inclusion_check::InclusionCheckChip::configure(),
    );
    let mut selected = (0u64, 0u64);
    for i in 0..10usize {
        if i == inclusion_index {
            selected = chip
                .assign_inclusion_check_row(usernames[i], balances[i])
                .unwrap();
        } else {
            chip.assign_generic_row(usernames[i], balances[i]).unwrap();
        }
    }

    // Test 1 - Inclusion check on an existing entry for the corresponding inclusion_index
    let public_input_valid = vec![7u64, 14];
    assert!(chip.expose_public(selected.0, selected.1, &public_input_valid));

    // Test 2 - Inclusion check on an existing entry but not for the corresponding inclusion_index
    let public_input_invalid = vec![8u64, 16];
    assert!(!chip.expose_public(selected.0, selected.1, &public_input_invalid));

    // Test 3 - Inclusion check on a non-existing entry
    let public_input_invalid2 = vec![10u64, 20];
    assert!(!chip.expose_public(selected.0, selected.1, &public_input_invalid2));
}

#[test]
fn test_inclusion_check() {
    // The same ten-user table, checked through the selected row's cells.
    let mut usernames: Vec<u64> = vec![0; 10];
    let mut balances: Vec<u64> = vec![0; 10];
    for i in 0..10u64 {
        usernames[i as usize] = i;
        balances[i as usize] = i * 2;
    }

    let chip = sum_tree_chips::inclusion_check::InclusionCheckChip::construct(
        sum_tree_chips::inclusion_check::InclusionCheckChip::configure(),
    );
    let selected = chip.assign_inclusion_check_row(usernames[7], balances[7]).unwrap();

    assert!(chip.expose_public(selected.0, selected.1, &vec![7u64, 14]));
    assert!(!chip.expose_public(selected.0, selected.1, &vec![8u64, 16]));
    assert!(!chip.expose_public(selected.0, selected.1, &vec![10u64, 20]));
}
