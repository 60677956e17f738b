use ff::PrimeField;
use halo2_gadgets::poseidon::primitives::{ConstantLength, P128Pow5T3};
use pasta_curves::Fp;
use sum_tree_chips::merkle_sum_tree::{MerkleSumTreeChip, MerkleSumTreeCircuit};
use sum_tree_chips::poseidon::Digest;
use sum_tree_chips::Error;

#[derive(Debug, Clone)]
struct Node {
    pub hash: Fp,
    pub balance: Fp,
}

fn hash4(message: [Fp; 4]) -> Fp {
    halo2_gadgets::poseidon::primitives::Hash::<Fp, P128Pow5T3, ConstantLength<4>, 3, 2>::init()
        .hash(message)
}

fn compute_merkle_sum_root(node: &Node, elements: &Vec<Node>, indices: &Vec<Fp>) -> Node {
    let k = elements.len();
    let mut digest = node.clone();
    let mut message: [Fp; 4];
    for i in 0..k {
        if indices[i] == Fp::zero() {
            message = [digest.hash, digest.balance, elements[i].hash, elements[i].balance];
        } else {
            message = [elements[i].hash, elements[i].balance, digest.hash, digest.balance];
        }

        digest.hash = hash4(message);
        digest.balance = digest.balance + elements[i].balance;
    }
    digest
}

fn digest_from_fp(f: Fp) -> Digest {
    let b = f.to_repr();
    Digest {
        w0: u64::from_le_bytes(b[0..8].try_into().unwrap()),
        w1: u64::from_le_bytes(b[8..16].try_into().unwrap()),
        w2: u64::from_le_bytes(b[16..24].try_into().unwrap()),
        w3: u64::from_le_bytes(b[24..32].try_into().unwrap()),
    }
}

fn build_circuit(indices: Vec<u64>, assets_sum: u64) -> MerkleSumTreeCircuit {
    let element_hashes = vec![1u64, 5, 6, 9, 9];
    let element_balances = vec![10u64, 50, 60, 90, 90];
    MerkleSumTreeCircuit {
        leaf_hash: Digest::from_u64(10),
        leaf_balance: 100,
        path_element_hashes: element_hashes.iter().map(|h| Digest::from_u64(*h)).collect(),
        path_element_balances: element_balances,
        path_indices: indices,
        assets_sum,
    }
}

fn reference_root(indices: &Vec<u64>) -> Node {
    let leaf = Node { hash: Fp::from(10u64), balance: Fp::from(100u64) };
    let elements = vec![
        Node { hash: Fp::from(1u64), balance: Fp::from(10u64) },
        Node { hash: Fp::from(5u64), balance: Fp::from(50u64) },
        Node { hash: Fp::from(6u64), balance: Fp::from(60u64) },
        Node { hash: Fp::from(9u64), balance: Fp::from(90u64) },
        Node { hash: Fp::from(9u64), balance: Fp::from(90u64) },
    ];
    let fp_indices: Vec<Fp> = indices.iter().map(|i| Fp::from(*i)).collect();
    compute_merkle_sum_root(&leaf, &elements, &fp_indices)
}

#[test]
fn test_valid_merkle_sum_tree() {
    let indices = vec![0u64, 0, 0, 0, 0];
    let assets_sum = 500u64; // greater than liabilities sum (400)
    let root = reference_root(&indices);

    let chip = MerkleSumTreeChip::construct(MerkleSumTreeChip::configure());
    let circuit = build_circuit(indices, assets_sum);
    let (leaf_hash, leaf_balance, root_hash, root_sum) = circuit.synthesize(&chip).unwrap();

    let public_input = vec![
        Digest::from_u64(10),
        Digest::from_u64(100),
        digest_from_fp(root.hash),
    ];
    assert!(chip.expose_public(&leaf_hash, &public_input, 0));
    assert!(chip.expose_public(&Digest::from_u64(leaf_balance), &public_input, 1));
    assert!(chip.expose_public(&root_hash, &public_input, 2));
    assert_eq!(root_sum, 400);
    assert_eq!(root.balance, Fp::from(400u64));
}

#[test]
fn test_invalid_root_hash() {
    let indices = vec![0u64, 0, 0, 0, 0];
    let assets_sum = 500u64;

    let chip = MerkleSumTreeChip::construct(MerkleSumTreeChip::configure());
    let circuit = build_circuit(indices, assets_sum);
    let (_, _, root_hash, _) = circuit.synthesize(&chip).unwrap();

    // The instance claims 1000 as the root hash: the copy constraint between
    // the computed root cell and instance row 2 cannot be satisfied.
    let public_input = vec![
        Digest::from_u64(10),
        Digest::from_u64(100),
        Digest::from_u64(1000),
    ];
    assert!(!chip.expose_public(&root_hash, &public_input, 2));
}

#[test]
fn test_invalid_leaf_hash() {
    let indices = vec![0u64, 0, 0, 0, 0];
    let assets_sum = 500u64;

    let chip = MerkleSumTreeChip::construct(MerkleSumTreeChip::configure());
    let circuit = build_circuit(indices, assets_sum);
    let (leaf_hash, _, _, _) = circuit.synthesize(&chip).unwrap();

    // The instance claims 1000 as the leaf hash.
    let public_input = vec![
        Digest::from_u64(1000),
        Digest::from_u64(100),
        Digest::from_u64(0),
    ];
    assert!(!chip.expose_public(&leaf_hash, &public_input, 0));
}

#[test]
fn test_invalid_leaf_balance() {
    let indices = vec![0u64, 0, 0, 0, 0];
    let assets_sum = 500u64;

    let chip = MerkleSumTreeChip::construct(MerkleSumTreeChip::configure());
    let circuit = build_circuit(indices, assets_sum);
    let (_, leaf_balance, _, _) = circuit.synthesize(&chip).unwrap();

    // The instance claims 1000 as the leaf balance.
    let public_input = vec![
        Digest::from_u64(10),
        Digest::from_u64(1000),
        Digest::from_u64(0),
    ];
    assert!(!chip.expose_public(&Digest::from_u64(leaf_balance), &public_input, 1));
}

#[test]
fn test_non_binary_index() {
    let mut indices = vec![0u64, 0, 0, 0, 0];
    indices[0] = 2;
    let assets_sum = 500u64;

    let chip = MerkleSumTreeChip::construct(MerkleSumTreeChip::configure());
    let circuit = build_circuit(indices, assets_sum);
    assert_eq!(circuit.synthesize(&chip), Err(Error::NonBooleanIndex));
}

#[test]
fn test_swapping_index() {
    let valid_indices = vec![0u64, 0, 0, 0, 0];
    let mut indices = valid_indices.clone();
    indices[0] = 1;
    let assets_sum = 500u64;
    let expected_root = reference_root(&valid_indices);

    let chip = MerkleSumTreeChip::construct(MerkleSumTreeChip::configure());
    let circuit = build_circuit(indices, assets_sum);
    let (_, _, root_hash, _) = circuit.synthesize(&chip).unwrap();

    // Swapping the first level changes the computed root, so the copy
    // constraint against the unswapped root fails.
    let public_input = vec![
        Digest::from_u64(10),
        Digest::from_u64(100),
        digest_from_fp(expected_root.hash),
    ];
    assert!(!chip.expose_public(&root_hash, &public_input, 2));
}

#[test]
fn test_is_not_less_than() {
    let indices = vec![0u64, 0, 0, 0, 0];
    let assets_sum = 200u64; // less than liabilities sum (400)

    let chip = MerkleSumTreeChip::construct(MerkleSumTreeChip::configure());
    let circuit = build_circuit(indices, assets_sum);
    assert_eq!(circuit.synthesize(&chip), Err(Error::NotLessThan));
}

#[test]
fn test_layer_matches_primitive_hash() {
    // One level against the primitive directly: the chip's parent hash must
    // be the Poseidon digest of the swapped 4-tuple, not anything derived
    // from its inputs by the chip itself.
    let chip = MerkleSumTreeChip::construct(MerkleSumTreeChip::configure());
    let prev = Digest::from_u64(10);
    let element = Digest::from_u64(1);
    let (h, b) = chip.merkle_prove_layer(&prev, 100, &element, 10, 0).unwrap();
    let expected = hash4([Fp::from(10u64), Fp::from(100u64), Fp::from(1u64), Fp::from(10u64)]);
    assert_eq!(h, digest_from_fp(expected));
    assert_eq!(b, 110);

    // With the bit set, the chip hashes the tuple in swapped order.
    let (h1, _) = chip.merkle_prove_layer(&prev, 100, &element, 10, 1).unwrap();
    let swapped = hash4([Fp::from(1u64), Fp::from(10u64), Fp::from(10u64), Fp::from(100u64)]);
    assert_eq!(h1, digest_from_fp(swapped));
    assert_ne!(h, h1);
}

#[test]
fn test_layer_balance_overflow() {
    let chip = MerkleSumTreeChip::construct(MerkleSumTreeChip::configure());
    let prev = Digest::from_u64(10);
    let element = Digest::from_u64(1);
    let r = chip.merkle_prove_layer(&prev, u64::MAX, &element, 1, 0);
    assert_eq!(r, Err(Error::BalanceOverflow));
}

#[test]
fn test_empty_path_root_is_leaf() {
    let chip = MerkleSumTreeChip::construct(MerkleSumTreeChip::configure());
    let circuit = MerkleSumTreeCircuit {
        leaf_hash: Digest::from_u64(7),
        leaf_balance: 3,
        path_element_hashes: vec![],
        path_element_balances: vec![],
        path_indices: vec![],
        assets_sum: 4,
    };
    let (_, _, root_hash, root_sum) = circuit.synthesize(&chip).unwrap();
    assert_eq!(root_hash, Digest::from_u64(7));
    assert_eq!(root_sum, 3);
}
