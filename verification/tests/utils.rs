use primitives::types::{Bytes32, Header};
use primitives::utils::{
    bytes32_to_node, calc_sync_period, compute_signing_root, hex_str_to_bytes, is_proof_valid,
    u64_to_hex_string,
};

#[test]
fn functions_are_reachable_under_one_path() {
    assert_eq!(calc_sync_period(8192), 1);
    assert_eq!(u64_to_hex_string(8192), "0x2000");
    assert_eq!(hex_str_to_bytes("0x2000"), Ok(vec![0x20, 0x00]));
    let word = Bytes32::try_from_vec(vec![9u8; 32]).unwrap();
    assert_eq!(bytes32_to_node(&word).unwrap().bytes, [9u8; 32]);
}

#[test]
fn signing_root_proves_itself_under_its_own_root() {
    let object_root = Bytes32::try_from_vec(vec![1u8; 32]).unwrap();
    let domain = Bytes32::try_from_vec(vec![2u8; 32]).unwrap();
    let root = compute_signing_root(object_root, domain).unwrap();
    let header = Header {
        slot: 0,
        proposer_index: 0,
        parent_root: Bytes32::try_from_vec(vec![0u8; 32]).unwrap(),
        state_root: Bytes32::try_from_slice(&root.bytes).unwrap(),
        body_root: Bytes32::try_from_vec(vec![0u8; 32]).unwrap(),
    };
    // The object root is the left child of the signing root, the domain the right one.
    let mut left = Bytes32::try_from_vec(vec![1u8; 32]).unwrap();
    let mut right = Bytes32::try_from_vec(vec![2u8; 32]).unwrap();
    let left_sibling = [Bytes32::try_from_vec(vec![2u8; 32]).unwrap()];
    let right_sibling = [Bytes32::try_from_vec(vec![1u8; 32]).unwrap()];
    assert!(is_proof_valid(&header, &mut left, &left_sibling, 1, 0));
    assert!(is_proof_valid(&header, &mut right, &right_sibling, 1, 1));
    assert!(!is_proof_valid(&header, &mut left, &left_sibling, 1, 1));
    assert!(!is_proof_valid(&header, &mut right, &right_sibling, 1, 0));
}
