use primitives::signature::{is_aggregate_valid, verify_decoded};
use primitives::types::{Error, SignatureBytes};
use snowbridge_milagro_bls::{AggregateSignature, AmclError, PublicKey, SecretKey, Signature};

const MESSAGE: &[u8] = b"the signing root of an attested header";

fn secret_key(seed: u8) -> SecretKey {
    let mut bytes = [0u8; 32];
    bytes[31] = seed;
    bytes[17] = seed.wrapping_mul(57).wrapping_add(3);
    bytes[5] = seed.wrapping_mul(31).wrapping_add(1);
    SecretKey::from_bytes(&bytes).unwrap()
}

fn committee(size: u8) -> Vec<SecretKey> {
    (1..=size).map(secret_key).collect()
}

fn public_keys(committee: &[SecretKey]) -> Vec<PublicKey> {
    committee.iter().map(PublicKey::from_secret_key).collect()
}

fn aggregate(committee: &[SecretKey], message: &[u8]) -> Vec<u8> {
    let mut aggregate = AggregateSignature::new();
    for key in committee {
        aggregate.add(&Signature::new(message, key));
    }
    aggregate.as_bytes().to_vec()
}

fn signature_bytes(bytes: &[u8]) -> SignatureBytes {
    SignatureBytes::try_from_slice(bytes).unwrap()
}

fn flips_are_rejected(first_byte: usize, last_byte: usize) {
    let signers = committee(2);
    let keys = public_keys(&signers);
    let borrowed: Vec<&PublicKey> = keys.iter().collect();
    let signature = aggregate(&signers, MESSAGE);
    assert!(is_aggregate_valid(&signature_bytes(&signature), MESSAGE, &borrowed));
    for byte in first_byte..last_byte {
        for bit in 0..8 {
            let mut changed = signature.clone();
            changed[byte] ^= 1u8 << bit;
            assert!(!is_aggregate_valid(&signature_bytes(&changed), MESSAGE, &borrowed));
        }
    }
}

#[test]
fn aggregate_of_the_whole_committee_is_accepted() {
    let signers = committee(4);
    let keys = public_keys(&signers);
    let borrowed: Vec<&PublicKey> = keys.iter().collect();
    let signature = signature_bytes(&aggregate(&signers, MESSAGE));
    assert!(is_aggregate_valid(&signature, MESSAGE, &borrowed));
}

#[test]
fn aggregate_of_one_signer_is_accepted() {
    let signers = committee(1);
    let keys = public_keys(&signers);
    let signature = signature_bytes(&aggregate(&signers, MESSAGE));
    assert!(is_aggregate_valid(&signature, MESSAGE, &[&keys[0]]));
}

#[test]
fn aggregate_does_not_depend_on_the_order_of_keys() {
    let signers = committee(3);
    let keys = public_keys(&signers);
    let signature = signature_bytes(&aggregate(&signers, MESSAGE));
    assert!(is_aggregate_valid(&signature, MESSAGE, &[&keys[2], &keys[0], &keys[1]]));
}

#[test]
fn aggregate_over_another_message_is_rejected() {
    let signers = committee(3);
    let keys = public_keys(&signers);
    let borrowed: Vec<&PublicKey> = keys.iter().collect();
    let signature = signature_bytes(&aggregate(&signers, MESSAGE));
    assert!(!is_aggregate_valid(&signature, b"another message", &borrowed));
    assert!(!is_aggregate_valid(&signature, b"", &borrowed));
    let mut changed = MESSAGE.to_vec();
    changed[0] ^= 1;
    assert!(!is_aggregate_valid(&signature, &changed, &borrowed));
}

#[test]
fn aggregate_with_a_signer_missing_from_the_keys_is_rejected() {
    let signers = committee(4);
    let keys = public_keys(&signers);
    let signature = signature_bytes(&aggregate(&signers, MESSAGE));
    for missing in 0..4 {
        let borrowed: Vec<&PublicKey> =
            keys.iter().enumerate().filter(|(i, _)| *i != missing).map(|(_, key)| key).collect();
        assert_eq!(borrowed.len(), 3);
        assert!(!is_aggregate_valid(&signature, MESSAGE, &borrowed));
    }
}

#[test]
fn aggregate_with_a_key_that_did_not_sign_is_rejected() {
    let signers = committee(3);
    let mut keys = public_keys(&signers);
    keys.push(PublicKey::from_secret_key(&secret_key(200)));
    let borrowed: Vec<&PublicKey> = keys.iter().collect();
    let signature = signature_bytes(&aggregate(&signers, MESSAGE));
    assert!(!is_aggregate_valid(&signature, MESSAGE, &borrowed));
    let strangers = public_keys(&[secret_key(201), secret_key(202), secret_key(203)]);
    let borrowed: Vec<&PublicKey> = strangers.iter().collect();
    assert!(!is_aggregate_valid(&signature, MESSAGE, &borrowed));
}

#[test]
fn aggregate_without_keys_is_rejected() {
    let signers = committee(2);
    let signature = signature_bytes(&aggregate(&signers, MESSAGE));
    assert!(!is_aggregate_valid(&signature, MESSAGE, &[]));
    let empty = signature_bytes(&aggregate(&[], MESSAGE));
    assert!(!is_aggregate_valid(&empty, MESSAGE, &[]));
}

#[test]
fn aggregate_with_flipped_bits_in_bytes_0_to_11_is_rejected() {
    flips_are_rejected(0, 12);
}

#[test]
fn aggregate_with_flipped_bits_in_bytes_12_to_23_is_rejected() {
    flips_are_rejected(12, 24);
}

#[test]
fn aggregate_with_flipped_bits_in_bytes_24_to_35_is_rejected() {
    flips_are_rejected(24, 36);
}

#[test]
fn aggregate_with_flipped_bits_in_bytes_36_to_47_is_rejected() {
    flips_are_rejected(36, 48);
}

#[test]
fn aggregate_with_flipped_bits_in_bytes_48_to_59_is_rejected() {
    flips_are_rejected(48, 60);
}

#[test]
fn aggregate_with_flipped_bits_in_bytes_60_to_71_is_rejected() {
    flips_are_rejected(60, 72);
}

#[test]
fn aggregate_with_flipped_bits_in_bytes_72_to_83_is_rejected() {
    flips_are_rejected(72, 84);
}

#[test]
fn aggregate_with_flipped_bits_in_bytes_84_to_95_is_rejected() {
    flips_are_rejected(84, 96);
}

#[test]
fn bytes_that_are_no_signature_are_rejected() {
    let signers = committee(2);
    let keys = public_keys(&signers);
    let borrowed: Vec<&PublicKey> = keys.iter().collect();
    assert!(!is_aggregate_valid(&signature_bytes(&[0u8; 96]), MESSAGE, &borrowed));
    assert!(!is_aggregate_valid(&signature_bytes(&[0xffu8; 96]), MESSAGE, &borrowed));
    let counting: Vec<u8> = (0..96).collect();
    assert!(!is_aggregate_valid(&signature_bytes(&counting), MESSAGE, &borrowed));
}

#[test]
fn signature_of_another_length_cannot_be_made() {
    let signers = committee(2);
    let signature = aggregate(&signers, MESSAGE);
    assert_eq!(SignatureBytes::try_from_slice(&signature[..95]), Err(Error::MalformedInput));
    assert_eq!(SignatureBytes::try_from_slice(&signature[..48]), Err(Error::MalformedInput));
    let mut longer = signature.clone();
    longer.push(0);
    assert_eq!(SignatureBytes::try_from_vec(longer), Err(Error::MalformedInput));
    assert!(SignatureBytes::try_from_vec(signature).is_ok());
}

#[test]
fn undecoded_signature_is_rejected() {
    let signers = committee(2);
    let keys = public_keys(&signers);
    let borrowed: Vec<&PublicKey> = keys.iter().collect();
    assert!(!verify_decoded(Err(AmclError::InvalidG2Size), MESSAGE, &borrowed));
    assert!(!verify_decoded(Err(AmclError::InvalidPoint), MESSAGE, &borrowed));
    let decoded = AggregateSignature::from_bytes(&aggregate(&signers, MESSAGE));
    assert!(verify_decoded(decoded, MESSAGE, &borrowed));
    let decoded = AggregateSignature::from_bytes(&aggregate(&signers, MESSAGE));
    assert!(!verify_decoded(decoded, MESSAGE, &[]));
}
