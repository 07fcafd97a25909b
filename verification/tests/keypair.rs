use sha2::Digest;

use tinychain::keypair::PrivateKey;

#[test]
fn test_keypair_sign_verify_valid() {
    let private_key = PrivateKey::generate();
    let public_key = private_key.public_key();

    let msg = b"hello world".to_vec();
    let sig = private_key.sign(&msg);

    assert!(sig.verify(&msg, &public_key));
}

#[test]
fn test_keypair_sign_verify_fail() {
    let private_key = PrivateKey::generate();
    let _public_key = private_key.public_key();

    let msg = b"hello world".to_vec();
    let sig = private_key.sign(&msg);

    let other_private_key = PrivateKey::generate();
    let other_public_key = other_private_key.public_key();

    assert!(!sig.verify(&msg, &other_public_key));
    assert!(!sig.verify(&b"wrong message".to_vec(), &other_public_key));
}

#[test]
fn test_verify_rejects_garbage_encodings() {
    let private_key = PrivateKey::generate();
    let msg = b"hello".to_vec();
    let sig = private_key.sign(&msg);

    // An unparsable public key verifies nothing.
    let bad_key = tinychain::keypair::PublicKey { bytes: vec![1, 2, 3] };
    assert!(!sig.verify(&msg, &bad_key));

    // An unparsable signature verifies nothing.
    let bad_sig = tinychain::keypair::Signature { bytes: vec![9; 10] };
    assert!(!bad_sig.verify(&msg, &private_key.public_key()));
}

#[test]
fn test_address_is_tail_of_digest() {
    let private_key = PrivateKey::generate();
    let public_key = private_key.public_key();
    let address = public_key.address();
    let bytes = address.into_bytes();
    assert_eq!(bytes.len(), 20);

    let digest = sha2::Sha256::digest(&public_key.bytes).to_vec();
    assert_eq!(bytes, digest[12..].to_vec());
}

#[test]
fn test_public_key_encoding_is_sec1() {
    let private_key = PrivateKey::generate();
    let public_key = private_key.public_key();
    // Uncompressed SEC1: 65 bytes starting with 0x04.
    assert_eq!(public_key.bytes.len(), 65);
    assert_eq!(public_key.bytes[0], 4);
}
