use sha2::Digest;

use tinychain::encoding::BincodeDecoder;
use tinychain::error::Error;
use tinychain::keypair::PrivateKey;
use tinychain::transaction::Transaction;

#[test]
fn test_sign_transaction() {
    let mut tx = Transaction::new(vec![1, 2, 3]);
    let private_key = PrivateKey::generate();
    tx.sign(&private_key);

    assert!(tx.signature.is_some());
}

#[test]
fn test_verify_transaction() {
    let mut tx = Transaction::new(vec![1, 2, 3]);
    let private_key = PrivateKey::generate();
    tx.sign(&private_key);
    tx.verify().unwrap();

    let other_private_key = PrivateKey::generate();
    tx.from = Some(other_private_key.public_key());
    assert!(tx.verify().is_err());
}

#[test]
fn test_encode_decode() {
    let tx = Transaction::random_with_signature();

    let buf = tx.bytes();

    let mut dec = BincodeDecoder::new(buf);
    let tx_decoded = Transaction::decode(&mut dec).unwrap();
    assert_eq!(tx.data, tx_decoded.data);
}

#[test]
fn test_encode_decode_full_round_trip() {
    let mut tx = Transaction::random_with_signature();
    tx.set_first_seen(77);

    let mut dec = BincodeDecoder::new(tx.bytes());
    let tx2 = Transaction::decode(&mut dec).unwrap();

    assert_eq!(tx.data, tx2.data);
    assert_eq!(
        tx.from.as_ref().unwrap().bytes,
        tx2.from.as_ref().unwrap().bytes
    );
    assert_eq!(
        tx.signature.as_ref().unwrap().bytes,
        tx2.signature.as_ref().unwrap().bytes
    );
    // The transients never reach the wire.
    assert!(tx2.hash.is_none());
    assert_eq!(tx2.first_seen(), 0);
}

#[test]
fn test_wire_format_exact_bytes() {
    // An unsigned transaction over [1, 2, 3]: a u64 length prefix, the
    // payload, and two absent-field tags.
    let tx = Transaction::new(vec![1, 2, 3]);
    assert_eq!(
        tx.bytes(),
        vec![3, 0, 0, 0, 0, 0, 0, 0, 1, 2, 3, 0, 0]
    );
}

#[test]
fn test_verify_missing_signature() {
    let tx = Transaction::new(vec![1]);
    assert_eq!(tx.verify(), Err(Error::MissingSignature));
}

#[test]
fn test_verify_missing_sender() {
    let mut tx = Transaction::new(vec![1]);
    tx.signature = Some(tinychain::keypair::Signature { bytes: vec![0; 64] });
    assert_eq!(tx.verify(), Err(Error::MissingSender));
}

#[test]
fn test_verify_bad_signature() {
    let mut tx = Transaction::new(vec![1, 2, 3]);
    let key = PrivateKey::generate();
    tx.sign(&key);
    tx.data = vec![9, 9, 9];
    assert_eq!(tx.verify(), Err(Error::BadSignature));
}

#[test]
fn test_decode_garbage_fails() {
    let mut dec = BincodeDecoder::new(vec![255, 255, 255]);
    assert_eq!(
        Transaction::decode(&mut dec).unwrap_err(),
        Error::Codec
    );
}

#[test]
fn test_cached_hash_matches_sha256() {
    let mut tx = Transaction::new(vec![10, 20, 30]);
    tx.calculate_and_cache_hash();
    let expected: Vec<u8> = sha2::Sha256::digest(&[10u8, 20, 30]).to_vec();
    assert_eq!(tx.hash().into_bytes(), expected);
}
