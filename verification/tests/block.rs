use sha2::Digest;

use tinychain::block::{calculate_data_hash, Block};
use tinychain::encoding::BincodeDecoder;
use tinychain::error::Error;
use tinychain::keypair::PrivateKey;
use tinychain::transaction::Transaction;

#[test]
fn test_hash_block() {
    let mut block = Block::random(0, tinychain::hash::Hash::default());
    let hash = block.hash();
    println!("hash: {}", hash.to_string());
}

#[test]
fn test_sign_block() {
    let private_key = PrivateKey::generate();
    let mut b = Block::random(0, tinychain::hash::Hash::default());
    b.sign(&private_key);
    assert!(b.signature.is_some());
}

#[test]
fn test_verify_block() {
    let private_key = PrivateKey::generate();
    let mut b = Block::random(0, tinychain::hash::Hash::default());
    b.sign(&private_key);
    b.verify().unwrap();

    // changing the data should make the signature invalid
    b.header.height = 100;
    assert!(b.verify().is_err());
    b.header.height = 0;

    // changing the public key should make the signature invalid
    let other_private_key = PrivateKey::generate();
    b.validator = Some(other_private_key.public_key());
    assert!(b.verify().is_err());
}

#[test]
fn test_genesis_is_deterministic() {
    let a = Block::genesis();
    let b = Block::genesis();
    assert_eq!(a.header, b.header);
    assert_eq!(a.header.height, 0);
    assert_eq!(a.header.version, 1);
    assert!(a.header.data_hash.is_zero());
    assert!(a.header.prev_block_hash.is_zero());
    assert_eq!(a.header.timestamp, 0);
    assert!(a.transactions.is_empty());
}

#[test]
fn test_block_encode_decode_round_trip() {
    let b = Block::random(3, tinychain::hash::Hash::random());

    let mut dec = BincodeDecoder::new(b.bytes());
    let b2 = Block::decode(&mut dec).unwrap();

    assert_eq!(b.header, b2.header);
    assert_eq!(b.transactions.len(), b2.transactions.len());
    assert_eq!(b.transactions[0].data, b2.transactions[0].data);
    assert_eq!(
        b.validator.as_ref().unwrap().bytes,
        b2.validator.as_ref().unwrap().bytes
    );
    assert_eq!(
        b.signature.as_ref().unwrap().bytes,
        b2.signature.as_ref().unwrap().bytes
    );
    // The cached hash is transient: it comes back zero.
    assert!(b2.hash.is_zero());
}

#[test]
fn test_block_verify_missing_signature() {
    let b = Block::genesis();
    assert_eq!(b.verify(), Err(Error::MissingSignature));
}

#[test]
fn test_verify_bad_data_hash() {
    let private_key = PrivateKey::generate();
    let mut b = Block::random(0, tinychain::hash::Hash::default());
    let mut extra = Transaction::random_with_signature();
    extra.calculate_and_cache_hash();
    b.add_transaction(extra);
    b.sign(&private_key);
    assert_eq!(b.verify(), Err(Error::BadDataHash));
}

#[test]
fn test_data_hash_matches_concatenated_encodings() {
    let t1 = Transaction::new(vec![1, 2]);
    let t2 = Transaction::new(vec![3]);
    let mut buf: Vec<u8> = Vec::new();
    buf.extend(t1.bytes());
    buf.extend(t2.bytes());
    let expected = sha2::Sha256::digest(&buf).to_vec();
    let got = calculate_data_hash(&vec![t1, t2]);
    assert_eq!(got.into_bytes(), expected);
}

#[test]
fn test_header_bytes_are_88() {
    let b = Block::genesis();
    assert_eq!(b.header.bytes().len(), 88);
}
