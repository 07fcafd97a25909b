use tinychain::error::Error;

#[test]
fn test_hash_from_bytes_rejects_wrong_length() {
    assert_eq!(
        tinychain::hash::Hash::from_bytes(&vec![1, 2, 3]).unwrap_err(),
        Error::Codec
    );
    assert!(tinychain::hash::Hash::from_bytes(&vec![7; 32]).is_ok());
}

#[test]
fn test_hash_is_zero() {
    assert!(tinychain::hash::Hash::zero().is_zero());
    assert!(tinychain::hash::Hash::default().is_zero());
    let h = tinychain::hash::Hash::from_bytes(&vec![1; 32]).unwrap();
    assert!(!h.is_zero());
}

#[test]
fn test_hash_to_string_is_lowercase_hex() {
    let mut bytes = vec![0u8; 32];
    bytes[0] = 0x00;
    bytes[1] = 0xff;
    bytes[2] = 0x1a;
    let h = tinychain::hash::Hash::from_bytes(&bytes).unwrap();
    let s = h.to_string();
    assert_eq!(s.len(), 64);
    assert!(s.starts_with("00ff1a"));
    assert!(s[6..].chars().all(|c| c == '0'));
}

#[test]
fn test_hash_equality_is_by_bytes() {
    let a = tinychain::hash::Hash::from_bytes(&vec![5; 32]).unwrap();
    let b = tinychain::hash::Hash::from_bytes(&vec![5; 32]).unwrap();
    let c = tinychain::hash::Hash::from_bytes(&vec![6; 32]).unwrap();
    assert!(a == b);
    assert!(a != c);
}

#[test]
fn test_hash_random_lengths() {
    let h = tinychain::hash::Hash::random();
    assert_eq!(h.into_bytes().len(), 32);
}

#[test]
fn test_hash_lex_order() {
    let a = tinychain::hash::Hash::from_bytes(&vec![1; 32]).unwrap();
    let b = tinychain::hash::Hash::from_bytes(&vec![2; 32]).unwrap();
    assert!(a.lex_less_than(&b));
    assert!(!b.lex_less_than(&a));
    assert!(!a.lex_less_than(&a));
}
