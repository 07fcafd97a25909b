use vstd::prelude::*;

use crate::hash::{sha256, sha256_of, Address};
use crate::util::copy_bytes;

verus! {

/// Whether p256::ecdsa::SigningKey::from_slice accepts these bytes as a
/// secret key (a 32-byte encoding of a nonzero scalar below the curve
/// order); acceptance is a function of the bytes alone.
pub uninterp spec fn is_key_scalar(sk: Seq<u8>) -> bool;

/// The SEC1 point encoding of the public key belonging to a secret key;
/// a function of the secret key bytes alone.
pub uninterp spec fn pubkey_of(sk: Seq<u8>) -> Seq<u8>;

/// The deterministic (RFC 6979) ECDSA/P-256 signature over a message
/// under a secret key; a function of its two arguments alone.
pub uninterp spec fn sig_of(sk: Seq<u8>, data: Seq<u8>) -> Seq<u8>;

/// Whether ECDSA/P-256 verification accepts a signature over a message
/// under a SEC1-encoded public key; deterministic, and false whenever the
/// key or signature bytes do not parse.
pub uninterp spec fn sig_valid(pk: Seq<u8>, data: Seq<u8>, sig: Seq<u8>) -> bool;

/// Relies on p256::ecdsa::SigningKey::random (with the operating system
/// generator) and SigningKey::to_bytes: a freshly drawn key serializes to
/// 32 bytes that SigningKey::from_slice accepts again.
#[verifier::external_body]
fn generate_key_bytes() -> (r: Vec<u8>)
    ensures
        r@.len() == 32,
        is_key_scalar(r@),
{
    p256::ecdsa::SigningKey::random(&mut rand::rngs::OsRng).to_bytes().to_vec()
}

/// Relies on p256::ecdsa::SigningKey::verifying_key and
/// VerifyingKey::to_sec1_bytes: the public key's SEC1 point encoding,
/// 65 bytes (uncompressed) for this curve, a function of the key alone.
#[verifier::external_body]
fn public_key_bytes(sk: &Vec<u8>) -> (r: Vec<u8>)
    requires
        is_key_scalar(sk@),
    ensures
        r@ == pubkey_of(sk@),
        r@.len() == 65,
{
    let key = p256::ecdsa::SigningKey::from_slice(sk.as_slice()).unwrap();
    key.verifying_key().to_sec1_bytes().to_vec()
}

/// Relies on p256::ecdsa::SigningKey::sign (deterministic per RFC 6979)
/// and Signature::to_bytes: a 64-byte signature over the message that
/// verification accepts under the key's own public key.
#[verifier::external_body]
fn sign_bytes(sk: &Vec<u8>, data: &Vec<u8>) -> (r: Vec<u8>)
    requires
        is_key_scalar(sk@),
    ensures
        r@ == sig_of(sk@, data@),
        r@.len() == 64,
        sig_valid(pubkey_of(sk@), data@, r@),
{
    let key = p256::ecdsa::SigningKey::from_slice(sk.as_slice()).unwrap();
    let sig: p256::ecdsa::Signature = p256::ecdsa::signature::Signer::sign(&key, data.as_slice());
    sig.to_bytes().to_vec()
}

/// Relies on p256::ecdsa::VerifyingKey::verify, with
/// VerifyingKey::from_sec1_bytes and Signature::from_slice to parse the
/// inputs: deterministic acceptance; bytes that do not parse as a key or
/// signature verify nothing.
#[verifier::external_body]
fn verify_bytes(pk: &Vec<u8>, data: &Vec<u8>, sig: &Vec<u8>) -> (r: bool)
    ensures
        r == sig_valid(pk@, data@, sig@),
{
    let key = match p256::ecdsa::VerifyingKey::from_sec1_bytes(pk.as_slice()) {
        Ok(k) => k,
        Err(_) => return false,
    };
    let parsed = match p256::ecdsa::Signature::from_slice(sig.as_slice()) {
        Ok(s) => s,
        Err(_) => return false,
    };
    p256::ecdsa::signature::Verifier::verify(&key, data.as_slice(), &parsed).is_ok()
}

/// An ECDSA/P-256 secret key, held as its 32-byte scalar encoding.
pub struct PrivateKey {
    bytes: Vec<u8>,
}

impl View for PrivateKey {
    type V = Seq<u8>;

    closed spec fn view(&self) -> Seq<u8> {
        self.bytes@
    }
}

impl PrivateKey {
    /// Every private key holds bytes that the curve accepts as a key.
    #[verifier::type_invariant]
    pub(crate) open spec fn type_inv(self) -> bool {
        is_key_scalar(self@) && self@.len() == 32
    }

    /// Draw a fresh random key.
    pub fn generate() -> (k: PrivateKey)
    {
        PrivateKey { bytes: generate_key_bytes() }
    }

    /// The public half of the key, in SEC1 encoding.
    pub fn public_key(&self) -> (pk: PublicKey)
        ensures
            pk@ == pubkey_of(self@),
    {
        proof {
            use_type_invariant(self);
        }
        PublicKey { bytes: public_key_bytes(&self.bytes) }
    }

    /// Sign arbitrary bytes; the result verifies under this key's public
    /// key.
    pub fn sign(&self, data: &Vec<u8>) -> (sig: Signature)
        ensures
            sig@ == sig_of(self@, data@),
            sig_valid(pubkey_of(self@), data@, sig@),
    {
        proof {
            use_type_invariant(self);
        }
        Signature { bytes: sign_bytes(&self.bytes, data) }
    }

    /// An identical copy of the key.
    pub fn duplicate(&self) -> (r: PrivateKey)
        ensures
            r@ == self@,
    {
        proof {
            use_type_invariant(self);
        }
        PrivateKey { bytes: copy_bytes(&self.bytes) }
    }
}

/// An ECDSA/P-256 public key, held as its SEC1 point encoding. Keys that
/// arrive over the wire may hold arbitrary bytes; verification rejects
/// encodings that do not parse.
#[derive(Debug)]
pub struct PublicKey {
    pub bytes: Vec<u8>,
}

impl View for PublicKey {
    type V = Seq<u8>;

    open spec fn view(&self) -> Seq<u8> {
        self.bytes@
    }
}

impl PublicKey {
    /// The account address: the last 20 bytes of the SHA-256 digest of
    /// the key's canonical form. The canonical form of a key in this
    /// crate is the SEC1 byte encoding it is held and sent in — a
    /// deliberate choice, so that the address is total over wire keys
    /// and needs no second rendering of the point.
    pub fn address(&self) -> (a: Address)
        ensures
            a@ == sha256_of(self@).subrange(12, 32),
    {
        let digest = sha256(&self.bytes);
        let mut tail: Vec<u8> = Vec::new();
        let mut i: usize = 12;
        while i < 32
            invariant
                12 <= i <= 32,
                digest@.len() == 32,
                tail@ == digest@.subrange(12, i as int),
            decreases 32 - i,
        {
            tail.push(digest[i]);
            assert(digest@.subrange(12, i as int).push(digest@[i as int]) =~= digest@.subrange(
                12,
                i as int + 1,
            ));
            i = i + 1;
        }
        Address::from_vec_exact(tail)
    }

    /// An identical copy of the key encoding.
    pub fn duplicate(&self) -> (r: PublicKey)
        ensures
            r@ == self@,
    {
        PublicKey { bytes: copy_bytes(&self.bytes) }
    }
}

/// An ECDSA/P-256 signature, held as its 64-byte r || s encoding.
/// Signatures that arrive over the wire may hold arbitrary bytes;
/// verification rejects encodings that do not parse.
#[derive(Debug)]
pub struct Signature {
    pub bytes: Vec<u8>,
}

impl View for Signature {
    type V = Seq<u8>;

    open spec fn view(&self) -> Seq<u8> {
        self.bytes@
    }
}

impl Signature {
    /// Whether this signature verifies over `data` under `public_key`.
    pub fn verify(&self, data: &Vec<u8>, public_key: &PublicKey) -> (r: bool)
        ensures
            r == sig_valid(public_key@, data@, self@),
    {
        verify_bytes(&public_key.bytes, data, &self.bytes)
    }

    /// An identical copy of the signature encoding.
    pub fn duplicate(&self) -> (r: Signature)
        ensures
            r@ == self@,
    {
        Signature { bytes: copy_bytes(&self.bytes) }
    }
}

} // verus!
