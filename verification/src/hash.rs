use vstd::prelude::*;

use sha2::Digest;

use crate::error::Error;
use crate::util::{bytes_eq, bytes_lex_less, copy_bytes, lex_less};

verus! {

/// Named result of SHA-256: the digest is a function of the input bytes
/// alone, so it may be given a name without writing the algorithm down.
pub uninterp spec fn sha256_of(data: Seq<u8>) -> Seq<u8>;

/// Relies on sha2::Sha256::digest: a 32-byte digest determined by the
/// input bytes alone.
#[verifier::external_body]
pub(crate) fn sha256(data: &Vec<u8>) -> (r: Vec<u8>)
    ensures
        r@ == sha256_of(data@),
        r@.len() == 32,
{
    sha2::Sha256::digest(data.as_slice()).to_vec()
}

/// The ASCII code of one lowercase hex digit.
pub open spec fn hex_digit(n: u8) -> u8 {
    if n < 10 {
        (0x30 + n) as u8
    } else {
        (0x57 + n) as u8
    }
}

/// The lowercase hex rendering of a byte string, two digits per byte.
pub open spec fn hex_bytes(s: Seq<u8>) -> Seq<u8> {
    Seq::new(
        2 * s.len(),
        |i: int|
            if i % 2 == 0 {
                hex_digit(s[i / 2] / 16)
            } else {
                hex_digit(s[i / 2] % 16)
            },
    )
}

/// The all-zero digest value.
pub open spec fn zero_hash() -> Seq<u8> {
    Seq::new(32, |i: int| 0u8)
}

/// An opaque 32-byte content identifier.
#[derive(Debug)]
pub struct Hash {
    bytes: Vec<u8>,
}

impl View for Hash {
    type V = Seq<u8>;

    closed spec fn view(&self) -> Seq<u8> {
        self.bytes@
    }
}

impl PartialEq for Hash {
    fn eq(&self, other: &Hash) -> bool {
        bytes_eq(&self.bytes, &other.bytes)
    }
}

impl vstd::std_specs::cmp::PartialEqSpecImpl for Hash {
    open spec fn obeys_eq_spec() -> bool {
        true
    }

    open spec fn eq_spec(&self, other: &Hash) -> bool {
        self@ == other@
    }
}

impl Hash {
    /// Every hash value holds exactly 32 bytes.
    #[verifier::type_invariant]
    pub(crate) open spec fn type_inv(self) -> bool {
        self@.len() == 32
    }

    /// Wrap a byte vector already known to hold 32 bytes.
    pub fn from_vec_exact(bytes: Vec<u8>) -> (h: Hash)
        requires
            bytes@.len() == 32,
        ensures
            h@ == bytes@,
    {
        Hash { bytes }
    }

    /// Wrap a byte string, rejecting any input whose length is not 32.
    pub fn from_bytes(bytes: &Vec<u8>) -> (r: Result<Hash, Error>)
        ensures
            r is Ok <==> bytes@.len() == 32,
            r matches Ok(h) ==> h@ == bytes@,
    {
        if bytes.len() == 32 {
            Ok(Hash { bytes: copy_bytes(bytes) })
        } else {
            Err(Error::Codec)
        }
    }

    /// The all-zero hash.
    pub fn zero() -> (h: Hash)
        ensures
            h@ == zero_hash(),
    {
        let bytes: Vec<u8> = vec![0u8; 32];
        assert(bytes@ =~= zero_hash());
        Hash { bytes }
    }

    /// The 32 bytes of the hash.
    pub fn into_bytes(&self) -> (r: Vec<u8>)
        ensures
            r@ == self@,
    {
        copy_bytes(&self.bytes)
    }

    /// An identical copy of the hash.
    pub fn duplicate(&self) -> (r: Hash)
        ensures
            r@ == self@,
    {
        proof {
            use_type_invariant(self);
        }
        Hash { bytes: copy_bytes(&self.bytes) }
    }

    /// Whether every byte of the hash is zero.
    pub fn is_zero(&self) -> (r: bool)
        ensures
            r == (self@ == zero_hash()),
    {
        proof {
            use_type_invariant(self);
        }
        let mut i: usize = 0;
        while i < self.bytes.len()
            invariant
                i <= self.bytes@.len(),
                self.bytes@.len() == 32,
                forall|j: int| 0 <= j < i ==> self.bytes@[j] == 0u8,
            decreases self.bytes@.len() - i,
        {
            if self.bytes[i] != 0 {
                assert(self@ != zero_hash()) by {
                    assert(zero_hash()[i as int] == 0u8);
                }
                return false;
            }
            i = i + 1;
        }
        assert(self@ =~= zero_hash());
        true
    }

    /// Whether this hash comes before `other` in byte-lexicographic order.
    pub fn lex_less_than(&self, other: &Hash) -> (r: bool)
        ensures
            r == lex_less(self@, other@),
    {
        bytes_lex_less(&self.bytes, &other.bytes)
    }

    /// The hash rendered as 64 lowercase hex digits.
    pub fn to_string(&self) -> (r: String)
        ensures
            r@ == vstd::utf8::decode_utf8(hex_bytes(self@)),
            vstd::utf8::encode_utf8(r@) == hex_bytes(self@),
    {
        proof {
            use_type_invariant(self);
        }
        let mut out: Vec<u8> = Vec::new();
        let mut i: usize = 0;
        while i < self.bytes.len()
            invariant
                i <= self.bytes@.len(),
                self.bytes@.len() == 32,
                self@ == self.bytes@,
                out@ == hex_bytes(self@).take(2 * i as int),
            decreases self.bytes@.len() - i,
        {
            let b = self.bytes[i];
            out.push(if b / 16 < 10 {
                0x30 + b / 16
            } else {
                0x57 + b / 16
            });
            out.push(if b % 16 < 10 {
                0x30 + b % 16
            } else {
                0x57 + b % 16
            });
            assert(out@ =~= hex_bytes(self@).take(2 * (i as int + 1)));
            i = i + 1;
        }
        assert(out@ =~= hex_bytes(self@));
        proof {
            assert forall|j: int|
                0 <= j < out@.len() implies vstd::utf8::is_leading_byte_width_1(
                #[trigger] out@[j],
            ) by {}
            assert(out@.subrange(0, 0) =~= Seq::<u8>::empty());
            assert(vstd::utf8::partial_valid_utf8(out@, 0));
            vstd::utf8::partial_valid_utf8_extend_ascii_block(out@, 0, out@.len() as int);
            assert(out@.subrange(0, out@.len() as int) =~= out@);
            vstd::utf8::decode_utf8_encode_utf8(out@);
        }
        match crate::util::utf8_to_string(out) {
            Some(s) => s,
            None => unreached(),
        }
    }

    /// Relies on rand::RngCore::fill_bytes of thread_rng: 32 bytes are
    /// drawn; nothing is promised of their contents.
    #[verifier::external_body]
    pub fn random() -> (h: Hash)
        ensures
            h@.len() == 32,
    {
        let mut bytes = vec![0u8; 32];
        rand::RngCore::fill_bytes(&mut rand::thread_rng(), bytes.as_mut_slice());
        Hash { bytes }
    }
}

impl Default for Hash {
    /// The default hash is the all-zero hash.
    fn default() -> (h: Hash)
        ensures
            h@ == zero_hash(),
    {
        Hash::zero()
    }
}

/// A 20-byte account address derived from a public key.
#[derive(Debug)]
pub struct Address {
    bytes: Vec<u8>,
}

impl View for Address {
    type V = Seq<u8>;

    closed spec fn view(&self) -> Seq<u8> {
        self.bytes@
    }
}

impl Address {
    /// Every address holds exactly 20 bytes.
    #[verifier::type_invariant]
    pub(crate) open spec fn type_inv(self) -> bool {
        self@.len() == 20
    }

    /// Wrap a byte vector already known to hold 20 bytes.
    pub fn from_vec_exact(bytes: Vec<u8>) -> (a: Address)
        requires
            bytes@.len() == 20,
        ensures
            a@ == bytes@,
    {
        Address { bytes }
    }

    /// The 20 bytes of the address.
    pub fn into_bytes(&self) -> (r: Vec<u8>)
        ensures
            r@ == self@,
    {
        copy_bytes(&self.bytes)
    }
}

} // verus!
