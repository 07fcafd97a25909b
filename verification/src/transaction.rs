use vstd::prelude::*;

use crate::encoding::{
    dec_bytes, dec_opt_bytes, enc_bytes, enc_opt_bytes, BincodeDecoder, BincodeEncoder,
};
use crate::error::Error;
use crate::hash::{sha256, sha256_of};
use crate::keypair::{pubkey_of, sig_of, sig_valid, PrivateKey, PublicKey, Signature};
use crate::util::copy_bytes;

verus! {

/// The mathematical value of a transaction: its payload, the optional
/// sender key and signature, and the two node-local transient fields.
pub ghost struct TxV {
    pub data: Seq<u8>,
    pub from: Option<Seq<u8>>,
    pub signature: Option<Seq<u8>>,
    pub hash: Option<Seq<u8>>,
    pub first_seen: u128,
}

impl TxV {
    /// The two wire-carried values agree; transients are ignored.
    pub open spec fn same_wire(self, other: TxV) -> bool {
        self.data == other.data && self.from == other.from && self.signature == other.signature
    }

    /// Both optional fields are present and the signature verifies over
    /// the payload under the sender key.
    pub open spec fn sig_ok(self) -> bool {
        &&& self.from matches Some(pk) && self.signature matches Some(sig) && sig_valid(
            pk,
            self.data,
            sig,
        )
    }

    /// The cached hash, if present, is the SHA-256 of the payload.
    pub open spec fn hash_ok(self) -> bool {
        self.hash matches Some(h) ==> h == sha256_of(self.data)
    }
}

/// The rule by which an invalid transaction is rejected, in check
/// order: a missing signature, a missing sender, then a signature that
/// does not verify.
pub open spec fn tx_verify_error(t: TxV) -> Error {
    if t.signature is None {
        Error::MissingSignature
    } else if t.from is None {
        Error::MissingSender
    } else {
        Error::BadSignature
    }
}

/// The canonical encoding of a transaction. The cached hash and the
/// first-seen time are node-local and never reach the wire.
pub open spec fn tx_wire(t: TxV) -> Seq<u8> {
    enc_bytes(t.data) + enc_opt_bytes(t.from) + enc_opt_bytes(t.signature)
}

/// The spec parser for a transaction at the head of `s`.
pub open spec fn dec_tx(s: Seq<u8>) -> Option<(TxV, int)> {
    match dec_bytes(s) {
        None => None,
        Some((data, n1)) => match dec_opt_bytes(s.skip(n1)) {
            None => None,
            Some((from, n2)) => match dec_opt_bytes(s.skip(n1 + n2)) {
                None => None,
                Some((sig, n3)) => Some(
                    (
                        TxV { data, from, signature: sig, hash: None, first_seen: 0 },
                        n1 + n2 + n3,
                    ),
                ),
            },
        },
    }
}

/// The field lengths fit the machine, as they do for any transaction
/// actually held in memory.
pub open spec fn tx_wire_wf(t: TxV) -> bool {
    &&& t.data.len() <= usize::MAX
    &&& (t.from matches Some(k) ==> k.len() <= usize::MAX)
    &&& (t.signature matches Some(s) ==> s.len() <= usize::MAX)
}

/// Parsing inverts encoding for transactions, whatever follows.
pub proof fn lemma_dec_enc_tx(t: TxV, rest: Seq<u8>)
    requires
        tx_wire_wf(t),
    ensures
        dec_tx(tx_wire(t) + rest) matches Some(vn) && vn.0.same_wire(t) && vn.0.hash is None
            && vn.0.first_seen == 0 && vn.1 == tx_wire(t).len(),
{
    let s = tx_wire(t) + rest;
    let rest1 = enc_opt_bytes(t.from) + enc_opt_bytes(t.signature) + rest;
    assert(s =~= enc_bytes(t.data) + rest1);
    crate::encoding::lemma_dec_enc_bytes(t.data, rest1);
    let n1 = enc_bytes(t.data).len() as int;
    assert(s.skip(n1) =~= enc_opt_bytes(t.from) + (enc_opt_bytes(t.signature) + rest));
    crate::encoding::lemma_dec_enc_opt_bytes(t.from, enc_opt_bytes(t.signature) + rest);
    let n2 = enc_opt_bytes(t.from).len() as int;
    assert(s.skip(n1 + n2) =~= enc_opt_bytes(t.signature) + rest);
    crate::encoding::lemma_dec_enc_opt_bytes(t.signature, rest);
}

/// A signed payload with a cached hash and a node-local first-seen time.
#[derive(Debug)]
pub struct Transaction {
    pub data: Vec<u8>,
    pub from: Option<PublicKey>,
    pub signature: Option<Signature>,
    pub hash: Option<crate::hash::Hash>,
    pub first_seen: u128,
}

impl View for Transaction {
    type V = TxV;

    open spec fn view(&self) -> TxV {
        TxV {
            data: self.data@,
            from: match self.from {
                Some(k) => Some(k@),
                None => None,
            },
            signature: match self.signature {
                Some(s) => Some(s@),
                None => None,
            },
            hash: match self.hash {
                Some(h) => Some(h@),
                None => None,
            },
            first_seen: self.first_seen,
        }
    }
}

impl Transaction {
    /// A fresh unsigned transaction around a payload.
    pub fn new(data: Vec<u8>) -> (t: Transaction)
        ensures
            t@ == (TxV {
                data: data@,
                from: None,
                signature: None,
                hash: None,
                first_seen: 0,
            }),
    {
        Transaction { data, from: None, signature: None, hash: None, first_seen: 0 }
    }

    pub fn set_first_seen(&mut self, first_seen: u128)
        ensures
            final(self)@ == (TxV { first_seen, ..old(self)@ }),
    {
        self.first_seen = first_seen;
    }

    pub fn first_seen(&self) -> (r: u128)
        ensures
            r == self@.first_seen,
    {
        self.first_seen
    }

    /// Populate the cached hash from SHA-256 of the payload; idempotent.
    pub fn calculate_and_cache_hash(&mut self)
        ensures
            final(self)@ == (TxV {
                hash: if old(self)@.hash is Some {
                    old(self)@.hash
                } else {
                    Some(sha256_of(old(self)@.data))
                },
                ..old(self)@
            }),
            old(self)@.hash_ok() ==> final(self)@.hash_ok(),
    {
        if self.hash.is_none() {
            let digest = sha256(&self.data);
            self.hash = Some(crate::hash::Hash::from_vec_exact(digest));
        }
    }

    pub fn has_cached_hash(&self) -> (r: bool)
        ensures
            r == (self@.hash is Some),
    {
        self.hash.is_some()
    }

    /// The cached hash; the caller must have populated it.
    pub fn hash(&self) -> (r: crate::hash::Hash)
        requires
            self@.hash is Some,
        ensures
            Some(r@) == self@.hash,
    {
        match &self.hash {
            Some(h) => h.duplicate(),
            None => unreached(),
        }
    }

    /// Sign the payload: sets the sender to the key's public half and the
    /// signature to the key's signature over the payload. The result
    /// verifies under that key.
    pub fn sign(&mut self, private_key: &PrivateKey)
        ensures
            final(self)@ == (TxV {
                from: Some(pubkey_of(private_key@)),
                signature: Some(sig_of(private_key@, old(self)@.data)),
                ..old(self)@
            }),
            final(self)@.sig_ok(),
    {
        let sig = private_key.sign(&self.data);
        self.from = Some(private_key.public_key());
        self.signature = Some(sig);
    }

    /// Check the signature: fails when the signature or sender is
    /// missing, or when the signature does not verify over the payload.
    pub fn verify(&self) -> (r: Result<(), Error>)
        ensures
            r is Ok <==> self@.sig_ok(),
            self@.signature is None ==> r == Err::<(), Error>(Error::MissingSignature),
            self@.signature is Some && self@.from is None ==> r == Err::<(), Error>(
                Error::MissingSender,
            ),
            self@.signature is Some && self@.from is Some && !self@.sig_ok() ==> r == Err::<
                (),
                Error,
            >(Error::BadSignature),
    {
        let sig = match &self.signature {
            Some(s) => s,
            None => {
                return Err(Error::MissingSignature);
            },
        };
        let pub_key = match &self.from {
            Some(k) => k,
            None => {
                return Err(Error::MissingSender);
            },
        };
        if !sig.verify(&self.data, pub_key) {
            return Err(Error::BadSignature);
        }
        Ok(())
    }

    /// Append the wire form of the transaction to an encoder.
    pub fn encode(&self, enc: &mut BincodeEncoder)
        ensures
            final(enc)@ == old(enc)@ + tx_wire(self@),
    {
        enc.write_bytes_field(&self.data);
        match &self.from {
            Some(k) => {
                enc.write_u8(1);
                enc.write_bytes_field(&k.bytes);
            },
            None => {
                enc.write_u8(0);
            },
        }
        match &self.signature {
            Some(s) => {
                enc.write_u8(1);
                enc.write_bytes_field(&s.bytes);
            },
            None => {
                enc.write_u8(0);
            },
        }
        assert(enc@ =~= old(enc)@ + tx_wire(self@));
    }

    /// The wire form of the transaction.
    pub fn bytes(&self) -> (r: Vec<u8>)
        ensures
            r@ == tx_wire(self@),
    {
        let mut enc = BincodeEncoder::new();
        self.encode(&mut enc);
        enc.into_bytes()
    }

    /// Read one transaction from a decoder. The transients come back
    /// empty: no cached hash and a zero first-seen time.
    pub fn decode(dec: &mut BincodeDecoder) -> (r: Result<Transaction, Error>)
        ensures
            match dec_tx(old(dec).remaining()) {
                Some(vn) => r matches Ok(t)
                    && t@ == vn.0
                    && final(dec).remaining() == old(dec).remaining().skip(vn.1),
                None => r matches Err(e) && e == Error::Codec,
            },
    {
        let ghost rem0 = dec.remaining();
        let data = dec.read_bytes_field()?;
        let ghost n1 = dec_bytes(rem0).unwrap().1;
        let from = match dec.read_opt_bytes_field()? {
            Some(bytes) => Some(PublicKey { bytes }),
            None => None,
        };
        let ghost n2 = dec_opt_bytes(rem0.skip(n1)).unwrap().1;
        proof {
            assert(dec.remaining() =~= rem0.skip(n1 + n2));
        }
        let signature = match dec.read_opt_bytes_field()? {
            Some(bytes) => Some(Signature { bytes }),
            None => None,
        };
        proof {
            let n3 = dec_opt_bytes(rem0.skip(n1 + n2)).unwrap().1;
            assert(dec.remaining() =~= rem0.skip(n1 + n2 + n3));
        }
        Ok(Transaction { data, from, signature, hash: None, first_seen: 0 })
    }

    /// An identical copy of the transaction.
    pub fn duplicate(&self) -> (r: Transaction)
        ensures
            r@ == self@,
    {
        Transaction {
            data: copy_bytes(&self.data),
            from: match &self.from {
                Some(k) => Some(k.duplicate()),
                None => None,
            },
            signature: match &self.signature {
                Some(s) => Some(s.duplicate()),
                None => None,
            },
            hash: match &self.hash {
                Some(h) => Some(h.duplicate()),
                None => None,
            },
            first_seen: self.first_seen,
        }
    }

    /// A transaction with a 32-byte random payload, signed by a fresh
    /// key; used by tests and examples.
    pub fn random_with_signature() -> (t: Transaction)
        ensures
            t@.sig_ok(),
            t@.data.len() == 32,
            t@.hash is None,
            t@.first_seen == 0,
    {
        let data = crate::hash::Hash::random().into_bytes();
        let mut tx = Transaction::new(data);
        let private_key = PrivateKey::generate();
        tx.sign(&private_key);
        tx
    }
}

} // verus!
