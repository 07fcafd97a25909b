use vstd::prelude::*;

use crate::block::{header_hash, Header};
use crate::hash::{sha256, sha256_of};
use crate::transaction::Transaction;

verus! {

/// Hashes a header: SHA-256 over its canonical serialization.
pub struct BlockHasher;

impl BlockHasher {
    pub fn hash(&self, header: &Header) -> (r: crate::hash::Hash)
        ensures
            r@ == header_hash(header@),
    {
        let bytes = header.bytes();
        crate::hash::Hash::from_vec_exact(sha256(&bytes))
    }
}

/// Hashes a transaction: SHA-256 over its payload.
pub struct TxHasher;

impl TxHasher {
    pub fn hash(&self, tx: &Transaction) -> (r: crate::hash::Hash)
        ensures
            r@ == sha256_of(tx@.data),
    {
        crate::hash::Hash::from_vec_exact(sha256(&tx.data))
    }
}

} // verus!
