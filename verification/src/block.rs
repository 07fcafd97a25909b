use vstd::prelude::*;

use vstd::bytes::{spec_u128_to_le_bytes, spec_u32_to_le_bytes, spec_u64_to_le_bytes};

use crate::encoding::{
    dec_u64, dec_opt_bytes, enc_opt_bytes, BincodeDecoder, BincodeEncoder,
};
use crate::error::Error;
use crate::hash::{sha256, sha256_of, zero_hash};
use crate::keypair::{pubkey_of, sig_of, sig_valid, PrivateKey, PublicKey, Signature};
use crate::transaction::{dec_tx, tx_wire, tx_wire_wf, Transaction, TxV};
use crate::util::now_nanos;

verus! {

/// The mathematical value of a block header.
pub ghost struct HeaderV {
    pub version: u32,
    pub data_hash: Seq<u8>,
    pub prev_block_hash: Seq<u8>,
    pub timestamp: u128,
    pub height: u32,
}

impl HeaderV {
    /// The two hash fields have the width of a digest.
    pub open spec fn wf(self) -> bool {
        self.data_hash.len() == 32 && self.prev_block_hash.len() == 32
    }
}

/// The canonical serialization of a header: little-endian fixed-width
/// integers and the two raw 32-byte hashes, 88 bytes in all.
pub open spec fn header_wire(h: HeaderV) -> Seq<u8> {
    spec_u32_to_le_bytes(h.version) + h.data_hash + h.prev_block_hash + spec_u128_to_le_bytes(
        h.timestamp,
    ) + spec_u32_to_le_bytes(h.height)
}

/// The hash of a header: SHA-256 over its canonical serialization.
pub open spec fn header_hash(h: HeaderV) -> Seq<u8> {
    sha256_of(header_wire(h))
}

/// The spec parser for a header at the head of `s`.
pub open spec fn dec_header(s: Seq<u8>) -> Option<(HeaderV, int)> {
    if s.len() >= 88 {
        Some(
            (
                HeaderV {
                    version: vstd::bytes::spec_u32_from_le_bytes(s.subrange(0, 4)),
                    data_hash: s.subrange(4, 36),
                    prev_block_hash: s.subrange(36, 68),
                    timestamp: vstd::bytes::spec_u128_from_le_bytes(s.subrange(68, 84)),
                    height: vstd::bytes::spec_u32_from_le_bytes(s.subrange(84, 88)),
                },
                88,
            ),
        )
    } else {
        None
    }
}

/// Parsing inverts encoding for headers, whatever follows.
pub proof fn lemma_dec_enc_header(h: HeaderV, rest: Seq<u8>)
    requires
        h.wf(),
    ensures
        dec_header(header_wire(h) + rest) == Some((h, 88int)),
{
    vstd::bytes::lemma_auto_spec_u32_to_from_le_bytes();
    vstd::bytes::lemma_auto_spec_u128_to_from_le_bytes();
    let s = header_wire(h) + rest;
    assert(s.subrange(0, 4) =~= spec_u32_to_le_bytes(h.version));
    assert(s.subrange(4, 36) =~= h.data_hash);
    assert(s.subrange(36, 68) =~= h.prev_block_hash);
    assert(s.subrange(68, 84) =~= spec_u128_to_le_bytes(h.timestamp));
    assert(s.subrange(84, 88) =~= spec_u32_to_le_bytes(h.height));
}

/// A fixed-shape block header.
#[derive(Debug)]
pub struct Header {
    pub version: u32,
    pub data_hash: crate::hash::Hash,
    pub prev_block_hash: crate::hash::Hash,
    pub timestamp: u128,
    pub height: u32,
}

impl View for Header {
    type V = HeaderV;

    open spec fn view(&self) -> HeaderV {
        HeaderV {
            version: self.version,
            data_hash: self.data_hash@,
            prev_block_hash: self.prev_block_hash@,
            timestamp: self.timestamp,
            height: self.height,
        }
    }
}

impl PartialEq for Header {
    fn eq(&self, other: &Header) -> bool {
        self.version == other.version && self.data_hash == other.data_hash
            && self.prev_block_hash == other.prev_block_hash && self.timestamp == other.timestamp
            && self.height == other.height
    }
}

impl vstd::std_specs::cmp::PartialEqSpecImpl for Header {
    open spec fn obeys_eq_spec() -> bool {
        true
    }

    open spec fn eq_spec(&self, other: &Header) -> bool {
        self@ == other@
    }
}

impl Header {
    /// The canonical 88-byte serialization of the header.
    pub fn bytes(&self) -> (r: Vec<u8>)
        ensures
            r@ == header_wire(self@),
    {
        proof {
            use_type_invariant(&self.data_hash);
            use_type_invariant(&self.prev_block_hash);
        }
        let mut enc = BincodeEncoder::new();
        enc.write_u32(self.version);
        let dh = self.data_hash.into_bytes();
        enc.write_raw(&dh);
        let ph = self.prev_block_hash.into_bytes();
        enc.write_raw(&ph);
        enc.write_u128(self.timestamp);
        enc.write_u32(self.height);
        let r = enc.into_bytes();
        assert(r@ =~= header_wire(self@));
        r
    }

    /// Read one header from a decoder.
    pub fn decode(dec: &mut BincodeDecoder) -> (r: Result<Header, Error>)
        ensures
            match dec_header(old(dec).remaining()) {
                Some(vn) => r matches Ok(h)
                    && h@ == vn.0
                    && final(dec).remaining() == old(dec).remaining().skip(vn.1),
                None => r matches Err(e) && e == Error::Codec,
            },
    {
        let ghost rem0 = dec.remaining();
        if dec.remaining_len() < 88 {
            return Err(Error::Codec);
        }
        let version = dec.read_u32()?;
        let data_hash_bytes = dec.read_raw(32)?;
        let prev_hash_bytes = dec.read_raw(32)?;
        let timestamp = dec.read_u128()?;
        let height = dec.read_u32()?;
        let h = Header {
            version,
            data_hash: crate::hash::Hash::from_vec_exact(data_hash_bytes),
            prev_block_hash: crate::hash::Hash::from_vec_exact(prev_hash_bytes),
            timestamp,
            height,
        };
        proof {
            assert(rem0.take(4) =~= rem0.subrange(0, 4));
            assert(rem0.skip(4).take(32) =~= rem0.subrange(4, 36));
            assert(rem0.skip(4).skip(32) =~= rem0.skip(36));
            assert(rem0.skip(36).take(32) =~= rem0.subrange(36, 68));
            assert(rem0.skip(36).skip(32) =~= rem0.skip(68));
            assert(rem0.skip(68).take(16) =~= rem0.subrange(68, 84));
            assert(rem0.skip(68).skip(16) =~= rem0.skip(84));
            assert(rem0.skip(84).take(4) =~= rem0.subrange(84, 88));
            assert(rem0.skip(84).skip(4) =~= rem0.skip(88));
        }
        Ok(h)
    }

    /// An identical copy of the header.
    pub fn duplicate(&self) -> (r: Header)
        ensures
            r@ == self@,
    {
        Header {
            version: self.version,
            data_hash: self.data_hash.duplicate(),
            prev_block_hash: self.prev_block_hash.duplicate(),
            timestamp: self.timestamp,
            height: self.height,
        }
    }
}

/// The mathematical value of a block.
pub ghost struct BlockV {
    pub header: HeaderV,
    pub transactions: Seq<TxV>,
    pub validator: Option<Seq<u8>>,
    pub signature: Option<Seq<u8>>,
    pub hash: Seq<u8>,
}

impl BlockV {
    /// The validator and signature are present and the signature verifies
    /// over the canonical header bytes.
    pub open spec fn sig_ok(self) -> bool {
        &&& self.validator matches Some(pk) && self.signature matches Some(sig) && sig_valid(
            pk,
            header_wire(self.header),
            sig,
        )
    }

    /// Every transaction of the block verifies.
    pub open spec fn txs_ok(self) -> bool {
        forall|i: int| 0 <= i < self.transactions.len() ==> #[trigger] self.transactions[i].sig_ok()
    }

    /// The header's data hash matches the transactions.
    pub open spec fn data_hash_ok(self) -> bool {
        self.header.data_hash == data_hash_of(self.transactions)
    }

    /// A complete block: signed by its validator, every transaction
    /// verifies, and the data hash matches.
    pub open spec fn complete(self) -> bool {
        self.sig_ok() && self.txs_ok() && self.data_hash_ok()
    }

    /// The wire-carried parts agree; the cached hash and the
    /// transactions' transients are ignored.
    pub open spec fn same_wire(self, other: BlockV) -> bool {
        &&& self.header == other.header
        &&& self.transactions.len() == other.transactions.len()
        &&& forall|i: int|
            0 <= i < self.transactions.len() ==> #[trigger] self.transactions[i].same_wire(
                other.transactions[i],
            )
        &&& self.validator == other.validator
        &&& self.signature == other.signature
    }
}

/// The header of the deterministic genesis block.
pub open spec fn genesis_header() -> HeaderV {
    HeaderV {
        version: 1,
        data_hash: zero_hash(),
        prev_block_hash: zero_hash(),
        timestamp: 0,
        height: 0,
    }
}

/// The rule by which an incomplete block is rejected, in check order:
/// a missing signature or validator, a signature that does not verify,
/// a transaction that does not verify, then a wrong data hash.
pub open spec fn block_verify_error(b: BlockV) -> Error {
    if b.signature is None {
        Error::MissingSignature
    } else if b.validator is None {
        Error::MissingValidator
    } else if !b.sig_ok() {
        Error::BadSignature
    } else if !b.txs_ok() {
        Error::BadTxSignature
    } else {
        Error::BadDataHash
    }
}

/// The concatenation of the canonical encodings of the transactions.
pub open spec fn txs_wire(ts: Seq<TxV>) -> Seq<u8>
    decreases ts.len(),
{
    if ts.len() == 0 {
        Seq::empty()
    } else {
        tx_wire(ts[0]) + txs_wire(ts.drop_first())
    }
}

/// Appending one transaction appends its encoding.
pub proof fn lemma_txs_wire_push(ts: Seq<TxV>, t: TxV)
    ensures
        txs_wire(ts.push(t)) == txs_wire(ts) + tx_wire(t),
    decreases ts.len(),
{
    if ts.len() == 0 {
        assert(ts.push(t)[0] == t);
        assert(ts.push(t).drop_first() =~= Seq::<TxV>::empty());
        assert(txs_wire(ts.push(t)) == tx_wire(t) + txs_wire(Seq::<TxV>::empty()));
        assert(tx_wire(t) + Seq::<u8>::empty() =~= tx_wire(t));
        assert(Seq::<u8>::empty() + tx_wire(t) =~= tx_wire(t));
    } else {
        assert(ts.push(t).drop_first() =~= ts.drop_first().push(t));
        assert(ts.push(t)[0] == ts[0]);
        lemma_txs_wire_push(ts.drop_first(), t);
        assert(txs_wire(ts.push(t)) == tx_wire(ts[0]) + (txs_wire(ts.drop_first()) + tx_wire(t)));
        assert(tx_wire(ts[0]) + (txs_wire(ts.drop_first()) + tx_wire(t)) =~= (tx_wire(ts[0])
            + txs_wire(ts.drop_first())) + tx_wire(t));
    }
}

/// The data hash over a list of transactions: SHA-256 over the
/// concatenation of their canonical encodings, in order.
pub open spec fn data_hash_of(ts: Seq<TxV>) -> Seq<u8> {
    sha256_of(txs_wire(ts))
}

/// Compute the data hash of a transaction list.
pub fn calculate_data_hash(txx: &Vec<Transaction>) -> (r: crate::hash::Hash)
    ensures
        r@ == data_hash_of(txx@.map_values(|t: Transaction| t@)),
{
    let ghost all = txx@.map_values(|t: Transaction| t@);
    let mut enc = BincodeEncoder::new();
    let mut i: usize = 0;
    while i < txx.len()
        invariant
            i <= txx@.len(),
            all == txx@.map_values(|t: Transaction| t@),
            enc@ == txs_wire(all.take(i as int)),
        decreases txx@.len() - i,
    {
        txx[i].encode(&mut enc);
        proof {
            lemma_txs_wire_push(all.take(i as int), all[i as int]);
            assert(all.take(i as int).push(all[i as int]) =~= all.take(i as int + 1));
        }
        i = i + 1;
    }
    assert(all.take(txx@.len() as int) =~= all);
    let buf = enc.into_bytes();
    crate::hash::Hash::from_vec_exact(sha256(&buf))
}

/// The canonical serialization of a block: the header, a u64 transaction
/// count, the transactions, then the optional validator and signature.
/// The cached hash never reaches the wire.
pub open spec fn block_wire(b: BlockV) -> Seq<u8> {
    header_wire(b.header) + spec_u64_to_le_bytes(b.transactions.len() as u64) + txs_wire(
        b.transactions,
    ) + enc_opt_bytes(b.validator) + enc_opt_bytes(b.signature)
}

/// The field lengths fit the machine, as they do for any block actually
/// held in memory.
pub open spec fn block_wire_wf(b: BlockV) -> bool {
    &&& b.header.wf()
    &&& b.transactions.len() <= usize::MAX
    &&& forall|i: int| 0 <= i < b.transactions.len() ==> tx_wire_wf(#[trigger] b.transactions[i])
    &&& (b.validator matches Some(k) ==> k.len() <= usize::MAX)
    &&& (b.signature matches Some(s) ==> s.len() <= usize::MAX)
}

/// The spec parser for `count` consecutive transactions.
pub open spec fn dec_txs(s: Seq<u8>, count: int) -> Option<(Seq<TxV>, int)>
    decreases count,
{
    if count <= 0 {
        Some((Seq::empty(), 0))
    } else {
        match dec_tx(s) {
            None => None,
            Some((t, n)) => match dec_txs(s.skip(n), count - 1) {
                None => None,
                Some((ts, m)) => Some((seq![t] + ts, n + m)),
            },
        }
    }
}

/// The spec parser for a block at the head of `s`.
pub open spec fn dec_block(s: Seq<u8>) -> Option<(BlockV, int)> {
    match dec_header(s) {
        None => None,
        Some((h, n1)) => match dec_u64(s.skip(n1)) {
            None => None,
            Some((count, n2)) => match dec_txs(s.skip(n1 + n2), count as int) {
                None => None,
                Some((ts, n3)) => match dec_opt_bytes(s.skip(n1 + n2 + n3)) {
                    None => None,
                    Some((validator, n4)) => match dec_opt_bytes(s.skip(n1 + n2 + n3 + n4)) {
                        None => None,
                        Some((sig, n5)) => Some(
                            (
                                BlockV {
                                    header: h,
                                    transactions: ts,
                                    validator,
                                    signature: sig,
                                    hash: zero_hash(),
                                },
                                n1 + n2 + n3 + n4 + n5,
                            ),
                        ),
                    },
                },
            },
        },
    }
}

/// Parsing inverts encoding for transaction lists, whatever follows.
pub proof fn lemma_dec_enc_txs(ts: Seq<TxV>, rest: Seq<u8>)
    requires
        forall|i: int| 0 <= i < ts.len() ==> tx_wire_wf(#[trigger] ts[i]),
    ensures
        dec_txs(txs_wire(ts) + rest, ts.len() as int) matches Some(vn) && vn.0.len() == ts.len()
            && (forall|i: int|
            0 <= i < ts.len() ==> (#[trigger] vn.0[i]).same_wire(ts[i]) && vn.0[i].hash is None
                && vn.0[i].first_seen == 0) && vn.1 == txs_wire(ts).len(),
    decreases ts.len(),
{
    if ts.len() == 0 {
        assert(txs_wire(ts) + rest =~= rest);
    } else {
        let s = txs_wire(ts) + rest;
        let tail_rest = txs_wire(ts.drop_first()) + rest;
        assert(s =~= tx_wire(ts[0]) + tail_rest);
        crate::transaction::lemma_dec_enc_tx(ts[0], tail_rest);
        let n = tx_wire(ts[0]).len() as int;
        assert(s.skip(n) =~= tail_rest);
        lemma_dec_enc_txs(ts.drop_first(), rest);
        let vn_tail = dec_txs(tail_rest, ts.drop_first().len() as int).unwrap();
        let vn = dec_txs(s, ts.len() as int).unwrap();
        assert(vn.0 =~= seq![dec_tx(s).unwrap().0] + vn_tail.0);
        assert forall|i: int| 0 <= i < ts.len() implies (#[trigger] vn.0[i]).same_wire(ts[i])
            && vn.0[i].hash is None && vn.0[i].first_seen == 0 by {
            if i > 0 {
                assert(vn.0[i] == vn_tail.0[i - 1]);
                assert(ts.drop_first()[i - 1] == ts[i]);
            }
        }
    }
}

/// Parsing inverts encoding for blocks, whatever follows; the cached
/// hash and the transients come back empty.
#[verifier::rlimit(50)]
pub proof fn lemma_dec_enc_block(b: BlockV, rest: Seq<u8>)
    requires
        block_wire_wf(b),
    ensures
        dec_block(block_wire(b) + rest) matches Some(vn) && vn.0.same_wire(b) && vn.0.hash
            == zero_hash() && vn.1 == block_wire(b).len(),
{
    vstd::bytes::lemma_auto_spec_u32_to_from_le_bytes();
    vstd::bytes::lemma_auto_spec_u64_to_from_le_bytes();
    vstd::bytes::lemma_auto_spec_u128_to_from_le_bytes();
    let s = block_wire(b) + rest;
    let r1 = spec_u64_to_le_bytes(b.transactions.len() as u64) + txs_wire(b.transactions)
        + enc_opt_bytes(b.validator) + enc_opt_bytes(b.signature) + rest;
    assert(s =~= header_wire(b.header) + r1);
    lemma_dec_enc_header(b.header, r1);
    let n1 = 88int;
    assert(s.skip(n1) =~= r1);
    let r2 = txs_wire(b.transactions) + enc_opt_bytes(b.validator) + enc_opt_bytes(b.signature)
        + rest;
    assert(r1 =~= spec_u64_to_le_bytes(b.transactions.len() as u64) + r2);
    crate::encoding::lemma_dec_enc_u64(b.transactions.len() as u64, r2);
    let n2 = 8int;
    assert(s.skip(n1 + n2) =~= r2);
    let r3 = enc_opt_bytes(b.validator) + (enc_opt_bytes(b.signature) + rest);
    assert(r2 =~= txs_wire(b.transactions) + r3);
    lemma_dec_enc_txs(b.transactions, r3);
    let n3 = txs_wire(b.transactions).len() as int;
    assert(s.skip(n1 + n2 + n3) =~= r3);
    crate::encoding::lemma_dec_enc_opt_bytes(b.validator, enc_opt_bytes(b.signature) + rest);
    let n4 = enc_opt_bytes(b.validator).len() as int;
    assert(s.skip(n1 + n2 + n3 + n4) =~= enc_opt_bytes(b.signature) + rest);
    crate::encoding::lemma_dec_enc_opt_bytes(b.signature, rest);
}

/// A header, its transactions, and the validator's signature over the
/// canonical header bytes; the hash of the header is cached once asked
/// for.
#[derive(Debug)]
pub struct Block {
    pub header: Header,
    pub transactions: Vec<Transaction>,
    pub validator: Option<PublicKey>,
    pub signature: Option<Signature>,
    pub hash: crate::hash::Hash,
}

impl View for Block {
    type V = BlockV;

    open spec fn view(&self) -> BlockV {
        BlockV {
            header: self.header@,
            transactions: self.transactions@.map_values(|t: Transaction| t@),
            validator: match self.validator {
                Some(k) => Some(k@),
                None => None,
            },
            signature: match self.signature {
                Some(s) => Some(s@),
                None => None,
            },
            hash: self.hash@,
        }
    }
}

impl Block {
    /// A fresh unsigned block around a header and transactions.
    pub fn new(h: Header, txx: Vec<Transaction>) -> (b: Block)
        ensures
            b@ == (BlockV {
                header: h@,
                transactions: txx@.map_values(|t: Transaction| t@),
                validator: None,
                signature: None,
                hash: zero_hash(),
            }),
    {
        Block {
            header: h,
            transactions: txx,
            validator: None,
            signature: None,
            hash: crate::hash::Hash::zero(),
        }
    }

    /// Build the successor block of `ph`: the height goes up by one, the
    /// previous-block hash is the hash of `ph`, and the data hash is
    /// computed over the given transactions. The timestamp is read from
    /// the clock.
    pub fn from_prev_header(ph: &Header, txx: Vec<Transaction>) -> (b: Block)
        requires
            ph@.height < u32::MAX,
        ensures
            b@.header.version == ph@.version,
            b@.header.data_hash == data_hash_of(b@.transactions),
            b@.header.prev_block_hash == header_hash(ph@),
            b@.header.height == ph@.height + 1,
            b@.transactions == txx@.map_values(|t: Transaction| t@),
            b@.validator is None,
            b@.signature is None,
            b@.hash == zero_hash(),
    {
        let data_hash = calculate_data_hash(&txx);
        let prev = crate::hasher::BlockHasher.hash(ph);
        let header = Header {
            version: ph.version,
            data_hash,
            prev_block_hash: prev,
            timestamp: now_nanos(),
            height: ph.height + 1,
        };
        Block::new(header, txx)
    }

    /// The hash of the block: SHA-256 over the canonical header bytes,
    /// cached after the first call. A cached value is returned as it
    /// stands.
    pub fn hash(&mut self) -> (r: crate::hash::Hash)
        ensures
            r@ == final(self).hash@,
            final(self)@ == (BlockV {
                hash: if old(self).hash@ == zero_hash() {
                    header_hash(old(self)@.header)
                } else {
                    old(self).hash@
                },
                ..old(self)@
            }),
    {
        if self.hash.is_zero() {
            self.hash = crate::hasher::BlockHasher.hash(&self.header);
        }
        self.hash.duplicate()
    }

    /// Sign the canonical header bytes and install the signer as
    /// validator. The result carries a signature its own validator key
    /// accepts.
    pub fn sign(&mut self, private_key: &PrivateKey)
        ensures
            final(self)@ == (BlockV {
                validator: Some(pubkey_of(private_key@)),
                signature: Some(sig_of(private_key@, header_wire(old(self)@.header))),
                ..old(self)@
            }),
            final(self)@.sig_ok(),
    {
        let bytes = self.header.bytes();
        let sig = private_key.sign(&bytes);
        self.validator = Some(private_key.public_key());
        self.signature = Some(sig);
    }

    /// Check the block: the signature must be present and verify over
    /// the header bytes, every transaction must verify, and the header's
    /// data hash must match the transactions.
    #[verifier::loop_isolation(false)]
    pub fn verify(&self) -> (r: Result<(), Error>)
        ensures
            r is Ok <==> self@.complete(),
            self@.signature is None ==> r == Err::<(), Error>(Error::MissingSignature),
            self@.signature is Some && self@.validator is None ==> r == Err::<(), Error>(
                Error::MissingValidator,
            ),
            self@.signature is Some && self@.validator is Some && !self@.sig_ok() ==> r == Err::<
                (),
                Error,
            >(Error::BadSignature),
            self@.sig_ok() && !self@.txs_ok() ==> r == Err::<(), Error>(Error::BadTxSignature),
            self@.sig_ok() && self@.txs_ok() && !self@.data_hash_ok() ==> r == Err::<(), Error>(
                Error::BadDataHash,
            ),
    {
        let sig = match &self.signature {
            Some(s) => s,
            None => {
                return Err(Error::MissingSignature);
            },
        };
        let pub_key = match &self.validator {
            Some(k) => k,
            None => {
                return Err(Error::MissingValidator);
            },
        };
        let header_bytes = self.header.bytes();
        if !sig.verify(&header_bytes, pub_key) {
            return Err(Error::BadSignature);
        }
        let ghost all = self.transactions@.map_values(|t: Transaction| t@);
        let mut i: usize = 0;
        while i < self.transactions.len()
            invariant
                i <= self.transactions@.len(),
                all == self.transactions@.map_values(|t: Transaction| t@),
                forall|j: int| 0 <= j < i ==> (#[trigger] all[j]).sig_ok(),
            decreases self.transactions@.len() - i,
        {
            if self.transactions[i].verify().is_err() {
                assert(self@.transactions[i as int] == self.transactions@[i as int]@);
                assert(!self@.transactions[i as int].sig_ok());
                assert(!self@.txs_ok());
                return Err(Error::BadTxSignature);
            }
            i = i + 1;
        }
        assert(forall|j: int|
            0 <= j < self@.transactions.len() ==> #[trigger] self@.transactions[j] == all[j]);
        assert(self@.txs_ok());
        let data_hash = calculate_data_hash(&self.transactions);
        if !(data_hash == self.header.data_hash) {
            return Err(Error::BadDataHash);
        }
        Ok(())
    }

    /// Append a transaction to the block.
    pub fn add_transaction(&mut self, tx: Transaction)
        ensures
            final(self)@ == (BlockV {
                transactions: old(self)@.transactions.push(tx@),
                ..old(self)@
            }),
    {
        self.transactions.push(tx);
        assert(self.transactions@.map_values(|t: Transaction| t@) =~= old(
            self,
        )@.transactions.push(tx@));
    }

    /// Append the wire form of the block to an encoder.
    pub fn encode(&self, enc: &mut BincodeEncoder)
        ensures
            final(enc)@ == old(enc)@ + block_wire(self@),
    {
        let header_bytes = self.header.bytes();
        enc.write_raw(&header_bytes);
        enc.write_u64(self.transactions.len() as u64);
        let ghost all = self.transactions@.map_values(|t: Transaction| t@);
        let ghost base = enc@;
        let mut i: usize = 0;
        while i < self.transactions.len()
            invariant
                i <= self.transactions@.len(),
                all == self.transactions@.map_values(|t: Transaction| t@),
                enc@ == base + txs_wire(all.take(i as int)),
            decreases self.transactions@.len() - i,
        {
            self.transactions[i].encode(enc);
            proof {
                lemma_txs_wire_push(all.take(i as int), all[i as int]);
                assert(all.take(i as int).push(all[i as int]) =~= all.take(i as int + 1));
            }
            i = i + 1;
        }
        assert(all.take(self.transactions@.len() as int) =~= all);
        match &self.validator {
            Some(k) => {
                enc.write_u8(1);
                enc.write_bytes_field(&k.bytes);
            },
            None => {
                enc.write_u8(0);
            },
        }
        match &self.signature {
            Some(s) => {
                enc.write_u8(1);
                enc.write_bytes_field(&s.bytes);
            },
            None => {
                enc.write_u8(0);
            },
        }
        assert(enc@ =~= old(enc)@ + block_wire(self@));
    }

    /// The wire form of the block.
    pub fn bytes(&self) -> (r: Vec<u8>)
        ensures
            r@ == block_wire(self@),
    {
        let mut enc = BincodeEncoder::new();
        self.encode(&mut enc);
        enc.into_bytes()
    }

    /// Read one block from a decoder. The cached hash comes back zero
    /// and the transactions' transients empty.
    #[verifier::loop_isolation(false)]
    #[verifier::rlimit(100)]
    pub fn decode(dec: &mut BincodeDecoder) -> (r: Result<Block, Error>)
        ensures
            match dec_block(old(dec).remaining()) {
                Some(vn) => r matches Ok(b)
                    && b@ == vn.0
                    && final(dec).remaining() == old(dec).remaining().skip(vn.1),
                None => r matches Err(e) && e == Error::Codec,
            },
    {
        let ghost rem0 = dec.remaining();
        let header = Header::decode(dec)?;
        let ghost n1 = 88int;
        let count = dec.read_u64()?;
        let ghost n2 = 8int;
        proof {
            assert(dec.remaining() =~= rem0.skip(n1 + n2));
        }
        let ghost txs_rem = dec.remaining();
        let mut transactions: Vec<Transaction> = Vec::new();
        let ghost mut consumed: int = 0;
        let mut i: u64 = 0;
        while i < count
            invariant
                i <= count,
                dec.remaining() == txs_rem.skip(consumed),
                0 <= consumed <= txs_rem.len(),
                transactions@.len() == i,
                match dec_txs(dec.remaining(), count - i) {
                    Some(vn) => dec_txs(txs_rem, count as int) == Some(
                        (transactions@.map_values(|t: Transaction| t@) + vn.0, consumed + vn.1),
                    ),
                    None => dec_txs(txs_rem, count as int) is None,
                },
            decreases count - i,
        {
            let ghost rem_here = dec.remaining();
            let ghost m_old = transactions@.map_values(|t: Transaction| t@);
            let tx = match Transaction::decode(dec) {
                Ok(t) => t,
                Err(e) => {
                    proof {
                        assert(dec_txs(rem_here, count - i) is None);
                        assert(dec_txs(txs_rem, count as int) is None);
                        assert(dec_block(rem0) is None);
                    }
                    return Err(e);
                },
            };
            let ghost n = dec_tx(rem_here).unwrap().1;
            transactions.push(tx);
            proof {
                assert(dec.remaining() =~= txs_rem.skip(consumed + n));
                consumed = consumed + n;
                let m_new = transactions@.map_values(|t: Transaction| t@);
                assert(m_new =~= m_old.push(tx@));
                match dec_txs(dec.remaining(), count - (i + 1)) {
                    Some(vn2) => {
                        assert(m_new + vn2.0 =~= m_old + (seq![tx@] + vn2.0));
                    },
                    None => {},
                }
            }
            i = i + 1;
        }
        proof {
            let m = transactions@.map_values(|t: Transaction| t@);
            assert(m + Seq::<TxV>::empty() =~= m);
        }
        let ghost n3 = dec_txs(txs_rem, count as int).unwrap().1;
        proof {
            assert(dec.remaining() =~= rem0.skip(n1 + n2 + n3));
        }
        let validator = match dec.read_opt_bytes_field()? {
            Some(bytes) => Some(PublicKey { bytes }),
            None => None,
        };
        let ghost n4 = dec_opt_bytes(rem0.skip(n1 + n2 + n3)).unwrap().1;
        proof {
            assert(dec.remaining() =~= rem0.skip(n1 + n2 + n3 + n4));
        }
        let signature = match dec.read_opt_bytes_field()? {
            Some(bytes) => Some(Signature { bytes }),
            None => None,
        };
        proof {
            let n5 = dec_opt_bytes(rem0.skip(n1 + n2 + n3 + n4)).unwrap().1;
            assert(dec.remaining() =~= rem0.skip(n1 + n2 + n3 + n4 + n5));
        }
        Ok(
            Block {
                header,
                transactions,
                validator,
                signature,
                hash: crate::hash::Hash::zero(),
            },
        )
    }

    /// An identical copy of the block.
    pub fn duplicate(&self) -> (r: Block)
        ensures
            r@ == self@,
    {
        let mut transactions: Vec<Transaction> = Vec::new();
        let mut i: usize = 0;
        while i < self.transactions.len()
            invariant
                i <= self.transactions@.len(),
                transactions@.map_values(|t: Transaction| t@) == self.transactions@.map_values(
                    |t: Transaction| t@,
                ).take(i as int),
            decreases self.transactions@.len() - i,
        {
            let ghost m_old = transactions@.map_values(|t: Transaction| t@);
            let d = self.transactions[i].duplicate();
            transactions.push(d);
            proof {
                let b = self.transactions@.map_values(|t: Transaction| t@);
                assert(b[i as int] == self.transactions@[i as int]@);
                assert(transactions@.map_values(|t: Transaction| t@) =~= m_old.push(d@));
                assert(m_old.push(d@) =~= b.take(i as int + 1));
            }
            i = i + 1;
        }
        proof {
            let b = self.transactions@.map_values(|t: Transaction| t@);
            assert(b.take(self.transactions@.len() as int) =~= b);
        }
        let r = Block {
            header: self.header.duplicate(),
            transactions,
            validator: match &self.validator {
                Some(k) => Some(k.duplicate()),
                None => None,
            },
            signature: match &self.signature {
                Some(s) => Some(s.duplicate()),
                None => None,
            },
            hash: self.hash.duplicate(),
        };
        assert(r@.transactions =~= self@.transactions);
        r
    }

    /// The deterministic genesis block: version 1, height 0, zero hashes,
    /// timestamp 0, no transactions, unsigned.
    pub fn genesis() -> (b: Block)
        ensures
            b@.header == genesis_header(),
            b@.transactions.len() == 0,
            b@.validator is None,
            b@.signature is None,
    {
        let header = Header {
            version: 1,
            data_hash: crate::hash::Hash::zero(),
            prev_block_hash: crate::hash::Hash::zero(),
            timestamp: 0,
            height: 0,
        };
        let b = Block::new(header, Vec::new());
        assert(b@.transactions =~= Seq::<TxV>::empty());
        b
    }

    /// A signed block at the given height with one random signed
    /// transaction; used by tests and examples. The result is complete.
    pub fn random(height: u32, prev_block_hash: crate::hash::Hash) -> (b: Block)
        ensures
            b@.header.height == height,
            b@.header.prev_block_hash == prev_block_hash@,
            b@.complete(),
    {
        let private_key = PrivateKey::generate();
        let tx = Transaction::random_with_signature();
        let mut txx: Vec<Transaction> = Vec::new();
        txx.push(tx);
        let data_hash = calculate_data_hash(&txx);
        let header = Header {
            version: 1,
            data_hash,
            prev_block_hash,
            timestamp: now_nanos(),
            height,
        };
        let mut b = Block::new(header, txx);
        b.sign(&private_key);
        assert(b@.txs_ok());
        b
    }
}

} // verus!
