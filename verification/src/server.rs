use vstd::prelude::*;

use crate::block::{header_hash, Block};
use crate::blockchain::{apply_txs, Blockchain, ChainV};
use crate::error::Error;
use crate::keypair::PrivateKey;
use crate::message::{GetBlocksMessage, StatusMessage};
use crate::rpc::{DecodedMessage, DecodedMessageData, NetAddr};
use crate::transaction::{tx_verify_error, Transaction, TxV};
use crate::tx_pool::{contains_hash, remove_hash, sorted_insert, tx_hash_v, with_hash, PoolV, TxPool};
use crate::validator::{candidate_error, candidate_ok};

verus! {

/// What the caller is to do after a message was handled: nothing, gossip
/// a transaction or block onward, or answer the sender.
#[derive(Debug)]
pub enum Outcome {
    Nothing,
    BroadcastTx(Transaction),
    BroadcastBlock(Block),
    SendStatus(NetAddr, StatusMessage),
    SendGetBlocks(NetAddr, GetBlocksMessage),
}

/// The mathematical value of a node: its id, chain, and mempool.
pub ghost struct ServerV {
    pub id: Seq<char>,
    pub chain: ChainV,
    pub mem_pool: PoolV,
}

/// An inbound transaction as the pool comes to hold it: its hash cached
/// and its first-seen time stamped.
pub open spec fn stamped(t: TxV, now: u128) -> TxV {
    TxV { first_seen: now, ..with_hash(t) }
}

/// Every transaction on either side of a pool verifies.
pub open spec fn pool_verified(p: PoolV) -> bool {
    &&& forall|i: int| 0 <= i < p.all.len() ==> (#[trigger] p.all[i]).sig_ok()
    &&& forall|i: int| 0 <= i < p.pending.len() ==> (#[trigger] p.pending[i]).sig_ok()
}

/// The message-handling core of a node: the chain, the mempool, and the
/// leader key if this node produces blocks. The surrounding process owns
/// the transports and clocks and hands events in as plain values.
pub struct Server {
    id: String,
    chain: Blockchain,
    mem_pool: TxPool,
    private_key: Option<PrivateKey>,
}

impl View for Server {
    type V = ServerV;

    closed spec fn view(&self) -> ServerV {
        ServerV { id: self.id@, chain: self.chain@, mem_pool: self.mem_pool@ }
    }
}

impl Server {
    /// Whether this node holds the leader key.
    pub closed spec fn spec_is_validator(&self) -> bool {
        self.private_key is Some
    }

    /// Every transaction in this node's mempool verifies.
    pub open spec fn pool_verified(&self) -> bool {
        pool_verified(self@.mem_pool)
    }

    /// A fresh node: a chain holding only the genesis block, an empty
    /// mempool with room for one hundred transactions, and the leader
    /// key, if this node is to produce blocks.
    pub fn new(id: String, private_key: Option<PrivateKey>) -> (s: Server)
        ensures
            s@.id == id@,
            s@.chain.headers.len() == 1,
            s@.chain.headers[0] == crate::block::genesis_header(),
            s@.mem_pool.all == Seq::<TxV>::empty(),
            s@.mem_pool.pending == Seq::<TxV>::empty(),
            s@.mem_pool.max_length == 100,
            s.pool_verified(),
            s.spec_is_validator() == (private_key is Some),
    {
        let genesis = Block::genesis();
        let chain_id = id.clone();
        Server {
            id,
            chain: Blockchain::new(chain_id, &genesis),
            mem_pool: TxPool::new(100),
            private_key,
        }
    }

    /// Whether this node runs the producer loop.
    pub fn is_validator(&self) -> (r: bool)
        ensures
            r == self.spec_is_validator(),
    {
        self.private_key.is_some()
    }

    /// The node id.
    pub fn id(&self) -> (r: &String)
        ensures
            r@ == self@.id,
    {
        &self.id
    }

    /// The current chain height.
    pub fn height(&self) -> (r: u32)
        ensures
            r == self@.chain.headers.len() - 1,
    {
        self.chain.height()
    }

    /// Handle an inbound transaction: one already pooled is ignored; one
    /// that fails to verify is rejected and the pool left alone; a fresh
    /// valid one is stamped with `now`, pooled, and handed back for
    /// broadcast.
    pub fn process_transaction(&mut self, tx: Transaction, now: u128) -> (r: Result<
        Option<Transaction>,
        Error,
    >)
        ensures
            final(self)@.id == old(self)@.id,
            final(self)@.chain == old(self)@.chain,
            final(self)@.mem_pool.max_length == old(self)@.mem_pool.max_length,
            final(self)@.mem_pool.all.len() <= final(self)@.mem_pool.max_length,
            old(self).pool_verified() ==> final(self).pool_verified(),
            contains_hash(old(self)@.mem_pool.all, tx_hash_v(with_hash(tx@))) ==> r == Ok::<
                Option<Transaction>,
                Error,
            >(None) && final(self)@ == old(self)@,
            !contains_hash(old(self)@.mem_pool.all, tx_hash_v(with_hash(tx@))) && !tx@.sig_ok()
                ==> r == Err::<Option<Transaction>, Error>(tx_verify_error(tx@)) && final(self)@
                == old(self)@,
            !contains_hash(old(self)@.mem_pool.all, tx_hash_v(with_hash(tx@))) && tx@.sig_ok()
                && old(self)@.mem_pool.max_length == 0 ==> r == Err::<Option<Transaction>, Error>(
                Error::MempoolFull,
            ) && final(self)@ == old(self)@,
            !contains_hash(old(self)@.mem_pool.all, tx_hash_v(with_hash(tx@))) && tx@.sig_ok()
                && old(self)@.mem_pool.max_length > 0 ==> (r matches Ok(o) && o matches Some(t)
                && t@.same_wire(tx@) && t@.first_seen == now) && final(self)@.mem_pool.all
                == sorted_insert(
                if old(self)@.mem_pool.all.len() == old(self)@.mem_pool.max_length {
                    old(self)@.mem_pool.all.drop_first()
                } else {
                    old(self)@.mem_pool.all
                },
                stamped(tx@, now),
            ) && final(self)@.mem_pool.pending == sorted_insert(
                remove_hash(old(self)@.mem_pool.pending, tx_hash_v(with_hash(tx@))),
                stamped(tx@, now),
            ),
    {
        proof {
            use_type_invariant(&self.mem_pool);
        }
        let mut tx = tx;
        tx.calculate_and_cache_hash();
        let h = tx.hash();
        if self.mem_pool.has(&h) {
            return Ok(None);
        }
        match tx.verify() {
            Ok(()) => {},
            Err(e) => {
                return Err(e);
            },
        }
        tx.set_first_seen(now);
        let out = tx.duplicate();
        match self.mem_pool.add(tx) {
            Ok(()) => Ok(Some(out)),
            Err(e) => Err(e),
        }
    }

    /// Handle an inbound block: append it through the validator; on
    /// success the caller gossips it onward. A rejected block leaves the
    /// node unchanged.
    pub fn process_block(&mut self, b: &Block) -> (r: Result<(), Error>)
        ensures
            final(self)@.id == old(self)@.id,
            final(self)@.mem_pool == old(self)@.mem_pool,
            old(self).pool_verified() ==> final(self).pool_verified(),
            r is Ok <==> candidate_ok(old(self)@.chain.headers, b@) && apply_txs(
                old(self)@.chain.state,
                b@.transactions,
            ) is Ok,
            r is Ok ==> final(self)@.chain.headers == old(self)@.chain.headers.push(b@.header)
                && apply_txs(old(self)@.chain.state, b@.transactions) == Ok::<
                Map<Seq<u8>, Seq<u8>>,
                Error,
            >(final(self)@.chain.state),
            r matches Err(e) ==> final(self)@ == old(self)@ && (if !candidate_ok(
                old(self)@.chain.headers,
                b@,
            ) {
                e == candidate_error(old(self)@.chain.headers, b@)
            } else {
                apply_txs(old(self)@.chain.state, b@.transactions) == Err::<
                    Map<Seq<u8>, Seq<u8>>,
                    Error,
                >(e)
            }),
    {
        match self.chain.add_block(b) {
            Ok(()) => Ok(()),
            Err(e) => Err(e),
        }
    }

    /// Answer a status request with this node's id and height.
    pub fn process_get_status_message(&self) -> (m: StatusMessage)
        ensures
            m.id@ == self@.id,
            m.version == 0,
            m.current_height == self@.chain.headers.len() - 1,
    {
        StatusMessage::new(self.id.clone(), 0, self.chain.height())
    }

    /// Handle a peer's status: a peer at or below our height needs
    /// nothing; a peer ahead is asked for the blocks we lack.
    pub fn process_status_message(&self, msg: &StatusMessage) -> (r: Option<GetBlocksMessage>)
        ensures
            msg.current_height <= self@.chain.headers.len() - 1 ==> r is None,
            msg.current_height > self@.chain.headers.len() - 1 ==> (r matches Some(g) && g.from
                == self@.chain.headers.len() && g.to == msg.current_height),
    {
        let our_height = self.chain.height();
        if msg.current_height <= our_height {
            None
        } else {
            Some(GetBlocksMessage { from: our_height + 1, to: msg.current_height })
        }
    }

    /// Dispatch one decoded message to its handler and say what the
    /// caller should send or gossip. Handler errors surface; none of
    /// them disturb the node beyond what the handler itself did.
    pub fn process_message(&mut self, msg: DecodedMessage, now: u128) -> (r: Result<Outcome, Error>)
        ensures
            final(self)@.id == old(self)@.id,
            old(self).pool_verified() ==> final(self).pool_verified(),
            msg.data matches DecodedMessageData::GetStatusMessage ==> final(self)@ == old(self)@
                && (r matches Ok(o) && o matches Outcome::SendStatus(to, m) && to@ == msg.from@
                && m.id@ == old(self)@.id && m.version == 0 && m.current_height == old(
                self,
            )@.chain.headers.len() - 1),
            msg.data matches DecodedMessageData::StatusMessage(sm) ==> final(self)@ == old(self)@
                && (r matches Ok(o) && (if sm.current_height > old(self)@.chain.headers.len() - 1 {
                o matches Outcome::SendGetBlocks(to, g) && to@ == msg.from@ && g.from == old(
                    self,
                )@.chain.headers.len() && g.to == sm.current_height
            } else {
                o is Nothing
            })),
            msg.data matches DecodedMessageData::GetBlocksMessage(_) ==> final(self)@ == old(
                self,
            )@ && (r matches Ok(o) && o is Nothing),
            msg.data matches DecodedMessageData::Block(b) ==> (r is Ok <==> candidate_ok(
                old(self)@.chain.headers,
                b@,
            ) && apply_txs(old(self)@.chain.state, b@.transactions) is Ok) && (r matches Ok(o)
                ==> o matches Outcome::BroadcastBlock(b2) && b2@ == b@ && final(self)@.chain.headers
                == old(self)@.chain.headers.push(b@.header)) && (r is Err ==> final(self)@ == old(
                self,
            )@),
            msg.data matches DecodedMessageData::Tx(tx) ==> {
                &&& contains_hash(old(self)@.mem_pool.all, tx_hash_v(with_hash(tx@))) ==> (r
                    matches Ok(o) && o is Nothing && final(self)@ == old(self)@)
                &&& !contains_hash(old(self)@.mem_pool.all, tx_hash_v(with_hash(tx@)))
                    && !tx@.sig_ok() ==> r is Err && final(self)@ == old(self)@
                &&& !contains_hash(old(self)@.mem_pool.all, tx_hash_v(with_hash(tx@)))
                    && tx@.sig_ok() && old(self)@.mem_pool.max_length > 0 ==> (r matches Ok(o) && o
                    matches Outcome::BroadcastTx(t) && t@.same_wire(tx@) && t@.first_seen == now)
                    && final(self)@.mem_pool.pending == sorted_insert(
                    remove_hash(old(self)@.mem_pool.pending, tx_hash_v(with_hash(tx@))),
                    stamped(tx@, now),
                )
            },
    {
        match msg.data {
            DecodedMessageData::Tx(tx) => {
                match self.process_transaction(tx, now) {
                    Ok(Some(t)) => Ok(Outcome::BroadcastTx(t)),
                    Ok(None) => Ok(Outcome::Nothing),
                    Err(e) => Err(e),
                }
            },
            DecodedMessageData::Block(b) => {
                match self.process_block(&b) {
                    Ok(()) => Ok(Outcome::BroadcastBlock(b)),
                    Err(e) => Err(e),
                }
            },
            DecodedMessageData::StatusMessage(sm) => {
                match self.process_status_message(&sm) {
                    Some(g) => Ok(Outcome::SendGetBlocks(msg.from, g)),
                    None => Ok(Outcome::Nothing),
                }
            },
            DecodedMessageData::GetStatusMessage => {
                let m = self.process_get_status_message();
                Ok(Outcome::SendStatus(msg.from, m))
            },
            DecodedMessageData::GetBlocksMessage(_) => {
                // The chain stores headers only, so there are no block
                // bodies to answer with; the request is dropped.
                Ok(Outcome::Nothing)
            },
        }
    }

    /// Produce the next block as leader: the pending transactions become
    /// a signed block on top of the tip; on success the pending side is
    /// drained and the block handed back for broadcast. A failed attempt
    /// leaves the node unchanged and skips the tick.
    pub fn create_new_block(&mut self) -> (r: Result<Block, Error>)
        requires
            old(self).spec_is_validator(),
        ensures
            final(self)@.id == old(self)@.id,
            old(self).pool_verified() ==> final(self).pool_verified(),
            r matches Ok(b) ==> {
                &&& b@.transactions == old(self)@.mem_pool.pending
                &&& b@.header.height == old(self)@.chain.headers.len()
                &&& b@.header.prev_block_hash == header_hash(
                    old(self)@.chain.headers[old(self)@.chain.headers.len() - 1],
                )
                &&& b@.complete()
                &&& final(self)@.chain.headers == old(self)@.chain.headers.push(b@.header)
                &&& apply_txs(old(self)@.chain.state, b@.transactions) == Ok::<
                    Map<Seq<u8>, Seq<u8>>,
                    Error,
                >(final(self)@.chain.state)
                &&& final(self)@.mem_pool.pending == Seq::<TxV>::empty()
                &&& final(self)@.mem_pool.all == old(self)@.mem_pool.all
            },
            r is Err ==> final(self)@ == old(self)@,
            old(self).pool_verified() && old(self)@.chain.headers.len() <= u32::MAX && apply_txs(
                old(self)@.chain.state,
                old(self)@.mem_pool.pending,
            ) is Ok ==> r is Ok,
    {
        proof {
            use_type_invariant(&self.chain);
        }
        let our_height = self.chain.height();
        if our_height == u32::MAX {
            return Err(Error::BlockTooHigh);
        }
        let prev = match self.chain.get_header(our_height) {
            Ok(h) => h,
            Err(_) => unreached(),
        };
        let txs = self.mem_pool.pending_cloned();
        let mut block = Block::from_prev_header(&prev, txs);
        let key = match &self.private_key {
            Some(k) => k,
            None => unreached(),
        };
        block.sign(key);
        match self.chain.add_block(&block) {
            Ok(()) => {},
            Err(e) => {
                proof {
                    // A verified pending set whose payloads run clean is
                    // never rejected: the block sits one above the tip,
                    // links to it, and is complete.
                    if old(self).pool_verified() && old(self)@.chain.headers.len() <= u32::MAX
                        && apply_txs(
                        old(self)@.chain.state,
                        old(self)@.mem_pool.pending,
                    ) is Ok {
                        assert(block@.transactions == old(self)@.mem_pool.pending);
                        assert forall|i: int|
                            0 <= i < block@.transactions.len() implies (
                        #[trigger] block@.transactions[i]).sig_ok() by {
                            assert(block@.transactions[i] == old(self)@.mem_pool.pending[i]);
                        }
                        assert(candidate_ok(old(self)@.chain.headers, block@));
                        assert(false);
                    }
                }
                return Err(e);
            },
        }
        self.mem_pool.clear_pending();
        Ok(block)
    }
}

} // verus!
