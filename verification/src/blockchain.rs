use vstd::prelude::*;

use crate::block::{data_hash_of, header_hash, Block, BlockV, Header, HeaderV};
use crate::error::Error;
use crate::state::State;
use crate::storage::MemoryStore;
use crate::transaction::TxV;
use crate::util::copy_bytes;
use crate::validator::{candidate_error, candidate_ok, BlockValidator};
use crate::vm::{spec_run_from, ItemV, VmSnap, VM};

verus! {

/// The mathematical value of a chain: the node id, the accepted headers
/// in order, and the contract state.
pub ghost struct ChainV {
    pub id: Seq<char>,
    pub headers: Seq<HeaderV>,
    pub state: Map<Seq<u8>, Seq<u8>>,
}

/// Every header above genesis links to the hash of its predecessor.
pub open spec fn chain_linked(hs: Seq<HeaderV>) -> bool {
    forall|h: int|
        0 < h < hs.len() ==> (#[trigger] hs[h]).prev_block_hash == header_hash(hs[h - 1])
}

/// The header at each position carries that position as its height.
pub open spec fn heights_consecutive(hs: Seq<HeaderV>) -> bool {
    forall|h: int| 0 <= h < hs.len() ==> (#[trigger] hs[h]).height == h
}

/// A well-formed chain: rooted at genesis, heights consecutive, and
/// every link sound.
pub open spec fn chain_wf(hs: Seq<HeaderV>) -> bool {
    &&& 1 <= hs.len() <= u32::MAX + 1
    &&& heights_consecutive(hs)
    &&& chain_linked(hs)
}

/// The contract state after running every transaction's payload in
/// order, or the first fault.
pub open spec fn apply_txs(store: Map<Seq<u8>, Seq<u8>>, txs: Seq<TxV>) -> Result<
    Map<Seq<u8>, Seq<u8>>,
    Error,
>
    decreases txs.len(),
{
    if txs.len() == 0 {
        Ok(store)
    } else {
        match spec_run_from(txs[0].data, 0, VmSnap { stack: Seq::<ItemV>::empty(), store }) {
            Err(e) => Err(e),
            Ok(v) => apply_txs(v.store, txs.drop_first()),
        }
    }
}

/// The per-node chain: an append-only header list rooted at genesis, a
/// validator, and the contract state the blocks' transactions built.
pub struct Blockchain {
    store: MemoryStore,
    validator: BlockValidator,
    headers: Vec<Header>,
    server_id: String,
    contract_state: State,
}

impl View for Blockchain {
    type V = ChainV;

    closed spec fn view(&self) -> ChainV {
        ChainV {
            id: self.server_id@,
            headers: self.headers@.map_values(|h: Header| h@),
            state: self.contract_state@,
        }
    }
}

impl Blockchain {
    /// Every chain is well formed: genesis sits at height zero and each
    /// later header links to the hash of the one before it.
    #[verifier::type_invariant]
    pub(crate) open spec fn type_inv(self) -> bool {
        chain_wf(self@.headers)
    }

    /// A chain holding only the given genesis block's header, with an
    /// empty contract state.
    pub fn new(server_id: String, genesis: &Block) -> (bc: Blockchain)
        requires
            genesis@.header.height == 0,
        ensures
            bc@.id == server_id@,
            bc@.headers == seq![genesis@.header],
            bc@.state == Map::<Seq<u8>, Seq<u8>>::empty(),
    {
        let mut headers: Vec<Header> = Vec::new();
        headers.push(genesis.header.duplicate());
        let bc = Blockchain {
            store: MemoryStore::new(),
            validator: BlockValidator::new(),
            headers,
            server_id,
            contract_state: State::new(),
        };
        assert(bc@.headers =~= seq![genesis@.header]);
        bc
    }

    /// The node id this chain belongs to.
    pub fn server_id(&self) -> (r: &String)
        ensures
            r@ == self@.id,
    {
        &self.server_id
    }

    /// Whether the chain already holds a block at this height.
    pub fn has_block(&self, height: u32) -> (r: bool)
        ensures
            r == (height < self@.headers.len()),
    {
        proof {
            use_type_invariant(self);
        }
        (height as usize) < self.headers.len()
    }

    /// The height of the tip: one less than the number of headers.
    pub fn height(&self) -> (r: u32)
        ensures
            r == self@.headers.len() - 1,
    {
        proof {
            use_type_invariant(self);
        }
        (self.headers.len() - 1) as u32
    }

    /// How many headers the chain holds.
    pub fn len(&self) -> (r: usize)
        ensures
            r == self@.headers.len(),
    {
        self.headers.len()
    }

    /// The header at the given height, or a range error beyond the tip.
    pub fn get_header(&self, height: u32) -> (r: Result<Header, Error>)
        ensures
            r is Ok <==> height < self@.headers.len(),
            r matches Ok(h) ==> h@ == self@.headers[height as int],
            r matches Err(e) ==> e == Error::HeightOutOfRange,
    {
        proof {
            use_type_invariant(self);
        }
        if (height as usize) < self.headers.len() {
            Ok(self.headers[height as usize].duplicate())
        } else {
            Err(Error::HeightOutOfRange)
        }
    }

    /// The hash of the header below the given height; a range error at
    /// genesis or beyond one above the tip.
    pub fn get_prev_block_hash(&self, height: u32) -> (r: Result<crate::hash::Hash, Error>)
        ensures
            r is Ok <==> 1 <= height <= self@.headers.len(),
            r matches Ok(h) ==> h@ == header_hash(self@.headers[height - 1]),
            r matches Err(e) ==> e == Error::HeightOutOfRange,
    {
        if height == 0 {
            return Err(Error::HeightOutOfRange);
        }
        let header = self.get_header(height - 1)?;
        Ok(crate::hasher::BlockHasher.hash(&header))
    }

    /// Append a candidate block: it must pass the validator's rules, and
    /// every transaction's payload must run without fault; the contract
    /// state then keeps the transactions' effects and the header joins
    /// the chain. A rejected block leaves the chain and the state
    /// exactly as they were.
    #[verifier::loop_isolation(false)]
    #[verifier::rlimit(100)]
    pub fn add_block(&mut self, b: &Block) -> (r: Result<(), Error>)
        ensures
            chain_wf(final(self)@.headers),
            final(self)@.id == old(self)@.id,
            r is Ok <==> candidate_ok(old(self)@.headers, b@) && apply_txs(
                old(self)@.state,
                b@.transactions,
            ) is Ok,
            r is Ok ==> final(self)@.headers == old(self)@.headers.push(b@.header) && apply_txs(
                old(self)@.state,
                b@.transactions,
            ) == Ok::<Map<Seq<u8>, Seq<u8>>, Error>(final(self)@.state) && b@.header.data_hash
                == data_hash_of(b@.transactions),
            r matches Err(e) ==> final(self)@ == old(self)@ && (if !candidate_ok(
                old(self)@.headers,
                b@,
            ) {
                e == candidate_error(old(self)@.headers, b@)
            } else {
                apply_txs(old(self)@.state, b@.transactions) == Err::<
                    Map<Seq<u8>, Seq<u8>>,
                    Error,
                >(e)
            }),
    {
        proof {
            use_type_invariant(&*self);
        }
        match BlockValidator::validate_block(&self.validator, self, b) {
            Ok(()) => {},
            Err(e) => {
                return Err(e);
            },
        }
        let ghost store0 = self.contract_state@;
        let ghost all_txs = b.transactions@.map_values(|t: crate::transaction::Transaction| t@);
        let mut st = State::new();
        std::mem::swap(&mut st, &mut self.contract_state);
        let snapshot = st.duplicate();
        proof {
            assert(all_txs.skip(0) =~= all_txs);
        }
        let mut i: usize = 0;
        while i < b.transactions.len()
            invariant
                i <= b.transactions@.len(),
                apply_txs(store0, all_txs) == apply_txs(st@, all_txs.skip(i as int)),
                self@.headers == old(self)@.headers,
                self@.id == old(self)@.id,
                snapshot@ == store0,
            decreases b.transactions@.len() - i,
        {
            let mut vm = VM::new(copy_bytes(&b.transactions[i].data));
            let ghost st_before = st@;
            match vm.run(&mut st) {
                Ok(()) => {},
                Err(e) => {
                    proof {
                        assert(all_txs.skip(i as int)[0] == all_txs[i as int]);
                        assert(apply_txs(st_before, all_txs.skip(i as int)) == Err::<
                            Map<Seq<u8>, Seq<u8>>,
                            Error,
                        >(e));
                    }
                    self.contract_state = snapshot;
                    return Err(e);
                },
            }
            proof {
                assert(all_txs.skip(i as int)[0] == all_txs[i as int]);
                assert(all_txs.skip(i as int).drop_first() =~= all_txs.skip(i as int + 1));
            }
            i = i + 1;
        }
        proof {
            assert(all_txs.skip(b.transactions@.len() as int) =~= Seq::<TxV>::empty());
        }
        self.contract_state = st;
        let ghost hs0 = self@.headers;
        let mut headers: Vec<Header> = Vec::new();
        let mut j: usize = 0;
        while j < self.headers.len()
            invariant
                j <= self.headers@.len(),
                headers@.map_values(|h: Header| h@) == hs0.take(j as int),
                self@.headers == hs0,
            decreases self.headers@.len() - j,
        {
            let ghost pre = headers@.map_values(|h: Header| h@);
            let d = self.headers[j].duplicate();
            headers.push(d);
            proof {
                assert(headers@.map_values(|h: Header| h@) =~= pre.push(d@));
                assert(hs0[j as int] == self.headers@[j as int]@);
                assert(pre.push(d@) =~= hs0.take(j as int + 1));
            }
            j = j + 1;
        }
        proof {
            assert(hs0.take(self.headers@.len() as int) =~= hs0);
        }
        headers.push(b.header.duplicate());
        proof {
            assert(headers@.map_values(|h: Header| h@) =~= hs0.push(b@.header));
            let hs1 = hs0.push(b@.header);
            assert forall|h: int| 0 <= h < hs1.len() implies (#[trigger] hs1[h]).height == h by {
                if h < hs0.len() {
                    assert(hs1[h] == hs0[h]);
                } else {
                    assert(hs1[h] == b@.header);
                }
            }
            assert forall|h: int|
                0 < h < hs1.len() implies (#[trigger] hs1[h]).prev_block_hash == header_hash(
                hs1[h - 1],
            ) by {
                if h < hs0.len() {
                    assert(hs1[h] == hs0[h]);
                    assert(hs1[h - 1] == hs0[h - 1]);
                } else {
                    assert(hs1[h] == b@.header);
                    assert(hs1[h - 1] == hs0[hs0.len() - 1]);
                }
            }
        }
        self.headers = headers;
        Ok(())
    }
}

} // verus!
