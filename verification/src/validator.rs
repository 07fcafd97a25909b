use vstd::prelude::*;

use crate::block::{header_hash, Block, BlockV, HeaderV};
use crate::blockchain::Blockchain;
use crate::error::Error;

verus! {

/// Whether a candidate block may extend the given header chain: it sits
/// exactly one above the tip, links to the tip's hash, and is complete.
pub open spec fn candidate_ok(hs: Seq<HeaderV>, b: BlockV) -> bool {
    &&& b.header.height == hs.len()
    &&& hs.len() >= 1
    &&& b.header.prev_block_hash == header_hash(hs[hs.len() - 1])
    &&& b.complete()
}

/// The error with which a candidate block is rejected, in rule order:
/// a height already held, a height beyond the next slot, a broken link
/// to the previous header, then whatever its own check finds.
pub open spec fn candidate_error(hs: Seq<HeaderV>, b: BlockV) -> Error {
    if b.header.height < hs.len() {
        Error::BlockAlreadyKnown
    } else if b.header.height != hs.len() {
        Error::BlockTooHigh
    } else if b.header.prev_block_hash != header_hash(hs[hs.len() - 1]) {
        Error::BadPrevHash
    } else {
        crate::block::block_verify_error(b)
    }
}

/// The stateless and chain-context rules for accepting a block.
pub struct BlockValidator {}

impl BlockValidator {
    pub fn new() -> BlockValidator {
        BlockValidator {  }
    }

    /// Check a candidate block against the chain: accepted exactly when
    /// it sits one above the tip, links to the tip's hash, and is
    /// complete; each rejection names its rule.
    pub fn validate_block(&self, bc: &Blockchain, b: &Block) -> (r: Result<(), Error>)
        ensures
            r is Ok <==> candidate_ok(bc@.headers, b@),
            r matches Err(e) ==> e == candidate_error(bc@.headers, b@),
    {
        proof {
            use_type_invariant(bc);
        }
        if bc.has_block(b.header.height) {
            return Err(Error::BlockAlreadyKnown);
        }
        let our_height = bc.height();
        if b.header.height != our_height + 1 {
            return Err(Error::BlockTooHigh);
        }
        let prev = match bc.get_header(b.header.height - 1) {
            Ok(h) => h,
            Err(_) => unreached(),
        };
        let hash = crate::hasher::BlockHasher.hash(&prev);
        if !(hash == b.header.prev_block_hash) {
            return Err(Error::BadPrevHash);
        }
        match b.verify() {
            Ok(()) => Ok(()),
            Err(e) => Err(e),
        }
    }
}

} // verus!
