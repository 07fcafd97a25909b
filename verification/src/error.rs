use vstd::prelude::*;

verus! {

/// The error taxonomy of the node: wire-format faults, missing or invalid
/// cryptographic material, chain-context rejections of a candidate block,
/// and virtual-machine faults while executing a transaction payload.
#[derive(Clone, Copy, Debug, PartialEq, Eq, Structural)]
pub enum Error {
    /// Malformed wire bytes: short input, bad tag, or oversized length.
    Codec,
    /// The message envelope carries a type byte outside the known range.
    UnknownMessageType,
    /// A transaction or block is missing its signature.
    MissingSignature,
    /// A transaction is missing its sender public key.
    MissingSender,
    /// A block is missing its validator public key.
    MissingValidator,
    /// The signature does not verify over the signed bytes.
    BadSignature,
    /// A transaction inside a block fails to verify.
    BadTxSignature,
    /// The header's data hash disagrees with the transactions.
    BadDataHash,
    /// The candidate block's height is already present in the chain.
    BlockAlreadyKnown,
    /// The candidate block's height is more than one above the chain tip.
    BlockTooHigh,
    /// The candidate block does not link to the hash of the previous header.
    BadPrevHash,
    /// A header was requested at a height the chain does not hold.
    HeightOutOfRange,
    /// The mempool was built with capacity zero and cannot take a transaction.
    MempoolFull,
    /// A VM operation was applied to stack items of the wrong shape.
    VmTypeError,
    /// Division by zero or an arithmetic overflow in the VM.
    VmArithmetic,
    /// A VM byte bundle would exceed the largest fixed width.
    VmLimit,
    /// A VM `GET` missed the contract state or the value is oversized.
    VmState,
}

} // verus!
