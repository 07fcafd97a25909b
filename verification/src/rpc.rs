use vstd::prelude::*;

use crate::block::{dec_block, Block, BlockV};
use crate::encoding::{dec_bytes, dec_u8, enc_bytes, BincodeDecoder, BincodeEncoder};
use crate::error::Error;
use crate::message::{dec_get_blocks, dec_status, GetBlocksMessage, StatusMessage};
use crate::transaction::{dec_tx, Transaction, TxV};

verus! {

/// A peer address: an opaque string.
pub type NetAddr = String;

/// The type tag of an envelope.
#[derive(Clone, Copy, Debug, PartialEq, Eq, Structural)]
pub enum MessageType {
    Tx,
    Block,
    GetBlocks,
    Status,
    GetStatus,
}

/// The byte each envelope type is tagged with on the wire.
pub open spec fn message_type_byte(t: MessageType) -> u8 {
    match t {
        MessageType::Tx => 1,
        MessageType::Block => 2,
        MessageType::GetBlocks => 3,
        MessageType::Status => 4,
        MessageType::GetStatus => 5,
    }
}

/// One inbound payload with the address it came from.
#[derive(Debug)]
pub struct RPC {
    pub from: NetAddr,
    pub payload: Vec<u8>,
}

/// The envelope every payload travels in: a one-byte type tag and the
/// type-specific body with a length prefix.
#[derive(Debug)]
pub struct Message {
    pub header: MessageType,
    pub data: Vec<u8>,
}

/// The wire form of an envelope.
pub open spec fn message_wire(t: MessageType, data: Seq<u8>) -> Seq<u8> {
    seq![message_type_byte(t)] + enc_bytes(data)
}

impl Message {
    pub fn new(header: MessageType, data: Vec<u8>) -> (m: Message)
        ensures
            m.header == header,
            m.data@ == data@,
    {
        Message { header, data }
    }

    /// The wire form of the envelope.
    pub fn bytes(&self) -> (r: Vec<u8>)
        ensures
            r@ == message_wire(self.header, self.data@),
    {
        let mut enc = BincodeEncoder::new();
        let tag: u8 = match self.header {
            MessageType::Tx => 1,
            MessageType::Block => 2,
            MessageType::GetBlocks => 3,
            MessageType::Status => 4,
            MessageType::GetStatus => 5,
        };
        enc.write_u8(tag);
        enc.write_bytes_field(&self.data);
        let r = enc.into_bytes();
        assert(r@ =~= message_wire(self.header, self.data@));
        r
    }
}

/// The decoded body of an inbound payload.
#[derive(Debug)]
pub enum DecodedMessageData {
    Tx(Transaction),
    Block(Block),
    StatusMessage(StatusMessage),
    GetStatusMessage,
    GetBlocksMessage(GetBlocksMessage),
}

/// A decoded payload with the address it came from.
#[derive(Debug)]
pub struct DecodedMessage {
    pub from: NetAddr,
    pub data: DecodedMessageData,
}

/// The mathematical value of a decoded body.
pub ghost enum DecodedV {
    Tx(TxV),
    Block(BlockV),
    Status(Seq<char>, u32, u32),
    GetStatus,
    GetBlocks(u32, u32),
}

/// The spec parser for a whole payload: the envelope, then the body
/// according to the tag. An unknown tag is its own fault; anything
/// malformed is a codec fault. Bytes beyond a well-formed body are
/// ignored, as they are beyond the envelope.
pub open spec fn dec_rpc(s: Seq<u8>) -> Result<DecodedV, Error> {
    match dec_u8(s) {
        None => Err(Error::Codec),
        Some((tag, n0)) => match dec_bytes(s.skip(n0)) {
            None => Err(Error::Codec),
            Some((data, _)) => if tag == 1 {
                match dec_tx(data) {
                    Some((t, _)) => Ok(DecodedV::Tx(t)),
                    None => Err(Error::Codec),
                }
            } else if tag == 2 {
                match dec_block(data) {
                    Some((b, _)) => Ok(DecodedV::Block(b)),
                    None => Err(Error::Codec),
                }
            } else if tag == 3 {
                match dec_get_blocks(data) {
                    Some((m, _)) => Ok(DecodedV::GetBlocks(m.0, m.1)),
                    None => Err(Error::Codec),
                }
            } else if tag == 4 {
                match dec_status(data) {
                    Some((m, _)) => Ok(DecodedV::Status(m.0, m.1, m.2)),
                    None => Err(Error::Codec),
                }
            } else if tag == 5 {
                Ok(DecodedV::GetStatus)
            } else {
                Err(Error::UnknownMessageType)
            },
        },
    }
}

/// Whether a decoded body carries the given mathematical value.
pub open spec fn decoded_matches(d: DecodedMessageData, v: DecodedV) -> bool {
    match (d, v) {
        (DecodedMessageData::Tx(t), DecodedV::Tx(tv)) => t@ == tv,
        (DecodedMessageData::Block(b), DecodedV::Block(bv)) => b@ == bv,
        (DecodedMessageData::StatusMessage(m), DecodedV::Status(id, ver, h)) => m.id@ == id
            && m.version == ver && m.current_height == h,
        (DecodedMessageData::GetStatusMessage, DecodedV::GetStatus) => true,
        (DecodedMessageData::GetBlocksMessage(m), DecodedV::GetBlocks(f, t)) => m.from == f
            && m.to == t,
        _ => false,
    }
}

/// Decode one inbound payload: the envelope's tag picks the body
/// decoder. The sender address is carried through unchanged.
pub fn default_rpc_decode_fn(rpc: RPC) -> (r: Result<DecodedMessage, Error>)
    ensures
        match dec_rpc(rpc.payload@) {
            Ok(v) => r matches Ok(m) && decoded_matches(m.data, v) && m.from@ == rpc.from@,
            Err(e) => r == Err::<DecodedMessage, Error>(e),
        },
{
    let mut dec = BincodeDecoder::new(rpc.payload);
    let tag = dec.read_u8()?;
    let body = dec.read_bytes_field()?;
    let mut body_dec = BincodeDecoder::new(body);
    let data = if tag == 1 {
        DecodedMessageData::Tx(Transaction::decode(&mut body_dec)?)
    } else if tag == 2 {
        DecodedMessageData::Block(Block::decode(&mut body_dec)?)
    } else if tag == 3 {
        DecodedMessageData::GetBlocksMessage(GetBlocksMessage::decode(&mut body_dec)?)
    } else if tag == 4 {
        DecodedMessageData::StatusMessage(StatusMessage::decode(&mut body_dec)?)
    } else if tag == 5 {
        DecodedMessageData::GetStatusMessage
    } else {
        return Err(Error::UnknownMessageType);
    };
    Ok(DecodedMessage { from: rpc.from, data })
}

} // verus!
