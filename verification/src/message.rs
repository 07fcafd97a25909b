use vstd::prelude::*;

use vstd::bytes::spec_u32_to_le_bytes;
use vstd::utf8::{decode_utf8, encode_utf8, valid_utf8};

use crate::encoding::{dec_bytes, dec_u32, enc_bytes, BincodeDecoder, BincodeEncoder};
use crate::error::Error;
use crate::util::utf8_to_string;

verus! {

/// A request for the blocks in a height range; a `to` of zero asks for
/// everything up to the peer's current height.
#[derive(Debug)]
pub struct GetBlocksMessage {
    pub from: u32,
    pub to: u32,
}

/// The wire form of a blocks request: the two heights, little-endian.
pub open spec fn get_blocks_wire(from: u32, to: u32) -> Seq<u8> {
    spec_u32_to_le_bytes(from) + spec_u32_to_le_bytes(to)
}

/// The spec parser for a blocks request.
pub open spec fn dec_get_blocks(s: Seq<u8>) -> Option<((u32, u32), int)> {
    match dec_u32(s) {
        None => None,
        Some((from, n1)) => match dec_u32(s.skip(n1)) {
            None => None,
            Some((to, n2)) => Some(((from, to), n1 + n2)),
        },
    }
}

/// Parsing inverts encoding for blocks requests, whatever follows.
pub proof fn lemma_dec_enc_get_blocks(from: u32, to: u32, rest: Seq<u8>)
    ensures
        dec_get_blocks(get_blocks_wire(from, to) + rest) == Some(((from, to), 8int)),
{
    vstd::bytes::lemma_auto_spec_u32_to_from_le_bytes();
    let s = get_blocks_wire(from, to) + rest;
    crate::encoding::lemma_dec_enc_u32(from, spec_u32_to_le_bytes(to) + rest);
    assert(s =~= spec_u32_to_le_bytes(from) + (spec_u32_to_le_bytes(to) + rest));
    assert(s.skip(4) =~= spec_u32_to_le_bytes(to) + rest);
    crate::encoding::lemma_dec_enc_u32(to, rest);
}

impl GetBlocksMessage {
    /// Append the wire form of the request to an encoder.
    pub fn encode(&self, enc: &mut BincodeEncoder)
        ensures
            final(enc)@ == old(enc)@ + get_blocks_wire(self.from, self.to),
    {
        enc.write_u32(self.from);
        enc.write_u32(self.to);
        assert(enc@ =~= old(enc)@ + get_blocks_wire(self.from, self.to));
    }

    /// Read one blocks request from a decoder.
    pub fn decode(dec: &mut BincodeDecoder) -> (r: Result<GetBlocksMessage, Error>)
        ensures
            match dec_get_blocks(old(dec).remaining()) {
                Some(vn) => r matches Ok(m)
                    && m.from == vn.0.0
                    && m.to == vn.0.1
                    && final(dec).remaining() == old(dec).remaining().skip(vn.1),
                None => r matches Err(e) && e == Error::Codec,
            },
    {
        let from = dec.read_u32()?;
        let to = dec.read_u32()?;
        Ok(GetBlocksMessage { from, to })
    }
}

/// A request for a peer's status; it has no body.
#[derive(Debug)]
pub struct GetStatusMessage {}

/// A peer's answer to a status request: its id, protocol version, and
/// current chain height.
#[derive(Debug)]
pub struct StatusMessage {
    pub id: String,
    pub version: u32,
    pub current_height: u32,
}

/// The wire form of a status answer: the id's UTF-8 bytes with a length
/// prefix, then the two integers.
pub open spec fn status_wire(id: Seq<char>, version: u32, current_height: u32) -> Seq<u8> {
    enc_bytes(encode_utf8(id)) + spec_u32_to_le_bytes(version) + spec_u32_to_le_bytes(
        current_height,
    )
}

/// The spec parser for a status answer; the id bytes must be valid
/// UTF-8.
pub open spec fn dec_status(s: Seq<u8>) -> Option<((Seq<char>, u32, u32), int)> {
    match dec_bytes(s) {
        None => None,
        Some((idb, n1)) => if !valid_utf8(idb) {
            None
        } else {
            match dec_u32(s.skip(n1)) {
                None => None,
                Some((version, n2)) => match dec_u32(s.skip(n1 + n2)) {
                    None => None,
                    Some((height, n3)) => Some(
                        ((decode_utf8(idb), version, height), n1 + n2 + n3),
                    ),
                },
            }
        },
    }
}

/// Parsing inverts encoding for status answers, whatever follows.
pub proof fn lemma_dec_enc_status(id: Seq<char>, version: u32, current_height: u32, rest: Seq<u8>)
    requires
        encode_utf8(id).len() <= usize::MAX,
    ensures
        dec_status(status_wire(id, version, current_height) + rest) matches Some(vn) && vn.0.0
            == id && vn.0.1 == version && vn.0.2 == current_height && vn.1 == status_wire(
            id,
            version,
            current_height,
        ).len(),
{
    broadcast use vstd::utf8::encode_utf8_valid_utf8, vstd::utf8::encode_utf8_decode_utf8;

    vstd::bytes::lemma_auto_spec_u32_to_from_le_bytes();
    vstd::bytes::lemma_auto_spec_u64_to_from_le_bytes();
    let s = status_wire(id, version, current_height) + rest;
    let r1 = spec_u32_to_le_bytes(version) + spec_u32_to_le_bytes(current_height) + rest;
    assert(s =~= enc_bytes(encode_utf8(id)) + r1);
    crate::encoding::lemma_dec_enc_bytes(encode_utf8(id), r1);
    let n1 = enc_bytes(encode_utf8(id)).len() as int;
    assert(s.skip(n1) =~= spec_u32_to_le_bytes(version) + (spec_u32_to_le_bytes(current_height)
        + rest));
    crate::encoding::lemma_dec_enc_u32(version, spec_u32_to_le_bytes(current_height) + rest);
    assert(s.skip(n1 + 4) =~= spec_u32_to_le_bytes(current_height) + rest);
    crate::encoding::lemma_dec_enc_u32(current_height, rest);
}

impl StatusMessage {
    pub fn new(id: String, version: u32, current_height: u32) -> (m: StatusMessage)
        ensures
            m.id@ == id@,
            m.version == version,
            m.current_height == current_height,
    {
        StatusMessage { id, version, current_height }
    }

    /// Append the wire form of the status answer to an encoder.
    pub fn encode(&self, enc: &mut BincodeEncoder)
        ensures
            final(enc)@ == old(enc)@ + status_wire(self.id@, self.version, self.current_height),
    {
        let idb = vstd::slice::slice_to_vec(self.id.as_str().as_bytes());
        assert(idb@ == encode_utf8(self.id@));
        enc.write_bytes_field(&idb);
        enc.write_u32(self.version);
        enc.write_u32(self.current_height);
        assert(enc@ =~= old(enc)@ + status_wire(self.id@, self.version, self.current_height));
    }

    /// Read one status answer from a decoder.
    pub fn decode(dec: &mut BincodeDecoder) -> (r: Result<StatusMessage, Error>)
        ensures
            match dec_status(old(dec).remaining()) {
                Some(vn) => r matches Ok(m)
                    && m.id@ == vn.0.0
                    && m.version == vn.0.1
                    && m.current_height == vn.0.2
                    && final(dec).remaining() == old(dec).remaining().skip(vn.1),
                None => r matches Err(e) && e == Error::Codec,
            },
    {
        let ghost rem0 = dec.remaining();
        let idb = dec.read_bytes_field()?;
        let ghost n1 = dec_bytes(rem0).unwrap().1;
        let id = match utf8_to_string(idb) {
            Some(s) => s,
            None => {
                return Err(Error::Codec);
            },
        };
        let version = dec.read_u32()?;
        let ghost n2 = dec_u32(rem0.skip(n1)).unwrap().1;
        proof {
            assert(dec.remaining() =~= rem0.skip(n1 + n2));
        }
        let height = dec.read_u32()?;
        proof {
            let n3 = dec_u32(rem0.skip(n1 + n2)).unwrap().1;
            assert(dec.remaining() =~= rem0.skip(n1 + n2 + n3));
        }
        Ok(StatusMessage { id, version, current_height: height })
    }
}

} // verus!
