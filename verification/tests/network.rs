use tinychain::encoding::{BincodeDecoder, BincodeEncoder};
use tinychain::error::Error;
use tinychain::message::{GetBlocksMessage, StatusMessage};
use tinychain::rpc::{default_rpc_decode_fn, DecodedMessageData, Message, MessageType, RPC};
use tinychain::transaction::Transaction;

#[test]
fn test_status_message_round_trip() {
    let m = StatusMessage::new("NODE_A".to_string(), 0, 7);
    let mut enc = BincodeEncoder::new();
    m.encode(&mut enc);
    let mut dec = BincodeDecoder::new(enc.into_bytes());
    let m2 = StatusMessage::decode(&mut dec).unwrap();
    assert_eq!(m2.id, "NODE_A");
    assert_eq!(m2.version, 0);
    assert_eq!(m2.current_height, 7);
}

#[test]
fn test_get_blocks_message_round_trip() {
    let m = GetBlocksMessage { from: 3, to: 5 };
    let mut enc = BincodeEncoder::new();
    m.encode(&mut enc);
    let mut dec = BincodeDecoder::new(enc.into_bytes());
    let m2 = GetBlocksMessage::decode(&mut dec).unwrap();
    assert_eq!(m2.from, 3);
    assert_eq!(m2.to, 5);
}

#[test]
fn test_message_envelope_exact_bytes() {
    let m = Message::new(MessageType::Status, vec![0xaa, 0xbb]);
    assert_eq!(
        m.bytes(),
        vec![4, 2, 0, 0, 0, 0, 0, 0, 0, 0xaa, 0xbb]
    );
}

#[test]
fn test_rpc_decode_tx() {
    let tx = Transaction::random_with_signature();
    let msg = Message::new(MessageType::Tx, tx.bytes());
    let rpc = RPC { from: "A".to_string(), payload: msg.bytes() };
    let decoded = default_rpc_decode_fn(rpc).unwrap();
    assert_eq!(decoded.from, "A");
    match decoded.data {
        DecodedMessageData::Tx(t) => assert_eq!(t.data, tx.data),
        _ => panic!("expected a transaction body"),
    }
}

#[test]
fn test_rpc_decode_get_status() {
    let msg = Message::new(MessageType::GetStatus, Vec::new());
    let rpc = RPC { from: "B".to_string(), payload: msg.bytes() };
    let decoded = default_rpc_decode_fn(rpc).unwrap();
    assert!(matches!(
        decoded.data,
        DecodedMessageData::GetStatusMessage
    ));
}

#[test]
fn test_rpc_decode_unknown_type() {
    // Tag 9 is outside the known envelope types.
    let payload = vec![9, 0, 0, 0, 0, 0, 0, 0, 0];
    let rpc = RPC { from: "C".to_string(), payload };
    assert_eq!(
        default_rpc_decode_fn(rpc).unwrap_err(),
        Error::UnknownMessageType
    );
}

#[test]
fn test_rpc_decode_short_input() {
    let rpc = RPC { from: "C".to_string(), payload: vec![1, 5, 0] };
    assert_eq!(default_rpc_decode_fn(rpc).unwrap_err(), Error::Codec);
}

#[test]
fn test_rpc_decode_block() {
    let b = tinychain::block::Block::random(2, tinychain::hash::Hash::random());
    let msg = Message::new(MessageType::Block, b.bytes());
    let rpc = RPC { from: "D".to_string(), payload: msg.bytes() };
    let decoded = default_rpc_decode_fn(rpc).unwrap();
    match decoded.data {
        DecodedMessageData::Block(b2) => assert_eq!(b2.header, b.header),
        _ => panic!("expected a block body"),
    }
}
