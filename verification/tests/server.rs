use tinychain::keypair::PrivateKey;
use tinychain::message::StatusMessage;
use tinychain::rpc::{DecodedMessage, DecodedMessageData};
use tinychain::server::{Outcome, Server};
use tinychain::transaction::Transaction;

#[test]
fn test_server_process_transaction() {
    let mut s = Server::new("LOCAL".to_string(), None);
    let tx = Transaction::random_with_signature();

    // A fresh valid transaction is pooled and handed back for gossip.
    let out = s.process_transaction(tx.duplicate(), 42).unwrap().unwrap();
    assert_eq!(out.data, tx.data);
    assert_eq!(out.first_seen(), 42);

    // The same transaction again is ignored.
    assert!(s.process_transaction(tx, 43).unwrap().is_none());
}

#[test]
fn test_server_rejects_unsigned_transaction() {
    let mut s = Server::new("LOCAL".to_string(), None);
    let tx = Transaction::new(vec![1, 2, 3]);
    assert_eq!(
        s.process_transaction(tx, 1).unwrap_err(),
        tinychain::error::Error::MissingSignature
    );
}

#[test]
fn test_leader_produces_blocks() {
    let key = PrivateKey::generate();
    let mut s = Server::new("LEADER".to_string(), Some(key));
    assert!(s.is_validator());

    for _ in 0..10 {
        s.create_new_block().unwrap();
    }
    assert_eq!(s.height(), 10);
}

#[test]
fn test_status_sync_handshake() {
    // A leader at height 5 and a follower at height 0: the follower asks
    // for the blocks it lacks and replays them to reach height 5.
    let key = PrivateKey::generate();
    let mut leader = Server::new("L".to_string(), Some(key));
    let mut blocks = Vec::new();
    for _ in 0..5 {
        blocks.push(leader.create_new_block().unwrap());
    }
    assert_eq!(leader.height(), 5);

    let mut follower = Server::new("F".to_string(), None);
    let status = leader.process_get_status_message();
    assert_eq!(status.current_height, 5);

    let ask = follower.process_status_message(&status).unwrap();
    assert_eq!(ask.from, 1);
    assert_eq!(ask.to, 5);

    for b in &blocks {
        follower.process_block(b).unwrap();
    }
    assert_eq!(follower.height(), 5);
}

#[test]
fn test_status_not_behind_needs_nothing() {
    let follower = Server::new("F".to_string(), None);
    let status = StatusMessage::new("L".to_string(), 0, 0);
    assert!(follower.process_status_message(&status).is_none());
}

#[test]
fn test_process_message_get_status() {
    let mut s = Server::new("NODE".to_string(), None);
    let msg = DecodedMessage {
        from: "PEER".to_string(),
        data: DecodedMessageData::GetStatusMessage,
    };
    match s.process_message(msg, 0).unwrap() {
        Outcome::SendStatus(to, m) => {
            assert_eq!(to, "PEER");
            assert_eq!(m.id, "NODE");
            assert_eq!(m.version, 0);
            assert_eq!(m.current_height, 0);
        },
        _ => panic!("expected a status answer"),
    }
}

#[test]
fn test_process_message_block_gossip() {
    let key = PrivateKey::generate();
    let mut leader = Server::new("L".to_string(), Some(key));
    let b = leader.create_new_block().unwrap();

    let mut follower = Server::new("F".to_string(), None);
    let msg = DecodedMessage {
        from: "L".to_string(),
        data: DecodedMessageData::Block(b),
    };
    match follower.process_message(msg, 0).unwrap() {
        Outcome::BroadcastBlock(b2) => {
            // The same block again is already known and swallowed.
            let again = DecodedMessage {
                from: "L".to_string(),
                data: DecodedMessageData::Block(b2),
            };
            assert_eq!(
                follower.process_message(again, 0).unwrap_err(),
                tinychain::error::Error::BlockAlreadyKnown
            );
        },
        _ => panic!("an accepted block is gossiped onward"),
    }
    assert_eq!(follower.height(), 1);
}

#[test]
fn test_pending_drained_into_block() {
    let key = PrivateKey::generate();
    let mut s = Server::new("L".to_string(), Some(key));
    // A payload of plain data bytes, none of them an opcode.
    let mut tx = Transaction::new(vec![0x01, 0x02, 0x03]);
    tx.sign(&PrivateKey::generate());
    s.process_transaction(tx, 1).unwrap();

    let b = s.create_new_block().unwrap();
    assert_eq!(b.transactions.len(), 1);
    let b2 = s.create_new_block().unwrap();
    assert_eq!(b2.transactions.len(), 0);
}
