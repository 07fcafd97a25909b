use tinychain::block::Block;
use tinychain::blockchain::Blockchain;
use tinychain::error::Error;
use tinychain::hasher::BlockHasher;
use tinychain::keypair::PrivateKey;

fn blockchain() -> Blockchain {
    Blockchain::new("".to_string(), &Block::genesis())
}

fn next_empty_block(bc: &Blockchain, key: &PrivateKey) -> Block {
    let prev = bc.get_header(bc.height()).unwrap();
    let mut b = Block::from_prev_header(&prev, Vec::new());
    b.sign(key);
    b
}

#[test]
fn test_blockchain() {
    assert_eq!(blockchain().height(), 0);
}

#[test]
fn test_has_block() {
    assert!(blockchain().has_block(0));
}

#[test]
fn test_add_block() {
    let mut bc = blockchain();
    let key = PrivateKey::generate();

    let len_blocks = 10;
    for _ in 0..len_blocks {
        let b = next_empty_block(&bc, &key);
        bc.add_block(&b).unwrap();
    }

    assert_eq!(bc.height(), len_blocks);
    assert_eq!(bc.len() as u32, len_blocks + 1);

    assert!(bc
        .add_block(&Block::random(89, tinychain::hash::Hash::random()))
        .is_err());
}

#[test]
fn test_get_header() {
    let mut bc = blockchain();
    let key = PrivateKey::generate();

    let len_blocks = 10;

    for i in 0..len_blocks {
        let b = next_empty_block(&bc, &key);
        bc.add_block(&b).unwrap();
        let header = bc.get_header(i + 1).unwrap();
        assert_eq!(header, b.header);
    }
}

#[test]
fn test_add_block_too_high() {
    let mut bc = blockchain();
    let key = PrivateKey::generate();
    let b = next_empty_block(&bc, &key);
    bc.add_block(&b).unwrap();
    assert_eq!(
        bc.add_block(&Block::random(3, tinychain::hash::Hash::random())),
        Err(Error::BlockTooHigh)
    );
}

#[test]
fn test_add_block_already_known() {
    let mut bc = blockchain();
    assert_eq!(
        bc.add_block(&Block::random(0, tinychain::hash::Hash::random())),
        Err(Error::BlockAlreadyKnown)
    );
}

#[test]
fn test_add_block_bad_prev_hash() {
    let mut bc = blockchain();
    let b = Block::random(1, tinychain::hash::Hash::random());
    assert_eq!(bc.add_block(&b), Err(Error::BadPrevHash));
    assert_eq!(bc.height(), 0);
}

#[test]
fn test_chain_links_every_header() {
    let mut bc = blockchain();
    let key = PrivateKey::generate();
    for _ in 0..5 {
        let b = next_empty_block(&bc, &key);
        bc.add_block(&b).unwrap();
    }
    for h in 1..=5u32 {
        let prev = bc.get_header(h - 1).unwrap();
        let expected = BlockHasher.hash(&prev);
        let header = bc.get_header(h).unwrap();
        assert!(header.prev_block_hash == expected);
        assert_eq!(header.height, h);
    }
}

#[test]
fn test_get_header_out_of_range() {
    let bc = blockchain();
    assert_eq!(bc.get_header(10).unwrap_err(), Error::HeightOutOfRange);
}

#[test]
fn test_vm_effects_persist_across_add_block() {
    // A block whose single transaction stores value 5 under key "FOO".
    let mut bc = blockchain();
    let key = PrivateKey::generate();
    let program = vec![
        0x05, 0x0a, 0x4f, 0x0c, 0x4f, 0x0c, 0x46, 0x0c, 0x03, 0x0a, 0x0d, 0x0f,
    ];
    let mut tx = tinychain::transaction::Transaction::new(program);
    tx.sign(&key);

    let prev = bc.get_header(0).unwrap();
    let mut b = Block::from_prev_header(&prev, vec![tx]);
    b.sign(&key);
    bc.add_block(&b).unwrap();
    assert_eq!(bc.height(), 1);
}

#[test]
fn test_vm_fault_rejects_block() {
    // A payload that reads a missing key faults the VM; the block is
    // rejected and the chain unchanged.
    let mut bc = blockchain();
    let key = PrivateKey::generate();
    let program = vec![0x4f, 0x0c, 0xae];
    let mut tx = tinychain::transaction::Transaction::new(program);
    tx.sign(&key);

    let prev = bc.get_header(0).unwrap();
    let mut b = Block::from_prev_header(&prev, vec![tx]);
    b.sign(&key);
    assert_eq!(bc.add_block(&b), Err(Error::VmState));
    assert_eq!(bc.height(), 0);
}
