use rand::Rng;

use tinychain::transaction::Transaction;
use tinychain::tx_pool::TxPool;

#[test]
fn test_tx_pool() {
    let p = TxPool::new(10);
    assert_eq!(p.len(), 0);
}

#[test]
fn test_tx_pool_add_tx() {
    let mut p = TxPool::new(11);
    let n = 10;

    for i in 1..n {
        let tx = Transaction::random_with_signature();

        p.add(tx.duplicate()).unwrap();
        p.add(tx).unwrap();

        assert_eq!(i, p.pending_count());
        assert_eq!(i, p.len());
    }
}

#[test]
fn test_sort_transaction() {
    let tx_len: usize = 1000;
    let mut p = TxPool::new(tx_len);

    for i in 0..tx_len {
        let mut tx = Transaction::new(i.to_le_bytes().to_vec());
        tx.set_first_seen((i * rand::thread_rng().gen_range(1..1000)) as u128);
        p.add(tx).unwrap();
    }
    assert_eq!(tx_len, p.len());

    let transactions = p.all_cloned();
    for i in 0..tx_len - 1 {
        assert!(transactions[i].first_seen() <= transactions[i + 1].first_seen());
    }
}

#[test]
fn test_eviction_drops_oldest() {
    let mut p = TxPool::new(2);

    let mut t1 = Transaction::new(vec![1]);
    t1.set_first_seen(10);
    t1.calculate_and_cache_hash();
    let h1 = t1.hash();

    let mut t2 = Transaction::new(vec![2]);
    t2.set_first_seen(20);

    let mut t3 = Transaction::new(vec![3]);
    t3.set_first_seen(30);

    p.add(t1).unwrap();
    p.add(t2).unwrap();
    assert_eq!(p.len(), 2);

    p.add(t3).unwrap();
    assert_eq!(p.len(), 2);
    assert!(!p.has(&h1));
}

#[test]
fn test_pending_order_ties_by_hash() {
    let mut p = TxPool::new(10);

    let mut t1 = Transaction::new(vec![1]);
    t1.set_first_seen(5);
    let mut t2 = Transaction::new(vec![2]);
    t2.set_first_seen(5);
    let mut t3 = Transaction::new(vec![3]);
    t3.set_first_seen(1);

    p.add(t1).unwrap();
    p.add(t2).unwrap();
    p.add(t3).unwrap();

    let pending = p.pending_cloned();
    assert_eq!(pending.len(), 3);
    // The unique earliest first-seen comes first.
    assert_eq!(pending[0].first_seen(), 1);
    // The tied pair is ordered ascending by hash bytes.
    let h1 = pending[1].hash().into_bytes();
    let h2 = pending[2].hash().into_bytes();
    assert!(h1 < h2);
}

#[test]
fn test_clear_pending_keeps_all() {
    let mut p = TxPool::new(10);
    p.add(Transaction::random_with_signature()).unwrap();
    assert_eq!(p.pending_count(), 1);
    p.clear_pending();
    assert_eq!(p.pending_count(), 0);
    assert_eq!(p.len(), 1);
}

#[test]
fn test_flush_empties_both() {
    let mut p = TxPool::new(10);
    p.add(Transaction::random_with_signature()).unwrap();
    p.flush();
    assert_eq!(p.pending_count(), 0);
    assert_eq!(p.len(), 0);
}

#[test]
fn test_zero_capacity_pool_refuses() {
    let mut p = TxPool::new(0);
    assert_eq!(
        p.add(Transaction::random_with_signature()),
        Err(tinychain::error::Error::MempoolFull)
    );
}
