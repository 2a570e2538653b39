use forgex_node::mempool::{
    mempool_add_tx, mempool_get_top, mempool_remove_by_hash, Mempool,
};
use forgex_node::tx::ValidTxCore;

fn pool_tx(hash_byte: u8, from_byte: u8, nonce: u64, fee: u64) -> ValidTxCore {
    ValidTxCore {
        tx_hash: format!("{:02x}", hash_byte).repeat(32),
        tx_type: "transfer".to_string(),
        from: char::from(from_byte).to_string().repeat(56),
        to: "b".repeat(56),
        token: "GLD".to_string(),
        amount: 1000,
        fee,
        nonce,
        timestamp: 1_700_000_000_000,
        pubkey: "02".repeat(33),
        signature: "cd".repeat(65),
    }
}

#[test]
fn add_inserts_fresh_transactions() {
    let mut pool = Mempool::new();
    assert_eq!(pool.len(), 0);
    mempool_add_tx(&mut pool, pool_tx(1, b'a', 1, 10));
    mempool_add_tx(&mut pool, pool_tx(2, b'c', 1, 20));
    assert_eq!(pool.len(), 2);
}

#[test]
fn duplicate_hash_is_a_no_op() {
    let mut pool = Mempool::new();
    mempool_add_tx(&mut pool, pool_tx(1, b'a', 1, 10));
    // same hash again, even with another fee: nothing changes
    mempool_add_tx(&mut pool, pool_tx(1, b'a', 1, 99));
    assert_eq!(pool.len(), 1);
    let top = mempool_get_top(&pool, 10);
    assert_eq!(top[0].fee, 10);
}

#[test]
fn lower_or_equal_fee_keeps_incumbent() {
    let mut pool = Mempool::new();
    mempool_add_tx(&mut pool, pool_tx(1, b'a', 1, 10));
    // same (sender, nonce), lower fee, different hash: rejected
    mempool_add_tx(&mut pool, pool_tx(2, b'a', 1, 5));
    assert_eq!(pool.len(), 1);
    assert_eq!(mempool_get_top(&pool, 1)[0].fee, 10);
    // equal fee also keeps the incumbent
    mempool_add_tx(&mut pool, pool_tx(3, b'a', 1, 10));
    assert_eq!(pool.len(), 1);
    assert_eq!(mempool_get_top(&pool, 1)[0].tx_hash, pool_tx(1, b'a', 1, 10).tx_hash);
}

#[test]
fn higher_fee_replaces_incumbent() {
    let mut pool = Mempool::new();
    mempool_add_tx(&mut pool, pool_tx(1, b'a', 1, 10));
    mempool_add_tx(&mut pool, pool_tx(2, b'a', 1, 50));
    assert_eq!(pool.len(), 1);
    let top = mempool_get_top(&pool, 1);
    assert_eq!(top[0].fee, 50);
    assert_eq!(top[0].tx_hash, pool_tx(2, b'a', 1, 50).tx_hash);
}

#[test]
fn get_top_orders_by_descending_fee() {
    let mut pool = Mempool::new();
    mempool_add_tx(&mut pool, pool_tx(1, b'a', 1, 10));
    mempool_add_tx(&mut pool, pool_tx(2, b'c', 1, 30));
    mempool_add_tx(&mut pool, pool_tx(3, b'd', 1, 20));
    let top = mempool_get_top(&pool, 2);
    assert_eq!(top.len(), 2);
    assert_eq!(top[0].fee, 30);
    assert_eq!(top[1].fee, 20);
    let all = mempool_get_top(&pool, 10);
    assert_eq!(all.len(), 3);
    assert_eq!(all[2].fee, 10);
    // selection does not consume the pool
    assert_eq!(pool.len(), 3);
}

#[test]
fn remove_by_hash_deletes_exactly_one() {
    let mut pool = Mempool::new();
    let tx = pool_tx(1, b'a', 1, 10);
    mempool_add_tx(&mut pool, tx.clone());
    mempool_add_tx(&mut pool, pool_tx(2, b'c', 1, 20));
    let removed = mempool_remove_by_hash(&mut pool, &tx.tx_hash).unwrap();
    assert_eq!(removed.tx_hash, tx.tx_hash);
    assert_eq!(pool.len(), 1);
    assert!(mempool_remove_by_hash(&mut pool, &tx.tx_hash).is_none());
    assert_eq!(pool.len(), 1);
}
