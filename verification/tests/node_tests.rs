//! End-to-end runs of the submit pipeline and the producer tick.

use forgex_node::block::{Block, BlockBody, BlockHeader, BlockStore};
use forgex_node::codec::{ask_balance, ask_nonce, make_raw_tx, send_tx};
use forgex_node::hex::bytes_to_hex;
use forgex_node::mempool::{mempool_add_tx, Mempool};
use forgex_node::node::handle_message;
use forgex_node::producer::{make_block_id_string, make_tx_root_string, run_produce_tick};
use forgex_node::state::{apply_block, balance, block_info, nonce, ChainState, TREASURY_ADDR};
use forgex_node::storage::{
    get_block_by_hash, get_block_by_tx_hash, get_latest_block, store_block, InMemoryStorage,
};
use forgex_node::tx::{Tx, ValidTxCore};
use forgex_node::validate::build_pipe_v1_string;

use bech32::ToBase32;
use k256::ecdsa::signature::hazmat::PrehashSigner;
use k256::elliptic_curve::sec1::ToEncodedPoint;
use sha2::Digest;

const NOW_MS: i64 = 1_700_000_000_000;

fn addr_from_payload(core20: &[u8]) -> String {
    let mut payload24 = b"gld2".to_vec();
    payload24.extend_from_slice(core20);
    let h = sha2::Sha256::digest(&payload24);
    let mut full28 = payload24.clone();
    full28.extend_from_slice(&h[..4]);
    bech32::encode("gld2", full28.to_base32(), bech32::Variant::Bech32).unwrap()
}

fn signed_transfer(sk_byte: u8, amount: u64, fee: u64, tx_nonce: u64) -> Tx {
    let sk = k256::ecdsa::SigningKey::from_slice(&[sk_byte; 32]).unwrap();
    let pk_bytes = sk.verifying_key().to_encoded_point(true).as_bytes().to_vec();
    let from = addr_from_payload(&pk_bytes[1..21]);
    let to = addr_from_payload(&[0x55u8; 20]);
    let mut tx = Tx {
        tx_hash: String::new(),
        domain_tag: "GLD_TX_v1".to_string(),
        chain_id: "gld-dev-1".to_string(),
        tx_type: "transfer".to_string(),
        from,
        to,
        token: "GLD".to_string(),
        amount,
        fee,
        nonce: tx_nonce,
        timestamp: NOW_MS as u64,
        pubkey: bytes_to_hex(&pk_bytes),
        signature: String::new(),
        encoding: "pipe_v1".to_string(),
    };
    let digest = sha2::Sha256::digest(build_pipe_v1_string(&tx).as_bytes());
    let sig: k256::ecdsa::Signature = sk.sign_prehash(&digest).unwrap();
    let mut sig65 = sig.to_bytes().to_vec();
    sig65.push(0);
    tx.signature = bytes_to_hex(&sig65);
    let raw = make_raw_tx(&tx).unwrap();
    tx.tx_hash = bytes_to_hex(&sha2::Sha256::digest(&raw));
    tx
}

fn funding_block(to: &str, amount: u64, height: u64) -> Block {
    let tx = ValidTxCore {
        tx_hash: "f0".repeat(32),
        tx_type: "transfer".to_string(),
        from: TREASURY_ADDR.to_string(),
        to: to.to_string(),
        token: "GLD".to_string(),
        amount,
        fee: 1,
        nonce: 1,
        timestamp: NOW_MS as u64,
        pubkey: "02".repeat(33),
        signature: "cd".repeat(65),
    };
    Block {
        block_id: format!("blk-fund-{}", height),
        header: BlockHeader {
            version: "0.1".to_string(),
            chain_id: "gld-dev-1".to_string(),
            height,
            prev_hash: "0".repeat(64),
            timestamp_ms: NOW_MS,
            tx_count: 1,
            tx_root: String::new(),
        },
        body: BlockBody { txs: vec![tx] },
    }
}

#[test]
fn submitted_transfer_is_validated_pooled_and_applied() {
    let mut st = ChainState::new();
    let mut pool = Mempool::new();
    let mut store = BlockStore::new();

    // give the freshly derived sender funds to spend
    let tx = signed_transfer(0x21, 1000, 10, 1);
    let sender = tx.from.clone();
    let recipient = tx.to.clone();
    apply_block(&mut st, &funding_block(&sender, 5000, 1)).unwrap();
    let sender_before = balance(&st, &sender, "GLD");
    let treasury_before = balance(&st, TREASURY_ADDR, "GLD");

    // submit the 269-byte raw transfer over the wire
    let frame = send_tx(&make_raw_tx(&tx).unwrap()).unwrap();
    let response = handle_message(&st, &mut pool, NOW_MS, &frame);
    assert_eq!(&response[7..], b"ACCEPTED");
    assert_eq!(pool.len(), 1);

    // the next tick includes it and moves the money
    let block = run_produce_tick(&mut st, &mut pool, &mut store, NOW_MS).unwrap();
    assert_eq!(block.header.height, 2);
    assert_eq!(block.header.tx_count, 1);
    assert_eq!(block.body.txs[0].tx_hash, tx.tx_hash);
    assert_eq!(balance(&st, &sender, "GLD"), sender_before - 1010);
    assert_eq!(balance(&st, &recipient, "GLD"), 1000);
    assert_eq!(balance(&st, TREASURY_ADDR, "GLD"), treasury_before + 10);
    assert_eq!(nonce(&st, &sender), 1);
    assert_eq!(pool.len(), 0);
    assert_eq!(store.len(), 1);
    assert_eq!(block_info(&st).unwrap().0, 2);
}

#[test]
fn resubmission_of_same_transaction_is_a_no_op() {
    let mut st = ChainState::new();
    let mut pool = Mempool::new();
    let tx = signed_transfer(0x22, 1000, 10, 1);
    apply_block(&mut st, &funding_block(&tx.from, 5000, 1)).unwrap();
    let frame = send_tx(&make_raw_tx(&tx).unwrap()).unwrap();
    let r1 = handle_message(&st, &mut pool, NOW_MS, &frame);
    assert_eq!(&r1[7..], b"ACCEPTED");
    let r2 = handle_message(&st, &mut pool, NOW_MS, &frame);
    assert_eq!(&r2[7..], b"ACCEPTED");
    assert_eq!(pool.len(), 1);
}

#[test]
fn rejected_transaction_never_reaches_the_pool() {
    let st = ChainState::new();
    let mut pool = Mempool::new();
    let mut tx = signed_transfer(0x23, 1000, 10, 1);
    tx.timestamp = (NOW_MS as u64) - 700_000;
    let raw = make_raw_tx(&tx).unwrap();
    let frame = send_tx(&raw).unwrap();
    let response = handle_message(&st, &mut pool, NOW_MS, &frame);
    assert_eq!(&response[7..], b"timestamp too old");
    assert_eq!(pool.len(), 0);
}

#[test]
fn undecodable_frame_gets_fixed_error_bytes() {
    let st = ChainState::new();
    let mut pool = Mempool::new();
    let response = handle_message(&st, &mut pool, NOW_MS, b"garbage");
    assert_eq!(response, b"ERR");
}

#[test]
fn ask_balance_for_unknown_address_returns_zero() {
    let st = ChainState::new();
    let mut pool = Mempool::new();
    let addr = addr_from_payload(&[0x66; 20]);
    let frame = ask_balance(&addr, "GLD").unwrap();
    let response = handle_message(&st, &mut pool, NOW_MS, &frame);
    assert_eq!(response[4], 4);
    assert_eq!(&response[7..15], &0u64.to_be_bytes());
    assert_eq!(&response[15..], addr.as_bytes());
}

#[test]
fn ask_nonce_round_trip_over_wire() {
    let mut st = ChainState::new();
    let mut pool = Mempool::new();
    apply_block(&mut st, &funding_block(&"c".repeat(56), 100, 1)).unwrap();
    let frame = ask_nonce(TREASURY_ADDR).unwrap();
    let response = handle_message(&st, &mut pool, NOW_MS, &frame);
    assert_eq!(response[4], 6);
    assert_eq!(&response[7..15], &1u64.to_be_bytes());
}

#[test]
fn tick_with_empty_pool_does_nothing() {
    let mut st = ChainState::new();
    let mut pool = Mempool::new();
    let mut store = BlockStore::new();
    assert!(run_produce_tick(&mut st, &mut pool, &mut store, NOW_MS).is_none());
    assert!(block_info(&st).is_none());
    assert_eq!(store.len(), 0);
}

#[test]
fn failing_candidate_block_leaves_everything_untouched() {
    let mut st = ChainState::new();
    let mut pool = Mempool::new();
    let mut store = BlockStore::new();
    // a pooled transaction whose sender has no funds
    let broke = ValidTxCore {
        tx_hash: "aa".repeat(32),
        tx_type: "transfer".to_string(),
        from: "d".repeat(56),
        to: "e".repeat(56),
        token: "GLD".to_string(),
        amount: 1000,
        fee: 10,
        nonce: 1,
        timestamp: NOW_MS as u64,
        pubkey: "02".repeat(33),
        signature: "cd".repeat(65),
    };
    mempool_add_tx(&mut pool, broke);
    assert!(run_produce_tick(&mut st, &mut pool, &mut store, NOW_MS).is_none());
    // the transactions stay eligible for a future block
    assert_eq!(pool.len(), 1);
    assert!(block_info(&st).is_none());
    assert_eq!(store.len(), 0);
}

#[test]
fn tick_caps_a_block_at_twenty_five_transactions() {
    let mut st = ChainState::new();
    let mut pool = Mempool::new();
    let mut store = BlockStore::new();
    for i in 0..30u64 {
        let tx = ValidTxCore {
            tx_hash: format!("{:02x}", i as u8).repeat(32),
            tx_type: "transfer".to_string(),
            from: TREASURY_ADDR.to_string(),
            to: "e".repeat(56),
            token: "GLD".to_string(),
            amount: 100,
            fee: 1 + i,
            nonce: 1 + i,
            timestamp: NOW_MS as u64,
            pubkey: "02".repeat(33),
            signature: "cd".repeat(65),
        };
        mempool_add_tx(&mut pool, tx);
    }
    assert_eq!(pool.len(), 30);
    let block = run_produce_tick(&mut st, &mut pool, &mut store, NOW_MS).unwrap();
    assert_eq!(block.body.txs.len(), 25);
    // the highest-fee transactions were chosen
    assert!(block.body.txs.iter().all(|t| t.fee >= 6));
    assert_eq!(pool.len(), 5);
}

#[test]
fn block_id_and_tx_root_are_plain_strings() {
    let txs = vec![
        ValidTxCore {
            tx_hash: "ab".repeat(32),
            tx_type: "transfer".to_string(),
            from: "a".repeat(56),
            to: "b".repeat(56),
            token: "GLD".to_string(),
            amount: 1,
            fee: 1,
            nonce: 1,
            timestamp: 0,
            pubkey: "02".repeat(33),
            signature: "cd".repeat(65),
        },
        ValidTxCore {
            tx_hash: "cd".repeat(32),
            tx_type: "transfer".to_string(),
            from: "a".repeat(56),
            to: "b".repeat(56),
            token: "GLD".to_string(),
            amount: 1,
            fee: 1,
            nonce: 2,
            timestamp: 0,
            pubkey: "02".repeat(33),
            signature: "cd".repeat(65),
        },
    ];
    let root = make_tx_root_string(&txs);
    assert_eq!(root, format!("{}{}", "ab".repeat(32), "cd".repeat(32)));
    let id = make_block_id_string(3, &root, 1_700_000_000_123);
    assert_eq!(id, format!("blk-3-{}-1700000000123", &root[..16]));
    let short = make_block_id_string(1, "tiny", -5);
    assert_eq!(short, "blk-1-tiny--5");
}

#[test]
fn indexer_storage_lookups() {
    let mut storage = InMemoryStorage::new();
    assert!(get_latest_block(&storage).is_none());

    let tx = ValidTxCore {
        tx_hash: "ee".repeat(32),
        tx_type: "transfer".to_string(),
        from: "a".repeat(56),
        to: "b".repeat(56),
        token: "GLD".to_string(),
        amount: 10,
        fee: 1,
        nonce: 1,
        timestamp: 0,
        pubkey: "02".repeat(33),
        signature: "cd".repeat(65),
    };
    let b1 = Block {
        block_id: "blk-1".to_string(),
        header: BlockHeader {
            version: "0.1".to_string(),
            chain_id: "gld-dev-1".to_string(),
            height: 1,
            prev_hash: "0".repeat(64),
            timestamp_ms: 0,
            tx_count: 1,
            tx_root: String::new(),
        },
        body: BlockBody { txs: vec![tx.clone()] },
    };
    let mut b2 = b1.clone();
    b2.block_id = "blk-2".to_string();
    b2.header.height = 2;
    b2.body.txs.clear();
    b2.header.tx_count = 0;

    store_block(&mut storage, b1.clone());
    store_block(&mut storage, b2.clone());

    assert_eq!(get_block_by_hash(&storage, "blk-1").unwrap(), b1);
    assert!(get_block_by_hash(&storage, "blk-9").is_none());
    assert_eq!(get_latest_block(&storage).unwrap().block_id, "blk-2");

    let by_tx = get_block_by_tx_hash(&storage, &tx.tx_hash).unwrap();
    assert_eq!(by_tx.block_id, "blk-1");
    assert_eq!(by_tx.body.txs.len(), 1);
    assert_eq!(by_tx.body.txs[0].tx_hash, tx.tx_hash);
    assert!(get_block_by_tx_hash(&storage, &"00".repeat(32)).is_none());

    // storing under a known identifier replaces the block
    let mut b1b = b1.clone();
    b1b.header.timestamp_ms = 42;
    store_block(&mut storage, b1b.clone());
    assert_eq!(get_block_by_hash(&storage, "blk-1").unwrap(), b1b);
}
