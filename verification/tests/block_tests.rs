use forgex_node::block::{Block, BlockBody, BlockHeader, BlockStore};
use forgex_node::blockcodec::{
    decode_block_raw, decode_tx_from_block, decode_tx_type, encode_block_raw, encode_tx_for_block,
    encode_tx_type,
};
use forgex_node::tx::ValidTxCore;

fn sample_valid_tx(nonce: u64, fee: u64) -> ValidTxCore {
    ValidTxCore {
        tx_hash: format!("{:02x}", nonce as u8).repeat(32),
        tx_type: "transfer".to_string(),
        from: "a".repeat(56),
        to: "b".repeat(56),
        token: "GLD".to_string(),
        amount: 1000,
        fee,
        nonce,
        timestamp: 1_700_000_000_000,
        pubkey: "02".repeat(33),
        signature: "cd".repeat(65),
    }
}

fn sample_block() -> Block {
    let txs = vec![sample_valid_tx(1, 10), sample_valid_tx(2, 20)];
    Block {
        block_id: "blk-1-abc-1700000000000".to_string(),
        header: BlockHeader {
            version: "0.1".to_string(),
            chain_id: "gld-dev-1".to_string(),
            height: 1,
            prev_hash: "0".repeat(64),
            timestamp_ms: 1_700_000_000_123,
            tx_count: 2,
            tx_root: "11".repeat(32),
        },
        body: BlockBody { txs },
    }
}

#[test]
fn tx_type_codes() {
    assert_eq!(encode_tx_type("transfer").unwrap(), 1);
    assert_eq!(encode_tx_type("mint").unwrap_err(), "unknown tx_type");
    assert_eq!(decode_tx_type(1).unwrap(), "transfer");
    assert_eq!(decode_tx_type(2).unwrap_err(), "unknown tx_type code");
}

#[test]
fn block_tx_round_trip() {
    let tx = sample_valid_tx(5, 50);
    let bytes = encode_tx_for_block(&tx).unwrap();
    assert_eq!(bytes.len(), 32 + 1 + (2 + 56) + (2 + 56) + (2 + 3) + 32 + 33 + 65);
    let back = decode_tx_from_block(&bytes).unwrap();
    assert_eq!(back, tx);
}

#[test]
fn block_tx_encode_rejects_bad_fields() {
    let mut tx = sample_valid_tx(1, 1);
    tx.tx_hash = "00".repeat(31);
    assert_eq!(encode_tx_for_block(&tx).unwrap_err(), "tx_hash must be 32 bytes");
    let mut tx = sample_valid_tx(1, 1);
    tx.tx_type = "mint".to_string();
    assert_eq!(encode_tx_for_block(&tx).unwrap_err(), "unknown tx_type");
    let mut tx = sample_valid_tx(1, 1);
    tx.signature = "cd".repeat(64);
    assert_eq!(encode_tx_for_block(&tx).unwrap_err(), "signature must be 65 bytes");
}

#[test]
fn block_round_trip() {
    let block = sample_block();
    let raw = encode_block_raw(&block).unwrap();
    assert_eq!(&raw[0..4], b"FGX1");
    assert_eq!(raw[4], 7);
    let payload_len = u32::from_be_bytes([raw[5], raw[6], raw[7], raw[8]]) as usize;
    assert_eq!(raw.len(), 9 + payload_len);
    let back = decode_block_raw(&raw).unwrap();
    assert_eq!(back, block);
}

#[test]
fn block_round_trip_empty_body() {
    let mut block = sample_block();
    block.body.txs.clear();
    block.header.tx_count = 0;
    let raw = encode_block_raw(&block).unwrap();
    let back = decode_block_raw(&raw).unwrap();
    assert_eq!(back, block);
}

#[test]
fn block_encode_rejects_count_mismatch() {
    let mut block = sample_block();
    block.header.tx_count = 3;
    assert_eq!(
        encode_block_raw(&block).unwrap_err(),
        "tx_count in header does not match body"
    );
}

#[test]
fn block_decode_rejects_bad_frames() {
    assert_eq!(decode_block_raw(b"FGX1").unwrap_err(), "data too short for FGX1 header");
    let mut raw = encode_block_raw(&sample_block()).unwrap();
    raw[0] = b'Y';
    assert_eq!(decode_block_raw(&raw).unwrap_err(), "invalid magic");
    let mut raw = encode_block_raw(&sample_block()).unwrap();
    raw[4] = 1;
    assert_eq!(decode_block_raw(&raw).unwrap_err(), "unexpected msg_type");
    let mut raw = encode_block_raw(&sample_block()).unwrap();
    raw.truncate(raw.len() - 1);
    assert_eq!(decode_block_raw(&raw).unwrap_err(), "payload_len out of range");
}

#[test]
fn block_decode_ignores_trailing_bytes() {
    let block = sample_block();
    let mut raw = encode_block_raw(&block).unwrap();
    raw.extend_from_slice(b"junk");
    let back = decode_block_raw(&raw).unwrap();
    assert_eq!(back, block);
}

#[test]
fn block_store_saves_and_returns_last() {
    let mut store = BlockStore::new();
    assert!(store.last_block().is_none());
    assert_eq!(store.len(), 0);
    let block = sample_block();
    store.save_block(block.duplicate());
    assert_eq!(store.len(), 1);
    let last = store.last_block().unwrap();
    assert_eq!(last, block);
}
