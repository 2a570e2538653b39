use forgex_node::block::{Block, BlockBody, BlockHeader};
use forgex_node::state::{
    apply_block, balance, block_info, nonce, ChainState, TREASURY_ADDR, TREASURY_INITIAL_GLD,
};
use forgex_node::tx::ValidTxCore;

fn transfer(from: &str, to: &str, amount: u64, fee: u64, nonce: u64, hash_byte: u8) -> ValidTxCore {
    ValidTxCore {
        tx_hash: format!("{:02x}", hash_byte).repeat(32),
        tx_type: "transfer".to_string(),
        from: from.to_string(),
        to: to.to_string(),
        token: "GLD".to_string(),
        amount,
        fee,
        nonce,
        timestamp: 1_700_000_000_000,
        pubkey: "02".repeat(33),
        signature: "cd".repeat(65),
    }
}

fn block_of(txs: Vec<ValidTxCore>, height: u64, id: &str) -> Block {
    let count = txs.len() as u32;
    Block {
        block_id: id.to_string(),
        header: BlockHeader {
            version: "0.1".to_string(),
            chain_id: "gld-dev-1".to_string(),
            height,
            prev_hash: "0".repeat(64),
            timestamp_ms: 1_700_000_000_000,
            tx_count: count,
            tx_root: String::new(),
        },
        body: BlockBody { txs },
    }
}

fn alice() -> String {
    "a".repeat(56)
}

fn bob() -> String {
    "b".repeat(56)
}

#[test]
fn genesis_state() {
    let st = ChainState::new();
    assert_eq!(balance(&st, TREASURY_ADDR, "GLD"), TREASURY_INITIAL_GLD);
    assert_eq!(balance(&st, &alice(), "GLD"), 0);
    assert_eq!(nonce(&st, &alice()), 0);
    assert!(block_info(&st).is_none());
}

#[test]
fn apply_moves_amount_fee_and_nonce() {
    let mut st = ChainState::new();
    let tx = transfer(TREASURY_ADDR, &alice(), 1000, 10, 1, 1);
    let block = block_of(vec![tx], 1, "blk-1");
    apply_block(&mut st, &block).unwrap();
    // the sender is debited amount + fee; the fee returns to the treasury
    assert_eq!(balance(&st, TREASURY_ADDR, "GLD"), TREASURY_INITIAL_GLD - 1000);
    assert_eq!(balance(&st, &alice(), "GLD"), 1000);
    assert_eq!(nonce(&st, TREASURY_ADDR), 1);
    let (height, id) = block_info(&st).unwrap();
    assert_eq!(height, 1);
    assert_eq!(id, "blk-1");
}

#[test]
fn token_total_is_conserved() {
    let mut st = ChainState::new();
    let b1 = block_of(vec![transfer(TREASURY_ADDR, &alice(), 5000, 50, 1, 1)], 1, "blk-1");
    apply_block(&mut st, &b1).unwrap();
    let b2 = block_of(vec![transfer(&alice(), &bob(), 1000, 10, 1, 2)], 2, "blk-2");
    apply_block(&mut st, &b2).unwrap();
    let total = balance(&st, TREASURY_ADDR, "GLD") + balance(&st, &alice(), "GLD")
        + balance(&st, &bob(), "GLD");
    assert_eq!(total, TREASURY_INITIAL_GLD);
}

#[test]
fn insufficient_balance_leaves_state_untouched() {
    let mut st = ChainState::new();
    let funding = block_of(vec![transfer(TREASURY_ADDR, &alice(), 500, 5, 1, 1)], 1, "blk-1");
    apply_block(&mut st, &funding).unwrap();
    let treasury_before = balance(&st, TREASURY_ADDR, "GLD");
    let alice_before = balance(&st, &alice(), "GLD");
    // alice holds 500 and cannot pay 600 + 6
    let bad = block_of(
        vec![
            transfer(&alice(), &bob(), 100, 1, 2, 2),
            transfer(&alice(), &bob(), 600, 6, 3, 3),
        ],
        2,
        "blk-2",
    );
    let err = apply_block(&mut st, &bad).unwrap_err();
    assert_eq!(err, "insufficient balance");
    // no partial mutation: even the first transaction left no trace
    assert_eq!(balance(&st, TREASURY_ADDR, "GLD"), treasury_before);
    assert_eq!(balance(&st, &alice(), "GLD"), alice_before);
    assert_eq!(balance(&st, &bob(), "GLD"), 0);
    assert_eq!(nonce(&st, &alice()), 0);
    let (height, id) = block_info(&st).unwrap();
    assert_eq!((height, id.as_str()), (1, "blk-1"));
}

#[test]
fn overflow_on_debit_is_rejected() {
    let mut st = ChainState::new();
    let bad = block_of(vec![transfer(TREASURY_ADDR, &alice(), u64::MAX, 1, 1, 1)], 1, "blk-1");
    assert_eq!(apply_block(&mut st, &bad).unwrap_err(), "overflow on amount+fee");
    assert_eq!(balance(&st, TREASURY_ADDR, "GLD"), TREASURY_INITIAL_GLD);
}

#[test]
fn non_transfer_transactions_are_skipped() {
    let mut st = ChainState::new();
    let mut odd = transfer(TREASURY_ADDR, &alice(), 1000, 10, 1, 1);
    odd.tx_type = "unknown".to_string();
    let block = block_of(vec![odd], 1, "blk-1");
    apply_block(&mut st, &block).unwrap();
    assert_eq!(balance(&st, TREASURY_ADDR, "GLD"), TREASURY_INITIAL_GLD);
    assert_eq!(balance(&st, &alice(), "GLD"), 0);
    // the block pointer still advances
    assert_eq!(block_info(&st).unwrap().0, 1);
}

#[test]
fn zero_amount_transfer_touches_only_nonce() {
    let mut st = ChainState::new();
    // amount 0, fee 0: total debit 0 is covered even by an empty account
    let block = block_of(vec![transfer(&alice(), &bob(), 0, 0, 4, 1)], 1, "blk-1");
    apply_block(&mut st, &block).unwrap();
    assert_eq!(balance(&st, &alice(), "GLD"), 0);
    assert_eq!(balance(&st, &bob(), "GLD"), 0);
    assert_eq!(nonce(&st, &alice()), 4);
}

#[test]
fn balances_are_per_token() {
    let mut st = ChainState::new();
    let mut tx = transfer(TREASURY_ADDR, &alice(), 100, 1, 1, 1);
    tx.token = "SLV".to_string();
    let block = block_of(vec![tx], 1, "blk-1");
    // the treasury holds no SLV
    assert_eq!(apply_block(&mut st, &block).unwrap_err(), "insufficient balance");
    assert_eq!(balance(&st, TREASURY_ADDR, "GLD"), TREASURY_INITIAL_GLD);
    assert_eq!(balance(&st, TREASURY_ADDR, "SLV"), 0);
}
