use forgex_node::codec::make_raw_tx;
use forgex_node::hex::bytes_to_hex;
use forgex_node::tx::Tx;
use forgex_node::validate::{
    basic_prevalidate, build_pipe_v1_string, validate_address, validate_tx,
    verify_address_checksum,
};

use bech32::ToBase32;
use k256::ecdsa::signature::hazmat::PrehashSigner;
use k256::elliptic_curve::sec1::ToEncodedPoint;
use sha2::Digest;

const NOW_MS: i64 = 1_700_000_000_000;

fn addr_from_payload(core20: &[u8]) -> String {
    let mut payload24 = b"gld2".to_vec();
    payload24.extend_from_slice(core20);
    let h = sha2::Sha256::digest(&payload24);
    let mut full28 = payload24.clone();
    full28.extend_from_slice(&h[..4]);
    bech32::encode("gld2", full28.to_base32(), bech32::Variant::Bech32).unwrap()
}

/// Builds a transaction that passes all five validation stages.
fn signed_tx(sk_byte: u8, amount: u64, fee: u64, nonce: u64) -> Tx {
    let sk_bytes = [sk_byte; 32];
    let sk = k256::ecdsa::SigningKey::from_slice(&sk_bytes).unwrap();
    let vk = sk.verifying_key();
    let pk_bytes = vk.to_encoded_point(true).as_bytes().to_vec();
    assert_eq!(pk_bytes.len(), 33);
    let from = addr_from_payload(&pk_bytes[1..21]);
    let to = addr_from_payload(&[0x55u8; 20]);
    let mut tx = Tx {
        tx_hash: String::new(),
        domain_tag: "GLD_TX_v1".to_string(),
        chain_id: "gld-dev-1".to_string(),
        tx_type: "transfer".to_string(),
        from,
        to,
        token: "GLD".to_string(),
        amount,
        fee,
        nonce,
        timestamp: NOW_MS as u64,
        pubkey: bytes_to_hex(&pk_bytes),
        signature: String::new(),
        encoding: "pipe_v1".to_string(),
    };
    let pipe = build_pipe_v1_string(&tx);
    let digest = sha2::Sha256::digest(pipe.as_bytes());
    let sig: k256::ecdsa::Signature = sk.sign_prehash(&digest).unwrap();
    let mut sig65 = sig.to_bytes().to_vec();
    sig65.push(0);
    tx.signature = bytes_to_hex(&sig65);
    let raw = make_raw_tx(&tx).unwrap();
    tx.tx_hash = bytes_to_hex(&sha2::Sha256::digest(&raw));
    tx
}

#[test]
fn valid_signed_tx_passes_all_stages() {
    let tx = signed_tx(0x11, 1000, 10, 1);
    let vt = validate_tx(&tx, NOW_MS).unwrap();
    assert_eq!(vt.tx_hash, tx.tx_hash);
    assert_eq!(vt.from, tx.from);
    assert_eq!(vt.to, tx.to);
    assert_eq!(vt.amount, 1000);
    assert_eq!(vt.fee, 10);
    assert_eq!(vt.nonce, 1);
}

#[test]
fn prevalidate_rejects_each_bad_field() {
    let base = signed_tx(0x11, 1000, 10, 1);

    let mut tx = base.clone();
    tx.domain_tag = "WRONG_TAG".to_string();
    assert_eq!(basic_prevalidate(&tx, NOW_MS).unwrap_err(), "domain_tag must be GLD_TX_v1");

    let mut tx = base.clone();
    tx.chain_id = "gld-dev-2".to_string();
    assert_eq!(basic_prevalidate(&tx, NOW_MS).unwrap_err(), "chain_id must be gld-dev-1");

    let mut tx = base.clone();
    tx.tx_type = "mint".to_string();
    assert_eq!(basic_prevalidate(&tx, NOW_MS).unwrap_err(), "unsupported tx_type");

    let mut tx = base.clone();
    tx.token = "SLV".to_string();
    assert_eq!(
        basic_prevalidate(&tx, NOW_MS).unwrap_err(),
        "unsupported token (only GLD allowed for now)"
    );

    let mut tx = base.clone();
    tx.amount = 0;
    assert_eq!(basic_prevalidate(&tx, NOW_MS).unwrap_err(), "amount must be > 0");

    let mut tx = base.clone();
    tx.fee = 0;
    assert_eq!(basic_prevalidate(&tx, NOW_MS).unwrap_err(), "fee must be > 0");

    let mut tx = base.clone();
    tx.fee = tx.amount + 1;
    assert_eq!(
        basic_prevalidate(&tx, NOW_MS).unwrap_err(),
        "fee cannot be greater than amount"
    );

    let mut tx = base.clone();
    tx.timestamp = (NOW_MS as u64) - 601_000;
    assert_eq!(basic_prevalidate(&tx, NOW_MS).unwrap_err(), "timestamp too old");

    let mut tx = base.clone();
    tx.timestamp = (NOW_MS as u64) + 301_000;
    assert_eq!(
        basic_prevalidate(&tx, NOW_MS).unwrap_err(),
        "timestamp too far in the future"
    );

    let mut tx = base.clone();
    tx.tx_hash = "ab".repeat(16);
    assert_eq!(basic_prevalidate(&tx, NOW_MS).unwrap_err(), "tx_hash must be 64 hex chars");

    assert!(basic_prevalidate(&base, NOW_MS).is_ok());
}

#[test]
fn address_checksum_rules() {
    let good = addr_from_payload(&[0x42; 20]);
    assert_eq!(good.len(), 56);
    assert!(verify_address_checksum(&good).is_ok());
    assert!(validate_address(&good));

    let mut bad = good.clone();
    let flipped = if bad.ends_with('q') { 'p' } else { 'q' };
    bad.pop();
    bad.push(flipped);
    assert_eq!(verify_address_checksum(&bad).unwrap_err(), "invalid bech32 address");
    assert!(!validate_address(&bad));

    // a valid bech32 string under another human-readable part
    let other = bech32::encode("btc1", [1u8; 28].to_base32(), bech32::Variant::Bech32).unwrap();
    assert_eq!(
        verify_address_checksum(&other).unwrap_err(),
        "invalid address prefix (hrp must be gld2)"
    );

    // well-formed bech32 under gld2 whose payload lacks the prefix bytes
    let no_prefix = bech32::encode("gld2", [7u8; 28].to_base32(), bech32::Variant::Bech32).unwrap();
    assert_eq!(
        verify_address_checksum(&no_prefix).unwrap_err(),
        "address prefix bytes mismatch (expected gld2)"
    );

    // prefix right but checksum bytes wrong
    let mut full28 = b"gld2".to_vec();
    full28.extend_from_slice(&[9u8; 24]);
    let bad_checksum =
        bech32::encode("gld2", full28.to_base32(), bech32::Variant::Bech32).unwrap();
    assert_eq!(
        verify_address_checksum(&bad_checksum).unwrap_err(),
        "invalid address checksum"
    );
}

#[test]
fn hash_binding_rejects_mismatch() {
    let mut tx = signed_tx(0x11, 1000, 10, 1);
    tx.tx_hash = "00".repeat(32);
    assert_eq!(validate_tx(&tx, NOW_MS).unwrap_err(), "tx_hash mismatch");
}

#[test]
fn address_key_binding_rejects_foreign_sender() {
    let mut tx = signed_tx(0x11, 1000, 10, 1);
    // a checksum-valid address that does not belong to the signing key
    tx.from = addr_from_payload(&[0x77; 20]);
    let raw = make_raw_tx(&tx).unwrap();
    tx.tx_hash = bytes_to_hex(&sha2::Sha256::digest(&raw));
    assert_eq!(validate_tx(&tx, NOW_MS).unwrap_err(), "address does not match pubkey");
}

#[test]
fn signature_rejects_tampered_amount() {
    let mut tx = signed_tx(0x11, 1000, 10, 1);
    tx.amount = 2000;
    tx.fee = 10;
    let raw = make_raw_tx(&tx).unwrap();
    tx.tx_hash = bytes_to_hex(&sha2::Sha256::digest(&raw));
    assert_eq!(validate_tx(&tx, NOW_MS).unwrap_err(), "signature verification failed");
}

#[test]
fn signature_rejects_garbage_rs() {
    let mut tx = signed_tx(0x11, 1000, 10, 1);
    // all-zero (r, s) is not a well-formed signature
    tx.signature = "00".repeat(65);
    let raw = make_raw_tx(&tx).unwrap();
    tx.tx_hash = bytes_to_hex(&sha2::Sha256::digest(&raw));
    assert_eq!(validate_tx(&tx, NOW_MS).unwrap_err(), "invalid r,s signature");
}

#[test]
fn pipe_string_concatenates_fields() {
    let tx = signed_tx(0x11, 1000, 10, 1);
    let pipe = build_pipe_v1_string(&tx);
    let expected = format!(
        "{}{}{}{}{}{}{}{}{}{}",
        tx.domain_tag,
        tx.chain_id,
        tx.tx_type,
        tx.from,
        tx.to,
        tx.token,
        tx.amount,
        tx.fee,
        tx.nonce,
        tx.timestamp
    );
    assert_eq!(pipe, expected);
}
