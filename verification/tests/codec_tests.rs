use forgex_node::codec::{
    ask_balance, ask_nonce, decode_message, make_balance_response, make_nonce_response,
    make_raw_tx, make_tx_reject_response, make_tx_response, parse_raw_tx, send_tx, Decoded,
};
use forgex_node::hex::{bytes_to_hex, hex_to_bytes, hex_val};
use forgex_node::strutil::{i64_to_dec, str_eq, u64_to_dec};
use forgex_node::tx::Tx;

use bech32::ToBase32;
use sha2::Digest;

fn sample_addr(tag: u8) -> String {
    let mut payload24 = b"gld2".to_vec();
    payload24.extend(std::iter::repeat(tag).take(20));
    let h = sha2::Sha256::digest(&payload24);
    let mut full28 = payload24.clone();
    full28.extend_from_slice(&h[..4]);
    bech32::encode("gld2", full28.to_base32(), bech32::Variant::Bech32).unwrap()
}

fn sample_tx() -> Tx {
    Tx {
        tx_hash: String::new(),
        domain_tag: "GLD_TX_v1".to_string(),
        chain_id: "gld-dev-1".to_string(),
        tx_type: "transfer".to_string(),
        from: sample_addr(7),
        to: sample_addr(9),
        token: "GLD".to_string(),
        amount: 1000,
        fee: 10,
        nonce: 1,
        timestamp: 1_700_000_000_000,
        pubkey: "02".repeat(33),
        signature: "ab".repeat(65),
        encoding: "pipe_v1".to_string(),
    }
}

#[test]
fn raw_tx_encodes_to_269_bytes() {
    let tx = sample_tx();
    let raw = make_raw_tx(&tx).unwrap();
    assert_eq!(raw.len(), 269);
    assert_eq!(&raw[0..9], b"GLD_TX_v1");
    assert_eq!(&raw[9..18], b"gld-dev-1");
    assert_eq!(raw[18], 1);
    assert_eq!(raw[131], 1);
    assert_eq!(&raw[132..140], &1000u64.to_be_bytes());
    assert_eq!(&raw[140..148], &10u64.to_be_bytes());
    assert_eq!(&raw[262..269], b"pipe_v1");
}

#[test]
fn raw_tx_round_trip() {
    let tx = sample_tx();
    let raw = make_raw_tx(&tx).unwrap();
    let back = parse_raw_tx(&raw).unwrap();
    assert_eq!(back.tx_hash, "");
    assert_eq!(back.domain_tag, tx.domain_tag);
    assert_eq!(back.chain_id, tx.chain_id);
    assert_eq!(back.tx_type, tx.tx_type);
    assert_eq!(back.from, tx.from);
    assert_eq!(back.to, tx.to);
    assert_eq!(back.token, tx.token);
    assert_eq!(back.amount, tx.amount);
    assert_eq!(back.fee, tx.fee);
    assert_eq!(back.nonce, tx.nonce);
    assert_eq!(back.timestamp, tx.timestamp);
    assert_eq!(back.pubkey, tx.pubkey);
    assert_eq!(back.signature, tx.signature);
    assert_eq!(back.encoding, tx.encoding);
}

#[test]
fn raw_tx_rejects_wrong_length() {
    let err = parse_raw_tx(&[0u8; 100]).unwrap_err();
    assert_eq!(err, "raw_tx must be 269 bytes");
}

#[test]
fn make_raw_tx_rejects_bad_fields() {
    let mut tx = sample_tx();
    tx.domain_tag = "short".to_string();
    assert_eq!(make_raw_tx(&tx).unwrap_err(), "domain_tag must be 9 bytes");
    let mut tx = sample_tx();
    tx.pubkey = "zz".repeat(33);
    assert_eq!(make_raw_tx(&tx).unwrap_err(), "invalid hex char");
    let mut tx = sample_tx();
    tx.pubkey = "02".repeat(32);
    assert_eq!(make_raw_tx(&tx).unwrap_err(), "pubkey must be 33 bytes");
}

fn send_tx_frame(tx: &Tx) -> Vec<u8> {
    let raw = make_raw_tx(tx).unwrap();
    send_tx(&raw).unwrap()
}

#[test]
fn decode_message_send_tx() {
    let tx = sample_tx();
    let raw = make_raw_tx(&tx).unwrap();
    let frame = send_tx_frame(&tx);
    assert_eq!(frame.len(), 308);
    assert_eq!(&frame[0..4], b"FGX1");
    assert_eq!(frame[4], 1);
    assert_eq!(u16::from_be_bytes([frame[5], frame[6]]), 301);
    match decode_message(&frame).unwrap() {
        Decoded::Tx(parsed) => {
            let expected_hash = bytes_to_hex(&sha2::Sha256::digest(&raw));
            assert_eq!(parsed.tx_hash, expected_hash);
            assert_eq!(parsed.from, tx.from);
            assert_eq!(parsed.amount, 1000);
        },
        _ => panic!("expected a transaction"),
    }
}

#[test]
fn decode_message_rejects_bad_frames() {
    assert_eq!(decode_message(b"FGX1").unwrap_err(), "too short");
    let mut frame = send_tx_frame(&sample_tx());
    frame[0] = b'X';
    assert_eq!(decode_message(&frame).unwrap_err(), "invalid magic");
    let mut frame = send_tx_frame(&sample_tx());
    frame[4] = 9;
    assert_eq!(decode_message(&frame).unwrap_err(), "unsupported msg type");
    let mut frame = send_tx_frame(&sample_tx());
    frame.push(0);
    assert_eq!(decode_message(&frame).unwrap_err(), "wrong length");
}

#[test]
fn decode_message_ask_balance_and_nonce() {
    let addr = sample_addr(3);
    let frame = ask_balance(&addr, "GLD").unwrap();
    assert_eq!(frame.len(), 7 + 59);
    assert_eq!(frame[4], 3);
    match decode_message(&frame).unwrap() {
        Decoded::AskBalance(a, t) => {
            assert_eq!(a, addr);
            assert_eq!(t, "GLD");
        },
        _ => panic!("expected a balance query"),
    }
    let frame = ask_nonce(&addr).unwrap();
    assert_eq!(frame.len(), 7 + 56);
    assert_eq!(frame[4], 5);
    match decode_message(&frame).unwrap() {
        Decoded::AskNonce(a) => assert_eq!(a, addr),
        _ => panic!("expected a nonce query"),
    }
}

#[test]
fn ask_builders_reject_bad_addresses() {
    assert_eq!(ask_nonce("short").unwrap_err(), "address must be 56 bytes utf-8");
    assert_eq!(
        ask_balance(&sample_addr(1), "GOLD").unwrap_err(),
        "token must be 3 bytes utf-8"
    );
}

#[test]
fn response_frames_have_exact_layout() {
    let r = make_tx_response();
    assert_eq!(&r[0..4], b"FGX1");
    assert_eq!(r[4], 2);
    assert_eq!(u16::from_be_bytes([r[5], r[6]]), 8);
    assert_eq!(&r[7..], b"ACCEPTED");

    let r = make_tx_reject_response("nope");
    assert_eq!(r[4], 2);
    assert_eq!(&r[7..], b"nope");

    let addr = sample_addr(4);
    let r = make_balance_response(12345, &addr);
    assert_eq!(r[4], 4);
    assert_eq!(u16::from_be_bytes([r[5], r[6]]), 64);
    assert_eq!(&r[7..15], &12345u64.to_be_bytes());
    assert_eq!(&r[15..], addr.as_bytes());

    let r = make_nonce_response(7, &addr);
    assert_eq!(r[4], 6);
    assert_eq!(&r[7..15], &7u64.to_be_bytes());
}

#[test]
fn hex_round_trips() {
    let bytes = vec![0u8, 1, 15, 16, 127, 128, 255];
    let hexed = bytes_to_hex(&bytes);
    assert_eq!(hexed, "00010f107f80ff");
    assert_eq!(hex_to_bytes(&hexed).unwrap(), bytes);
    assert_eq!(hex_to_bytes("ABCDEF").unwrap(), vec![0xab, 0xcd, 0xef]);
    assert_eq!(hex_to_bytes("abc").unwrap_err(), "hex string has odd length");
    assert_eq!(hex_to_bytes("zz").unwrap_err(), "invalid hex char");
    assert_eq!(hex_val('a'), Some(10));
    assert_eq!(hex_val('F'), Some(15));
    assert_eq!(hex_val('g'), None);
}

#[test]
fn decimal_rendering() {
    assert_eq!(u64_to_dec(0), "0");
    assert_eq!(u64_to_dec(1234567890), "1234567890");
    assert_eq!(u64_to_dec(u64::MAX), "18446744073709551615");
    assert_eq!(i64_to_dec(-42), "-42");
    assert_eq!(i64_to_dec(i64::MIN), "-9223372036854775808");
    assert_eq!(i64_to_dec(7), "7");
}

#[test]
fn string_helpers() {
    assert!(str_eq("abc", "abc"));
    assert!(!str_eq("abc", "abd"));
    assert!(!str_eq("abc", "ab"));
    // a raw transaction whose sender field is not UTF-8 is rejected at decode
    let tx = sample_tx();
    let mut raw = forgex_node::codec::make_raw_tx(&tx).unwrap();
    raw[20] = 0xff;
    assert_eq!(forgex_node::codec::parse_raw_tx(&raw).unwrap_err(), "invalid utf-8 in from");
}
