//! The transaction validation pipeline: five ordered stages, each with an
//! exact specification, short-circuiting on the first failure.

use vstd::prelude::*;
use vstd::utf8::encode_utf8;

use crate::codec::{
    make_raw_tx, raw_tx_encodable, spec_make_raw_tx_err, spec_raw_tx_bytes,
};
use crate::crypto::{
    bech32_decode, bech32_encode, ecdsa_verify_prehash, sha256, spec_bech32_decode,
    spec_bech32_encode, spec_ecdsa_verifies, spec_rs_signature_ok, spec_sec1_pubkey_ok,
    spec_sha256, SigFailure,
};
use crate::hex::{
    bytes_to_hex, hex_to_bytes, spec_hex_decode, spec_hex_err, spec_hex_of,
};
use crate::strutil::{spec_dec_of, str_eq, u64_to_dec};
use crate::tx::{spec_core_of, return_structured_tx, Tx, TxView, ValidTxCore};

verus! {

/// How far in the past a transaction timestamp may lie, in milliseconds.
pub const MAX_TX_AGE_MS: i64 = 600_000;

/// How far in the future a transaction timestamp may lie, in milliseconds.
pub const MAX_TX_FUTURE_MS: i64 = 300_000;

/// The structural pre-check, stage one: field shapes, the fixed protocol
/// constants, positive amounts, and a timestamp within the window around
/// `now_ms`.  Yields the exact rejection text of the first failing check.
pub open spec fn spec_prevalidate(v: TxView, now_ms: i64) -> Result<(), Seq<char>> {
    if encode_utf8(v.tx_hash).len() == 0 {
        Err("tx_hash is empty"@)
    } else if encode_utf8(v.tx_hash).len() != 64 {
        Err("tx_hash must be 64 hex chars"@)
    } else if encode_utf8(v.domain_tag).len() == 0 {
        Err("domain_tag is empty"@)
    } else if v.domain_tag != "GLD_TX_v1"@ {
        Err("domain_tag must be GLD_TX_v1"@)
    } else if encode_utf8(v.chain_id).len() == 0 {
        Err("chain_id is empty"@)
    } else if v.chain_id != "gld-dev-1"@ {
        Err("chain_id must be gld-dev-1"@)
    } else if encode_utf8(v.tx_type).len() == 0 {
        Err("tx_type is empty"@)
    } else if v.tx_type != "transfer"@ {
        Err("unsupported tx_type"@)
    } else if encode_utf8(v.from).len() == 0 {
        Err("from address is empty"@)
    } else if encode_utf8(v.to).len() == 0 {
        Err("to address is empty"@)
    } else if encode_utf8(v.from).len() != 56 {
        Err("from address must be 56 chars"@)
    } else if encode_utf8(v.to).len() != 56 {
        Err("to address must be 56 chars"@)
    } else if encode_utf8(v.token).len() == 0 {
        Err("token is empty"@)
    } else if v.token != "GLD"@ {
        Err("unsupported token (only GLD allowed for now)"@)
    } else if v.amount == 0 {
        Err("amount must be > 0"@)
    } else if v.fee == 0 {
        Err("fee must be > 0"@)
    } else if v.fee > v.amount {
        Err("fee cannot be greater than amount"@)
    } else if (v.timestamp as i64) < now_ms - MAX_TX_AGE_MS {
        Err("timestamp too old"@)
    } else if (v.timestamp as i64) > now_ms + MAX_TX_FUTURE_MS {
        Err("timestamp too far in the future"@)
    } else if encode_utf8(v.pubkey).len() == 0 {
        Err("pubkey is empty"@)
    } else if encode_utf8(v.pubkey).len() != 66 {
        Err("pubkey must be 33 bytes (66 hex chars)"@)
    } else if encode_utf8(v.signature).len() == 0 {
        Err("signature is empty"@)
    } else if encode_utf8(v.signature).len() != 130 {
        Err("signature must be 65 bytes (130 hex chars)"@)
    } else if encode_utf8(v.encoding).len() == 0 {
        Err("encoding is empty"@)
    } else if v.encoding != "pipe_v1"@ {
        Err("encoding must be pipe_v1"@)
    } else {
        Ok(())
    }
}

/// The four bytes of the address prefix, `gld2` in ASCII.
pub open spec fn spec_addr_prefix_bytes() -> Seq<u8> {
    seq![0x67u8, 0x6cu8, 0x64u8, 0x32u8]
}

/// The address checksum check, stage two: the string must decode as
/// bech32 with human-readable part `gld2`, carry at least 28 payload
/// bytes opening with the literal prefix bytes, and close with the
/// first four bytes of the SHA-256 of its first 24 bytes.
pub open spec fn spec_addr_check(addr: Seq<char>) -> Result<(), Seq<char>> {
    match spec_bech32_decode(addr) {
        None => Err("invalid bech32 address"@),
        Some((hrp, bytes)) => {
            if hrp != "gld2"@ {
                Err("invalid address prefix (hrp must be gld2)"@)
            } else if bytes.len() < 28 {
                Err("invalid raw address length"@)
            } else if bytes.subrange(0, 4) != spec_addr_prefix_bytes() {
                Err("address prefix bytes mismatch (expected gld2)"@)
            } else if spec_sha256(bytes.subrange(0, 24)).subrange(0, 4) != bytes.subrange(
                24,
                28,
            ) {
                Err("invalid address checksum"@)
            } else {
                Ok(())
            }
        },
    }
}

/// The hash binding check, stage three: the canonical raw encoding of
/// the fields must rebuild, and its SHA-256, in lowercase hex, must
/// equal the declared hash.
pub open spec fn spec_tx_hash_check(v: TxView) -> Result<(), Seq<char>> {
    if !raw_tx_encodable(v) {
        Err(spec_make_raw_tx_err(v))
    } else if spec_hex_of(spec_sha256(spec_raw_tx_bytes(v))) != v.tx_hash {
        Err("tx_hash mismatch"@)
    } else {
        Ok(())
    }
}

/// The address derived from a 33-byte public key: bytes one to twenty
/// behind the prefix bytes, hashed, the hash's first four bytes
/// appended, the 28 bytes bech32-encoded under `gld2`.
pub open spec fn spec_derived_addr(pk: Seq<u8>) -> Option<Seq<char>>
    recommends
        pk.len() == 33,
{
    let payload24 = spec_addr_prefix_bytes() + pk.subrange(1, 21);
    let full28 = payload24 + spec_sha256(payload24).subrange(0, 4);
    spec_bech32_encode("gld2"@, full28)
}

/// The address-to-key binding check, stage four: the address derived
/// from the public key must equal the sender address.
pub open spec fn spec_addr_key_check(v: TxView) -> Result<(), Seq<char>> {
    match spec_hex_decode(v.pubkey) {
        None => Err(spec_hex_err(v.pubkey)),
        Some(pk) => {
            if pk.len() != 33 {
                Err("pubkey must be 33 bytes"@)
            } else {
                match spec_derived_addr(pk) {
                    None => Err("failed to encode bech32 address"@),
                    Some(addr) => {
                        if addr != v.from {
                            Err("address does not match pubkey"@)
                        } else {
                            Ok(())
                        }
                    },
                }
            }
        },
    }
}

/// The canonical signing string: the concatenation of the protocol
/// constants, the addresses, the token and the decimal forms of the
/// numeric fields.
pub open spec fn spec_pipe_v1(v: TxView) -> Seq<char> {
    v.domain_tag + v.chain_id + v.tx_type + v.from + v.to + v.token + spec_dec_of(
        v.amount as nat,
    ) + spec_dec_of(v.fee as nat) + spec_dec_of(v.nonce as nat) + spec_dec_of(v.timestamp as nat)
}

/// The signature check, stage five: the 64-byte (r, s) component of the
/// signature must verify for the declared public key over the SHA-256 of
/// the signing string; the trailing recovery byte is ignored.
pub open spec fn spec_sig_check(v: TxView) -> Result<(), Seq<char>> {
    match spec_hex_decode(v.pubkey) {
        None => Err(spec_hex_err(v.pubkey)),
        Some(pk) => match spec_hex_decode(v.signature) {
            None => Err(spec_hex_err(v.signature)),
            Some(sig) => {
                if pk.len() != 33 {
                    Err("pubkey must be 33 bytes"@)
                } else if sig.len() != 65 {
                    Err("signature must be 65 bytes"@)
                } else {
                    let rs = sig.subrange(0, 64);
                    let digest = spec_sha256(encode_utf8(spec_pipe_v1(v)));
                    if !spec_rs_signature_ok(rs) {
                        Err("invalid r,s signature"@)
                    } else if !spec_sec1_pubkey_ok(pk) {
                        Err("invalid pubkey"@)
                    } else if !spec_ecdsa_verifies(pk, digest, rs) {
                        Err("signature verification failed"@)
                    } else {
                        Ok(())
                    }
                }
            },
        },
    }
}

/// The whole pipeline: the five stages in order, stopping at the first
/// failure.
pub open spec fn spec_validate(v: TxView, now_ms: i64) -> Result<(), Seq<char>> {
    match spec_prevalidate(v, now_ms) {
        Err(e) => Err(e),
        Ok(_) => match spec_addr_check(v.from) {
            Err(e) => Err(e),
            Ok(_) => match spec_addr_check(v.to) {
                Err(e) => Err(e),
                Ok(_) => match spec_tx_hash_check(v) {
                    Err(e) => Err(e),
                    Ok(_) => match spec_addr_key_check(v) {
                        Err(e) => Err(e),
                        Ok(_) => spec_sig_check(v),
                    },
                },
            },
        },
    }
}

/// Stage one as executable code; see [`spec_prevalidate`].
pub fn basic_prevalidate(tx: &Tx, now_ms: i64) -> (r: Result<(), String>)
    ensures
        match (r, spec_prevalidate(tx@, now_ms)) {
            (Ok(_), Ok(_)) => true,
            (Err(e), Err(me)) => e@ == me,
            _ => false,
        },
{
    if tx.tx_hash.as_str().as_bytes().len() == 0 {
        return Err(String::from_str("tx_hash is empty"));
    }
    if tx.tx_hash.as_str().as_bytes().len() != 64 {
        return Err(String::from_str("tx_hash must be 64 hex chars"));
    }
    if tx.domain_tag.as_str().as_bytes().len() == 0 {
        return Err(String::from_str("domain_tag is empty"));
    }
    if !str_eq(tx.domain_tag.as_str(), "GLD_TX_v1") {
        return Err(String::from_str("domain_tag must be GLD_TX_v1"));
    }
    if tx.chain_id.as_str().as_bytes().len() == 0 {
        return Err(String::from_str("chain_id is empty"));
    }
    if !str_eq(tx.chain_id.as_str(), "gld-dev-1") {
        return Err(String::from_str("chain_id must be gld-dev-1"));
    }
    if tx.tx_type.as_str().as_bytes().len() == 0 {
        return Err(String::from_str("tx_type is empty"));
    }
    if !str_eq(tx.tx_type.as_str(), "transfer") {
        return Err(String::from_str("unsupported tx_type"));
    }
    if tx.from.as_str().as_bytes().len() == 0 {
        return Err(String::from_str("from address is empty"));
    }
    if tx.to.as_str().as_bytes().len() == 0 {
        return Err(String::from_str("to address is empty"));
    }
    if tx.from.as_str().as_bytes().len() != 56 {
        return Err(String::from_str("from address must be 56 chars"));
    }
    if tx.to.as_str().as_bytes().len() != 56 {
        return Err(String::from_str("to address must be 56 chars"));
    }
    if tx.token.as_str().as_bytes().len() == 0 {
        return Err(String::from_str("token is empty"));
    }
    if !str_eq(tx.token.as_str(), "GLD") {
        return Err(String::from_str("unsupported token (only GLD allowed for now)"));
    }
    if tx.amount == 0 {
        return Err(String::from_str("amount must be > 0"));
    }
    if tx.fee == 0 {
        return Err(String::from_str("fee must be > 0"));
    }
    if tx.fee > tx.amount {
        return Err(String::from_str("fee cannot be greater than amount"));
    }
    let tx_ts: i128 = (tx.timestamp as i64) as i128;
    if tx_ts < (now_ms as i128) - (MAX_TX_AGE_MS as i128) {
        return Err(String::from_str("timestamp too old"));
    }
    if tx_ts > (now_ms as i128) + (MAX_TX_FUTURE_MS as i128) {
        return Err(String::from_str("timestamp too far in the future"));
    }
    if tx.pubkey.as_str().as_bytes().len() == 0 {
        return Err(String::from_str("pubkey is empty"));
    }
    if tx.pubkey.as_str().as_bytes().len() != 66 {
        return Err(String::from_str("pubkey must be 33 bytes (66 hex chars)"));
    }
    if tx.signature.as_str().as_bytes().len() == 0 {
        return Err(String::from_str("signature is empty"));
    }
    if tx.signature.as_str().as_bytes().len() != 130 {
        return Err(String::from_str("signature must be 65 bytes (130 hex chars)"));
    }
    if tx.encoding.as_str().as_bytes().len() == 0 {
        return Err(String::from_str("encoding is empty"));
    }
    if !str_eq(tx.encoding.as_str(), "pipe_v1") {
        return Err(String::from_str("encoding must be pipe_v1"));
    }
    Ok(())
}

/// Stage two as executable code; see [`spec_addr_check`].
pub fn verify_address_checksum(addr: &str) -> (r: Result<(), String>)
    ensures
        match (r, spec_addr_check(addr@)) {
            (Ok(_), Ok(_)) => true,
            (Err(e), Err(me)) => e@ == me,
            _ => false,
        },
{
    let (hrp, full_bytes) = match bech32_decode(addr) {
        Some(p) => p,
        None => {
            return Err(String::from_str("invalid bech32 address"));
        },
    };
    if !str_eq(hrp.as_str(), "gld2") {
        return Err(String::from_str("invalid address prefix (hrp must be gld2)"));
    }
    if full_bytes.len() < 28 {
        return Err(String::from_str("invalid raw address length"));
    }
    if !(full_bytes[0] == 0x67 && full_bytes[1] == 0x6c && full_bytes[2] == 0x64 && full_bytes[3]
        == 0x32) {
        proof {
            assert(full_bytes@.subrange(0, 4) != spec_addr_prefix_bytes());
        }
        return Err(String::from_str("address prefix bytes mismatch (expected gld2)"));
    }
    proof {
        assert(full_bytes@.subrange(0, 4) =~= spec_addr_prefix_bytes());
    }
    let payload24 = vstd::slice::slice_subrange(full_bytes.as_slice(), 0, 24);
    let hash = sha256(payload24);
    let checksum_ok = hash[0] == full_bytes[24] && hash[1] == full_bytes[25] && hash[2]
        == full_bytes[26] && hash[3] == full_bytes[27];
    proof {
        let hs = spec_sha256(full_bytes@.subrange(0, 24)).subrange(0, 4);
        let cs = full_bytes@.subrange(24, 28);
        if checksum_ok {
            assert(hs =~= cs);
        } else {
            assert(hs[0] == hash@[0] && hs[1] == hash@[1] && hs[2] == hash@[2] && hs[3]
                == hash@[3]);
            assert(cs[0] == full_bytes@[24] && cs[1] == full_bytes@[25] && cs[2] == full_bytes@[26]
                && cs[3] == full_bytes@[27]);
            assert(hs != cs);
        }
    }
    if !checksum_ok {
        return Err(String::from_str("invalid address checksum"));
    }
    Ok(())
}

/// Whether a string is a well-formed checksum address: bech32 under
/// `gld2` with exactly 28 payload bytes, the literal prefix, and a
/// matching four-byte checksum.
pub open spec fn spec_validate_address(addr: Seq<char>) -> bool {
    match spec_bech32_decode(addr) {
        None => false,
        Some((hrp, bytes)) => {
            &&& hrp == "gld2"@
            &&& bytes.len() == 28
            &&& bytes.subrange(0, 4) == spec_addr_prefix_bytes()
            &&& spec_sha256(bytes.subrange(0, 24)).subrange(0, 4) == bytes.subrange(24, 28)
        },
    }
}

/// The strict address test used at the submission edge: as
/// [`verify_address_checksum`], but demanding exactly 28 payload bytes.
pub fn validate_address(addr: &str) -> (r: bool)
    ensures
        r == spec_validate_address(addr@),
{
    let (hrp, data8) = match bech32_decode(addr) {
        Some(p) => p,
        None => {
            return false;
        },
    };
    if !str_eq(hrp.as_str(), "gld2") {
        return false;
    }
    if data8.len() != 28 {
        return false;
    }
    if !(data8[0] == 0x67 && data8[1] == 0x6c && data8[2] == 0x64 && data8[3] == 0x32) {
        proof {
            assert(data8@.subrange(0, 4) != spec_addr_prefix_bytes());
        }
        return false;
    }
    proof {
        assert(data8@.subrange(0, 4) =~= spec_addr_prefix_bytes());
    }
    let payload24 = vstd::slice::slice_subrange(data8.as_slice(), 0, 24);
    let hash = sha256(payload24);
    let checksum_ok = hash[0] == data8[24] && hash[1] == data8[25] && hash[2] == data8[26]
        && hash[3] == data8[27];
    proof {
        let hs = spec_sha256(data8@.subrange(0, 24)).subrange(0, 4);
        let cs = data8@.subrange(24, 28);
        if checksum_ok {
            assert(hs =~= cs);
        } else {
            assert(hs[0] == hash@[0] && hs[1] == hash@[1] && hs[2] == hash@[2] && hs[3]
                == hash@[3]);
            assert(cs[0] == data8@[24] && cs[1] == data8@[25] && cs[2] == data8@[26] && cs[3]
                == data8@[27]);
            assert(hs != cs);
        }
    }
    checksum_ok
}

/// Stage three as executable code; see [`spec_tx_hash_check`].
fn verify_tx_hash(tx: &Tx) -> (r: Result<(), String>)
    ensures
        match (r, spec_tx_hash_check(tx@)) {
            (Ok(_), Ok(_)) => true,
            (Err(e), Err(me)) => e@ == me,
            _ => false,
        },
{
    let raw = match make_raw_tx(tx) {
        Ok(v) => v,
        Err(e) => {
            return Err(e);
        },
    };
    let hash = sha256(raw.as_slice());
    let hash_hex = bytes_to_hex(hash.as_slice());
    if !str_eq(hash_hex.as_str(), tx.tx_hash.as_str()) {
        return Err(String::from_str("tx_hash mismatch"));
    }
    Ok(())
}

/// Stage four as executable code; see [`spec_addr_key_check`].
fn verify_address(tx: &Tx) -> (r: Result<(), String>)
    ensures
        match (r, spec_addr_key_check(tx@)) {
            (Ok(_), Ok(_)) => true,
            (Err(e), Err(me)) => e@ == me,
            _ => false,
        },
{
    let pubkey_bytes = match hex_to_bytes(tx.pubkey.as_str()) {
        Ok(v) => v,
        Err(e) => {
            return Err(e);
        },
    };
    if pubkey_bytes.len() != 33 {
        return Err(String::from_str("pubkey must be 33 bytes"));
    }
    let mut payload24: Vec<u8> = Vec::new();
    payload24.push(0x67);
    payload24.push(0x6c);
    payload24.push(0x64);
    payload24.push(0x32);
    crate::codec::push_bytes(
        &mut payload24,
        vstd::slice::slice_subrange(pubkey_bytes.as_slice(), 1, 21),
    );
    proof {
        assert(payload24@ =~= spec_addr_prefix_bytes() + pubkey_bytes@.subrange(1, 21));
    }
    let hash = sha256(payload24.as_slice());
    let mut full28 = payload24;
    crate::codec::push_bytes(&mut full28, vstd::slice::slice_subrange(hash.as_slice(), 0, 4));
    let addr = match bech32_encode("gld2", full28.as_slice()) {
        Some(s) => s,
        None => {
            return Err(String::from_str("failed to encode bech32 address"));
        },
    };
    if !str_eq(addr.as_str(), tx.from.as_str()) {
        return Err(String::from_str("address does not match pubkey"));
    }
    Ok(())
}

/// Builds the canonical signing string; see [`spec_pipe_v1`].
pub fn build_pipe_v1_string(tx: &Tx) -> (s: String)
    ensures
        s@ == spec_pipe_v1(tx@),
{
    let mut s = String::new();
    s.append(tx.domain_tag.as_str());
    s.append(tx.chain_id.as_str());
    s.append(tx.tx_type.as_str());
    s.append(tx.from.as_str());
    s.append(tx.to.as_str());
    s.append(tx.token.as_str());
    s.append(u64_to_dec(tx.amount).as_str());
    s.append(u64_to_dec(tx.fee).as_str());
    s.append(u64_to_dec(tx.nonce).as_str());
    s.append(u64_to_dec(tx.timestamp).as_str());
    proof {
        assert(s@ =~= spec_pipe_v1(tx@));
    }
    s
}

/// Stage five as executable code; see [`spec_sig_check`].
fn verify_signature(tx: &Tx) -> (r: Result<(), String>)
    ensures
        match (r, spec_sig_check(tx@)) {
            (Ok(_), Ok(_)) => true,
            (Err(e), Err(me)) => e@ == me,
            _ => false,
        },
{
    let pubkey_bytes = match hex_to_bytes(tx.pubkey.as_str()) {
        Ok(v) => v,
        Err(e) => {
            return Err(e);
        },
    };
    let sig_bytes = match hex_to_bytes(tx.signature.as_str()) {
        Ok(v) => v,
        Err(e) => {
            return Err(e);
        },
    };
    if pubkey_bytes.len() != 33 {
        return Err(String::from_str("pubkey must be 33 bytes"));
    }
    if sig_bytes.len() != 65 {
        return Err(String::from_str("signature must be 65 bytes"));
    }
    let rs = vstd::slice::slice_subrange(sig_bytes.as_slice(), 0, 64);
    let pipe_v1 = build_pipe_v1_string(tx);
    let msg_hash = sha256(pipe_v1.as_str().as_bytes());
    match ecdsa_verify_prehash(pubkey_bytes.as_slice(), msg_hash.as_slice(), rs) {
        Ok(_) => Ok(()),
        Err(SigFailure::BadSignatureBytes) => Err(String::from_str("invalid r,s signature")),
        Err(SigFailure::BadPubkey) => Err(String::from_str("invalid pubkey")),
        Err(SigFailure::VerifyFailed) => Err(String::from_str("signature verification failed")),
    }
}

/// Runs the five validation stages in order against the clock value
/// `now_ms`, yielding the validated core on success or the exact
/// rejection text of the first failing stage.
pub fn validate_tx(tx: &Tx, now_ms: i64) -> (r: Result<ValidTxCore, String>)
    ensures
        (r is Ok) == (spec_validate(tx@, now_ms) is Ok),
        r matches Ok(vt) ==> vt@ == spec_core_of(tx@),
        r matches Err(e) ==> (spec_validate(tx@, now_ms) matches Err(me) && e@ == me),
{
    match basic_prevalidate(tx, now_ms) {
        Ok(_) => (),
        Err(e) => {
            return Err(e);
        },
    }
    match verify_address_checksum(tx.from.as_str()) {
        Ok(_) => (),
        Err(e) => {
            return Err(e);
        },
    }
    match verify_address_checksum(tx.to.as_str()) {
        Ok(_) => (),
        Err(e) => {
            return Err(e);
        },
    }
    match verify_tx_hash(tx) {
        Ok(_) => (),
        Err(e) => {
            return Err(e);
        },
    }
    match verify_address(tx) {
        Ok(_) => (),
        Err(e) => {
            return Err(e);
        },
    }
    match verify_signature(tx) {
        Ok(_) => (),
        Err(e) => {
            return Err(e);
        },
    }
    Ok(return_structured_tx(tx))
}

} // verus!
