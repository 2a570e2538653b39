//! The block wire codec: a block as a `u32`-length-prefixed frame of
//! length-prefixed header fields followed by its transactions, each with
//! an exact specification and a decode-of-encode round-trip lemma.

use vstd::prelude::*;
use vstd::utf8::{decode_utf8, encode_utf8, valid_utf8};

use crate::block::{Block, BlockBody, BlockHeader, BlockView};
use crate::bytes_be::{
    lemma_i64_be_round_trip, lemma_u16_be_round_trip, lemma_u32_be_round_trip,
    lemma_u64_be_round_trip, push_i64_be, push_u16_be, push_u32_be, push_u64_be, read_u16_at,
    read_u32_at, read_u64_at, spec_i64_be, spec_i64_from_be, spec_u16_be, spec_u16_from_be,
    spec_u32_be, spec_u32_from_be, spec_u64_be, spec_u64_from_be,
};
use crate::codec::{push_bytes, spec_hex_decode_or_empty, spec_magic};
use crate::hex::{
    bytes_to_hex, hex_to_bytes, is_lower_hex, lemma_hex_decode_of,
    spec_hex_decode, spec_hex_err, spec_hex_of,
};
use crate::strutil::str_eq;
use crate::tx::{ValidTxCore, ValidTxView};

verus! {

/// A string field on the block wire: a 16-bit big-endian length, then
/// the UTF-8 bytes.
pub open spec fn spec_str_u16_bytes(s: Seq<char>) -> Seq<u8> {
    spec_u16_be(encode_utf8(s).len() as u16) + encode_utf8(s)
}

/// Whether a string fits behind a 16-bit length.
pub open spec fn str_u16_encodable(s: Seq<char>) -> bool {
    encode_utf8(s).len() <= 0xffff
}

/// Whether a transaction fits the in-block layout: the supported type,
/// hex fields that decode to their fixed widths, and strings that fit
/// behind 16-bit lengths.
pub open spec fn block_tx_encodable(t: ValidTxView) -> bool {
    &&& spec_hex_decode(t.tx_hash) is Some
    &&& spec_hex_decode_or_empty(t.tx_hash).len() == 32
    &&& t.tx_type == "transfer"@
    &&& str_u16_encodable(t.from)
    &&& str_u16_encodable(t.to)
    &&& str_u16_encodable(t.token)
    &&& spec_hex_decode(t.pubkey) is Some
    &&& spec_hex_decode_or_empty(t.pubkey).len() == 33
    &&& spec_hex_decode(t.signature) is Some
    &&& spec_hex_decode_or_empty(t.signature).len() == 65
}

/// The in-block encoding of one transaction.
pub open spec fn spec_block_tx_bytes(t: ValidTxView) -> Seq<u8> {
    spec_hex_decode_or_empty(t.tx_hash) + (seq![1u8] + (spec_str_u16_bytes(t.from) + (
    spec_str_u16_bytes(t.to) + (spec_str_u16_bytes(t.token) + (spec_u64_be(t.amount) + (
    spec_u64_be(t.fee) + (spec_u64_be(t.nonce) + (spec_u64_be(t.timestamp) + (
    spec_hex_decode_or_empty(t.pubkey) + spec_hex_decode_or_empty(t.signature))))))))))
}

/// The error of an unencodable in-block transaction: the first failing
/// field in layout order.
pub open spec fn spec_block_tx_err(t: ValidTxView) -> Seq<char>
    recommends
        !block_tx_encodable(t),
{
    if spec_hex_decode(t.tx_hash) is None {
        spec_hex_err(t.tx_hash)
    } else if spec_hex_decode_or_empty(t.tx_hash).len() != 32 {
        "tx_hash must be 32 bytes"@
    } else if t.tx_type != "transfer"@ {
        "unknown tx_type"@
    } else if !str_u16_encodable(t.from) || !str_u16_encodable(t.to) || !str_u16_encodable(
        t.token,
    ) {
        "string too long to encode with u16 length"@
    } else if spec_hex_decode(t.pubkey) is None {
        spec_hex_err(t.pubkey)
    } else if spec_hex_decode_or_empty(t.pubkey).len() != 33 {
        "pubkey must be 33 bytes"@
    } else if spec_hex_decode(t.signature) is None {
        spec_hex_err(t.signature)
    } else {
        "signature must be 65 bytes"@
    }
}

/// The concatenated length-prefixed encodings of a run of transactions.
pub open spec fn spec_block_txs_bytes(txs: Seq<ValidTxView>) -> Seq<u8>
    decreases txs.len(),
{
    if txs.len() == 0 {
        Seq::empty()
    } else {
        spec_u32_be(spec_block_tx_bytes(txs[0]).len() as u32) + (spec_block_tx_bytes(txs[0])
            + spec_block_txs_bytes(txs.drop_first()))
    }
}

/// The payload of a block frame: header fields, then the transactions.
pub open spec fn spec_block_payload(b: BlockView) -> Seq<u8> {
    spec_str_u16_bytes(b.block_id) + (spec_str_u16_bytes(b.header.version) + (spec_str_u16_bytes(
        b.header.chain_id,
    ) + (spec_u64_be(b.header.height) + (spec_str_u16_bytes(b.header.prev_hash) + (spec_i64_be(
        b.header.timestamp_ms,
    ) + (spec_u32_be(b.header.tx_count) + (spec_str_u16_bytes(b.header.tx_root)
        + spec_block_txs_bytes(b.body.txs))))))))
}

/// Whether a block fits the wire layout: header strings behind 16-bit
/// lengths, a header count that matches the body, encodable
/// transactions, and a payload that fits behind a 32-bit length.
pub open spec fn block_encodable(b: BlockView) -> bool {
    &&& str_u16_encodable(b.block_id)
    &&& str_u16_encodable(b.header.version)
    &&& str_u16_encodable(b.header.chain_id)
    &&& str_u16_encodable(b.header.prev_hash)
    &&& str_u16_encodable(b.header.tx_root)
    &&& b.header.tx_count == b.body.txs.len()
    &&& forall|i: int| 0 <= i < b.body.txs.len() ==> block_tx_encodable(#[trigger] b.body.txs[i])
    &&& spec_block_payload(b).len() <= 0xffffffff
}

/// The whole block frame: magic, the block type byte, a 32-bit
/// big-endian payload length, the payload.
pub open spec fn spec_block_bytes(b: BlockView) -> Seq<u8> {
    spec_magic() + seq![7u8] + spec_u32_be(spec_block_payload(b).len() as u32) + spec_block_payload(
        b,
    )
}

/// Appends a 16-bit-length-prefixed string to `buf` when it fits;
/// otherwise leaves `buf` unchanged.
fn push_str_u16(buf: &mut Vec<u8>, s: &str) -> (ok: bool)
    ensures
        ok == str_u16_encodable(s@),
        ok ==> final(buf)@ == old(buf)@ + spec_str_u16_bytes(s@),
        !ok ==> final(buf)@ == old(buf)@,
{
    let bytes = s.as_bytes();
    if bytes.len() > 0xffff {
        return false;
    }
    push_u16_be(buf, bytes.len() as u16);
    push_bytes(buf, bytes);
    proof {
        assert(final(buf)@ =~= old(buf)@ + spec_str_u16_bytes(s@));
    }
    true
}

/// The wire byte of a transaction type in a block; only the supported
/// kind encodes.
pub fn encode_tx_type(s: &str) -> (r: Result<u8, String>)
    ensures
        (r is Ok) == (s@ == "transfer"@),
        r matches Ok(b) ==> b == 1,
        r matches Err(e) ==> e@ == "unknown tx_type"@,
{
    if str_eq(s, "transfer") {
        Ok(1)
    } else {
        Err(String::from_str("unknown tx_type"))
    }
}

/// Encodes one transaction in the in-block layout.  Succeeds exactly
/// when the transaction fits it.
pub fn encode_tx_for_block(tx: &ValidTxCore) -> (r: Result<Vec<u8>, String>)
    ensures
        (r is Ok) == block_tx_encodable(tx@),
        r matches Ok(buf) ==> buf@ == spec_block_tx_bytes(tx@),
        r matches Err(e) ==> e@ == spec_block_tx_err(tx@),
{
    let mut buf: Vec<u8> = Vec::new();
    let tx_hash_bytes = match hex_to_bytes(tx.tx_hash.as_str()) {
        Ok(v) => v,
        Err(e) => {
            return Err(e);
        },
    };
    if tx_hash_bytes.len() != 32 {
        return Err(String::from_str("tx_hash must be 32 bytes"));
    }
    push_bytes(&mut buf, tx_hash_bytes.as_slice());
    let tx_type_code = match encode_tx_type(tx.tx_type.as_str()) {
        Ok(c) => c,
        Err(e) => {
            return Err(e);
        },
    };
    buf.push(tx_type_code);
    if !push_str_u16(&mut buf, tx.from.as_str()) {
        return Err(String::from_str("string too long to encode with u16 length"));
    }
    if !push_str_u16(&mut buf, tx.to.as_str()) {
        return Err(String::from_str("string too long to encode with u16 length"));
    }
    if !push_str_u16(&mut buf, tx.token.as_str()) {
        return Err(String::from_str("string too long to encode with u16 length"));
    }
    push_u64_be(&mut buf, tx.amount);
    push_u64_be(&mut buf, tx.fee);
    push_u64_be(&mut buf, tx.nonce);
    push_u64_be(&mut buf, tx.timestamp);
    let pubkey_bytes = match hex_to_bytes(tx.pubkey.as_str()) {
        Ok(v) => v,
        Err(e) => {
            return Err(e);
        },
    };
    if pubkey_bytes.len() != 33 {
        return Err(String::from_str("pubkey must be 33 bytes"));
    }
    push_bytes(&mut buf, pubkey_bytes.as_slice());
    let sig_bytes = match hex_to_bytes(tx.signature.as_str()) {
        Ok(v) => v,
        Err(e) => {
            return Err(e);
        },
    };
    if sig_bytes.len() != 65 {
        return Err(String::from_str("signature must be 65 bytes"));
    }
    push_bytes(&mut buf, sig_bytes.as_slice());
    proof {
        assert(buf@ =~= spec_block_tx_bytes(tx@));
    }
    Ok(buf)
}

/// The error of an unencodable block: the first failing header field,
/// the count mismatch, the first failing transaction, or an oversized
/// payload.
pub open spec fn spec_encode_block_err(b: BlockView) -> Seq<char>
    recommends
        !block_encodable(b),
{
    if !str_u16_encodable(b.block_id) || !str_u16_encodable(b.header.version)
        || !str_u16_encodable(b.header.chain_id) || !str_u16_encodable(b.header.prev_hash) {
        "string too long to encode with u16 length"@
    } else if b.header.tx_count != b.body.txs.len() {
        "tx_count in header does not match body"@
    } else if !str_u16_encodable(b.header.tx_root) {
        "string too long to encode with u16 length"@
    } else if exists|i: int|
        0 <= i < b.body.txs.len() && !block_tx_encodable(#[trigger] b.body.txs[i]) {
        spec_block_tx_err(
            b.body.txs[choose|i: int|
                0 <= i < b.body.txs.len() && !block_tx_encodable(#[trigger] b.body.txs[i])
                    && forall|j: int|
                    0 <= j < i ==> block_tx_encodable(#[trigger] b.body.txs[j])],
        )
    } else {
        "block payload too big"@
    }
}

/// Frames a block for broadcast or storage.  Succeeds exactly when the
/// block fits the wire layout; the header's transaction count must match
/// the body.
#[verifier::rlimit(50)]
pub fn encode_block_raw(block: &Block) -> (r: Result<Vec<u8>, String>)
    ensures
        (r is Ok) == block_encodable(block@),
        r matches Ok(out) ==> out@ == spec_block_bytes(block@),
        r matches Err(e) ==> e@ == spec_encode_block_err(block@),
{
    let ghost bv = block@;
    let mut payload: Vec<u8> = Vec::new();
    if !push_str_u16(&mut payload, block.block_id.as_str()) {
        return Err(String::from_str("string too long to encode with u16 length"));
    }
    if !push_str_u16(&mut payload, block.header.version.as_str()) {
        return Err(String::from_str("string too long to encode with u16 length"));
    }
    if !push_str_u16(&mut payload, block.header.chain_id.as_str()) {
        return Err(String::from_str("string too long to encode with u16 length"));
    }
    push_u64_be(&mut payload, block.header.height);
    if !push_str_u16(&mut payload, block.header.prev_hash.as_str()) {
        return Err(String::from_str("string too long to encode with u16 length"));
    }
    push_i64_be(&mut payload, block.header.timestamp_ms);
    if block.header.tx_count as usize != block.body.txs.len() {
        return Err(String::from_str("tx_count in header does not match body"));
    }
    push_u32_be(&mut payload, block.header.tx_count);
    if !push_str_u16(&mut payload, block.header.tx_root.as_str()) {
        return Err(String::from_str("string too long to encode with u16 length"));
    }
    let ghost header_bytes = payload@;
    proof {
        assert(bv.body.txs.subrange(0, 0) =~= Seq::<ValidTxView>::empty());
        assert(header_bytes + spec_block_txs_bytes(bv.body.txs.subrange(0, 0)) =~= header_bytes);
    }
    let n = block.body.txs.len();
    for i in 0..n
        invariant
            n == bv.body.txs.len(),
            bv == block@,
            str_u16_encodable(bv.block_id),
            str_u16_encodable(bv.header.version),
            str_u16_encodable(bv.header.chain_id),
            str_u16_encodable(bv.header.prev_hash),
            str_u16_encodable(bv.header.tx_root),
            bv.header.tx_count == bv.body.txs.len(),
            payload@ == header_bytes + spec_block_txs_bytes(bv.body.txs.subrange(0, i as int)),
            forall|j: int| 0 <= j < i ==> block_tx_encodable(#[trigger] bv.body.txs[j]),
    {
        let ghost pre = payload@;
        let tx_bytes = match encode_tx_for_block(&block.body.txs[i]) {
            Ok(v) => v,
            Err(e) => {
                proof {
                    assert(!block_tx_encodable(bv.body.txs[i as int]));
                    let ii = i as int;
                    assert(exists|w: int|
                        0 <= w < bv.body.txs.len() && !block_tx_encodable(#[trigger] bv.body.txs[w])
                            && forall|j: int|
                            0 <= j < w ==> block_tx_encodable(#[trigger] bv.body.txs[j])) by {
                        assert(0 <= ii < bv.body.txs.len() && !block_tx_encodable(
                            #[trigger] bv.body.txs[ii],
                        ) && forall|j: int|
                            0 <= j < ii ==> block_tx_encodable(#[trigger] bv.body.txs[j]));
                    }
                    let w = choose|w: int|
                        0 <= w < bv.body.txs.len() && !block_tx_encodable(#[trigger] bv.body.txs[w])
                            && forall|j: int|
                            0 <= j < w ==> block_tx_encodable(#[trigger] bv.body.txs[j]);
                    if w != i as int {
                        if w < i as int {
                            assert(block_tx_encodable(bv.body.txs[w]));
                        } else {
                            assert(block_tx_encodable(bv.body.txs[i as int]));
                        }
                    }
                    assert(w == i as int);
                }
                return Err(e);
            },
        };
        push_u32_be(&mut payload, tx_bytes.len() as u32);
        push_bytes(&mut payload, tx_bytes.as_slice());
        proof {
            assert(spec_block_tx_bytes(bv.body.txs[i as int]).len() <= 0xffffffff);
            lemma_txs_bytes_snoc(bv.body.txs, i as int);
            assert(payload@ =~= header_bytes + spec_block_txs_bytes(
                bv.body.txs.subrange(0, i + 1),
            ));
        }
    }
    proof {
        assert(bv.body.txs.subrange(0, n as int) =~= bv.body.txs);
        assert(payload@ == spec_block_payload(bv));
    }
    if payload.len() > 0xffffffff {
        return Err(String::from_str("block payload too big"));
    }
    let mut out: Vec<u8> = Vec::new();
    out.push(0x46);
    out.push(0x47);
    out.push(0x58);
    out.push(0x31);
    out.push(7);
    push_u32_be(&mut out, payload.len() as u32);
    push_bytes(&mut out, payload.as_slice());
    proof {
        assert(out@ =~= spec_block_bytes(bv));
    }
    Ok(out)
}

/// Reading a 16-bit big-endian value off the front of a buffer.
#[verifier::opaque]
pub open spec fn sp_read_u16(b: Seq<u8>) -> Result<(u16, Seq<u8>), Seq<char>> {
    if b.len() >= 2 {
        Ok((spec_u16_from_be(b.subrange(0, 2)), b.skip(2)))
    } else {
        Err("read_u16 out of bounds"@)
    }
}

/// Reading a 32-bit big-endian value off the front of a buffer.
#[verifier::opaque]
pub open spec fn sp_read_u32(b: Seq<u8>) -> Result<(u32, Seq<u8>), Seq<char>> {
    if b.len() >= 4 {
        Ok((spec_u32_from_be(b.subrange(0, 4)), b.skip(4)))
    } else {
        Err("read_u32 out of bounds"@)
    }
}

/// Reading a 64-bit big-endian value off the front of a buffer.
#[verifier::opaque]
pub open spec fn sp_read_u64(b: Seq<u8>) -> Result<(u64, Seq<u8>), Seq<char>> {
    if b.len() >= 8 {
        Ok((spec_u64_from_be(b.subrange(0, 8)), b.skip(8)))
    } else {
        Err("read_u64 out of bounds"@)
    }
}

/// Reading a signed 64-bit big-endian value off the front of a buffer.
#[verifier::opaque]
pub open spec fn sp_read_i64(b: Seq<u8>) -> Result<(i64, Seq<u8>), Seq<char>> {
    if b.len() >= 8 {
        Ok((spec_i64_from_be(b.subrange(0, 8)), b.skip(8)))
    } else {
        Err("read_i64 out of bounds"@)
    }
}

/// Reading a 16-bit-length-prefixed UTF-8 string off the front of a
/// buffer.
#[verifier::opaque]
pub open spec fn sp_read_str(b: Seq<u8>) -> Result<(Seq<char>, Seq<u8>), Seq<char>> {
    match sp_read_u16(b) {
        Err(e) => Err(e),
        Ok((len, rest)) => {
            if rest.len() < len {
                Err("read_str_u16 out of bounds"@)
            } else if !valid_utf8(rest.subrange(0, len as int)) {
                Err("invalid UTF-8 in string"@)
            } else {
                Ok((decode_utf8(rest.subrange(0, len as int)), rest.skip(len as int)))
            }
        },
    }
}

/// Reading one in-block transaction out of its exact byte run; bytes
/// after the signature are ignored.
#[verifier::opaque]
pub open spec fn sp_read_block_tx(b: Seq<u8>) -> Result<ValidTxView, Seq<char>> {
    if b.len() < 33 {
        Err("tx bytes too short"@)
    } else if b[32] != 1 {
        Err("unknown tx_type code"@)
    } else {
        match sp_read_str(b.skip(33)) {
            Err(e) => Err(e),
            Ok((from, r1)) => match sp_read_str(r1) {
                Err(e) => Err(e),
                Ok((to, r2)) => match sp_read_str(r2) {
                    Err(e) => Err(e),
                    Ok((token, r3)) => match sp_read_u64(r3) {
                        Err(e) => Err(e),
                        Ok((amount, r4)) => match sp_read_u64(r4) {
                            Err(e) => Err(e),
                            Ok((fee, r5)) => match sp_read_u64(r5) {
                                Err(e) => Err(e),
                                Ok((nonce, r6)) => match sp_read_u64(r6) {
                                    Err(e) => Err(e),
                                    Ok((timestamp, r7)) => {
                                        if r7.len() < 33 {
                                            Err("not enough bytes for pubkey"@)
                                        } else if r7.skip(33).len() < 65 {
                                            Err("not enough bytes for signature"@)
                                        } else {
                                            Ok(
                                                ValidTxView {
                                                    tx_hash: spec_hex_of(b.subrange(0, 32)),
                                                    tx_type: "transfer"@,
                                                    from,
                                                    to,
                                                    token,
                                                    amount,
                                                    fee,
                                                    nonce,
                                                    timestamp,
                                                    pubkey: spec_hex_of(r7.subrange(0, 33)),
                                                    signature: spec_hex_of(
                                                        r7.skip(33).subrange(0, 65),
                                                    ),
                                                },
                                            )
                                        }
                                    },
                                },
                            },
                        },
                    },
                },
            },
        }
    }
}

/// Reading one length-prefixed transaction entry off the front of a
/// buffer: a 32-bit length, then exactly that many bytes of
/// transaction.
pub open spec fn sp_read_tx_entry(b: Seq<u8>) -> Result<(ValidTxView, Seq<u8>), Seq<char>> {
    match sp_read_u32(b) {
        Err(e) => Err(e),
        Ok((tx_len, rest)) => {
            if rest.len() < tx_len {
                Err("tx_len out of range"@)
            } else {
                match sp_read_block_tx(rest.subrange(0, tx_len as int)) {
                    Err(e) => Err(e),
                    Ok(tv) => Ok((tv, rest.skip(tx_len as int))),
                }
            }
        },
    }
}

/// Reading `n` length-prefixed transactions off the front of a buffer.
pub open spec fn sp_read_txs(b: Seq<u8>, n: nat) -> Result<
    (Seq<ValidTxView>, Seq<u8>),
    Seq<char>,
>
    decreases n,
{
    if n == 0 {
        Ok((Seq::empty(), b))
    } else {
        match sp_read_tx_entry(b) {
            Err(e) => Err(e),
            Ok((tv, rest)) => match sp_read_txs(rest, (n - 1) as nat) {
                Err(e) => Err(e),
                Ok((txs, r2)) => Ok((seq![tv] + txs, r2)),
            },
        }
    }
}

/// What decoding a block frame yields: the block it carries, or the
/// exact rejection text.  Bytes after the declared payload are ignored.
pub open spec fn spec_decode_block(data: Seq<u8>) -> Result<BlockView, Seq<char>> {
    if data.len() < 9 {
        Err("data too short for FGX1 header"@)
    } else if data.subrange(0, 4) != spec_magic() {
        Err("invalid magic"@)
    } else if data[4] != 7 {
        Err("unexpected msg_type"@)
    } else if 9 + spec_u32_from_be(data.subrange(5, 9)) > data.len() {
        Err("payload_len out of range"@)
    } else {
        spec_decode_block_payload(
            data.subrange(9, 9 + spec_u32_from_be(data.subrange(5, 9)) as int),
        )
    }
}

/// What decoding a block payload yields.
pub open spec fn spec_decode_block_payload(p: Seq<u8>) -> Result<BlockView, Seq<char>> {
    match sp_read_str(p) {
        Err(e) => Err(e),
        Ok((block_id, r1)) => match sp_read_str(r1) {
            Err(e) => Err(e),
            Ok((version, r2)) => match sp_read_str(r2) {
                Err(e) => Err(e),
                Ok((chain_id, r3)) => match sp_read_u64(r3) {
                    Err(e) => Err(e),
                    Ok((height, r4)) => match sp_read_str(r4) {
                        Err(e) => Err(e),
                        Ok((prev_hash, r5)) => match sp_read_i64(r5) {
                            Err(e) => Err(e),
                            Ok((timestamp_ms, r6)) => match sp_read_u32(r6) {
                                Err(e) => Err(e),
                                Ok((tx_count, r7)) => match sp_read_str(r7) {
                                    Err(e) => Err(e),
                                    Ok((tx_root, r8)) => match sp_read_txs(r8, tx_count as nat) {
                                        Err(e) => Err(e),
                                        Ok((txs, _r9)) => Ok(
                                            BlockView {
                                                block_id,
                                                header: crate::block::BlockHeaderView {
                                                    version,
                                                    chain_id,
                                                    height,
                                                    prev_hash,
                                                    timestamp_ms,
                                                    tx_count,
                                                    tx_root,
                                                },
                                                body: crate::block::BlockBodyView { txs },
                                            },
                                        ),
                                    },
                                },
                            },
                        },
                    },
                },
            },
        },
    }
}

/// Appending one encodable transaction extends the concatenated
/// encoding by its length-prefixed bytes.
proof fn lemma_txs_bytes_snoc(txs: Seq<ValidTxView>, i: int)
    requires
        0 <= i < txs.len(),
    ensures
        spec_block_txs_bytes(txs.subrange(0, i + 1)) =~= spec_block_txs_bytes(
            txs.subrange(0, i),
        ) + spec_u32_be(spec_block_tx_bytes(txs[i]).len() as u32) + spec_block_tx_bytes(txs[i]),
    decreases i,
{
    let pre = txs.subrange(0, i + 1);
    if i == 0 {
        assert(pre.drop_first() =~= Seq::<ValidTxView>::empty());
        assert(txs.subrange(0, 0) =~= Seq::<ValidTxView>::empty());
        assert(pre[0] == txs[0]);
    } else {
        lemma_txs_bytes_snoc(txs.drop_first(), i - 1);
        assert(pre[0] == txs[0]);
        assert(pre.drop_first() =~= txs.drop_first().subrange(0, i));
        assert(txs.subrange(0, i).drop_first() =~= txs.drop_first().subrange(0, i - 1));
        assert(txs.subrange(0, i)[0] == txs[0]);
        assert(txs.drop_first().subrange(0, i)[i - 1] == txs[i]);
        assert(txs.drop_first()[i - 1] == txs[i]);
    }
}

/// Reads a big-endian `u16` at the cursor; see [`sp_read_u16`].
fn read_u16(buf: &[u8], offset: &mut usize) -> (r: Result<u16, String>)
    requires
        *old(offset) <= buf@.len(),
    ensures
        match r {
            Ok(v) => {
                &&& sp_read_u16(buf@.skip(*old(offset) as int)) == Ok::<_, Seq<char>>(
                    (v, buf@.skip(*old(offset) + 2)),
                )
                &&& *final(offset) == *old(offset) + 2
                &&& *final(offset) <= buf@.len()
            },
            Err(e) => (sp_read_u16(buf@.skip(*old(offset) as int)) matches Err(me) && me == e@),
        },
{
    proof {
        reveal(sp_read_u16);
    }
    if buf.len() - *offset < 2 {
        return Err(String::from_str("read_u16 out of bounds"));
    }
    let v = read_u16_at(buf, *offset);
    proof {
        assert(buf@.skip(*old(offset) as int).subrange(0, 2) =~= buf@.subrange(
            *old(offset) as int,
            *old(offset) + 2,
        ));
        assert(buf@.skip(*old(offset) as int).skip(2) =~= buf@.skip(*old(offset) + 2));
    }
    *offset = *offset + 2;
    Ok(v)
}

/// Reads a big-endian `u32` at the cursor; see [`sp_read_u32`].
fn read_u32(buf: &[u8], offset: &mut usize) -> (r: Result<u32, String>)
    requires
        *old(offset) <= buf@.len(),
    ensures
        match r {
            Ok(v) => {
                &&& sp_read_u32(buf@.skip(*old(offset) as int)) == Ok::<_, Seq<char>>(
                    (v, buf@.skip(*old(offset) + 4)),
                )
                &&& *final(offset) == *old(offset) + 4
                &&& *final(offset) <= buf@.len()
            },
            Err(e) => (sp_read_u32(buf@.skip(*old(offset) as int)) matches Err(me) && me == e@),
        },
{
    proof {
        reveal(sp_read_u32);
    }
    if buf.len() - *offset < 4 {
        return Err(String::from_str("read_u32 out of bounds"));
    }
    let v = read_u32_at(buf, *offset);
    proof {
        assert(buf@.skip(*old(offset) as int).subrange(0, 4) =~= buf@.subrange(
            *old(offset) as int,
            *old(offset) + 4,
        ));
        assert(buf@.skip(*old(offset) as int).skip(4) =~= buf@.skip(*old(offset) + 4));
    }
    *offset = *offset + 4;
    Ok(v)
}

/// Reads a big-endian `u64` at the cursor; see [`sp_read_u64`].
fn read_u64(buf: &[u8], offset: &mut usize) -> (r: Result<u64, String>)
    requires
        *old(offset) <= buf@.len(),
    ensures
        match r {
            Ok(v) => {
                &&& sp_read_u64(buf@.skip(*old(offset) as int)) == Ok::<_, Seq<char>>(
                    (v, buf@.skip(*old(offset) + 8)),
                )
                &&& *final(offset) == *old(offset) + 8
                &&& *final(offset) <= buf@.len()
            },
            Err(e) => (sp_read_u64(buf@.skip(*old(offset) as int)) matches Err(me) && me == e@),
        },
{
    proof {
        reveal(sp_read_u64);
    }
    if buf.len() - *offset < 8 {
        return Err(String::from_str("read_u64 out of bounds"));
    }
    let v = read_u64_at(buf, *offset);
    proof {
        assert(buf@.skip(*old(offset) as int).subrange(0, 8) =~= buf@.subrange(
            *old(offset) as int,
            *old(offset) + 8,
        ));
        assert(buf@.skip(*old(offset) as int).skip(8) =~= buf@.skip(*old(offset) + 8));
    }
    *offset = *offset + 8;
    Ok(v)
}

/// Reads a big-endian `i64` at the cursor; see [`sp_read_i64`].
fn read_i64(buf: &[u8], offset: &mut usize) -> (r: Result<i64, String>)
    requires
        *old(offset) <= buf@.len(),
    ensures
        match r {
            Ok(v) => {
                &&& sp_read_i64(buf@.skip(*old(offset) as int)) == Ok::<_, Seq<char>>(
                    (v, buf@.skip(*old(offset) + 8)),
                )
                &&& *final(offset) == *old(offset) + 8
                &&& *final(offset) <= buf@.len()
            },
            Err(e) => (sp_read_i64(buf@.skip(*old(offset) as int)) matches Err(me) && me == e@),
        },
{
    proof {
        reveal(sp_read_i64);
    }
    if buf.len() - *offset < 8 {
        return Err(String::from_str("read_i64 out of bounds"));
    }
    let v = crate::bytes_be::read_i64_at(buf, *offset);
    proof {
        assert(buf@.skip(*old(offset) as int).subrange(0, 8) =~= buf@.subrange(
            *old(offset) as int,
            *old(offset) + 8,
        ));
        assert(buf@.skip(*old(offset) as int).skip(8) =~= buf@.skip(*old(offset) + 8));
    }
    *offset = *offset + 8;
    Ok(v)
}

/// Reads a 16-bit-length-prefixed string at the cursor; see
/// [`sp_read_str`].
fn read_str_u16(buf: &[u8], offset: &mut usize) -> (r: Result<String, String>)
    requires
        *old(offset) <= buf@.len(),
    ensures
        match r {
            Ok(s) => {
                &&& sp_read_str(buf@.skip(*old(offset) as int)) matches Ok(p) && p.0 == s@ && p.1
                    == buf@.skip(*final(offset) as int)
                &&& *final(offset) <= buf@.len()
            },
            Err(e) => (sp_read_str(buf@.skip(*old(offset) as int)) matches Err(me) && me == e@),
        },
{
    proof {
        reveal(sp_read_str);
    }
    let ghost b0 = buf@.skip(*old(offset) as int);
    let len = match read_u16(buf, offset) {
        Ok(v) => v as usize,
        Err(e) => {
            return Err(e);
        },
    };
    let ghost rest = buf@.skip(*offset as int);
    if buf.len() - *offset < len {
        proof {
            assert(rest.len() < len);
        }
        return Err(String::from_str("read_str_u16 out of bounds"));
    }
    proof {
        assert(rest.subrange(0, len as int) =~= buf@.subrange(*offset as int, *offset + len));
    }
    let chunk = vstd::slice::slice_subrange(buf, *offset, *offset + len);
    let v = vstd::slice::slice_to_vec(chunk);
    let s = match crate::strutil::string_from_utf8(v) {
        Some(s) => s,
        None => {
            return Err(String::from_str("invalid UTF-8 in string"));
        },
    };
    proof {
        assert(rest.skip(len as int) =~= buf@.skip(*offset + len));
    }
    *offset = *offset + len;
    Ok(s)
}

/// The transaction type name of an in-block type byte; only the
/// supported kind decodes.
pub fn decode_tx_type(code: u8) -> (r: Result<String, String>)
    ensures
        (r is Ok) == (code == 1),
        r matches Ok(s) ==> s@ == "transfer"@,
        r matches Err(e) ==> e@ == "unknown tx_type code"@,
{
    if code == 1 {
        Ok(String::from_str("transfer"))
    } else {
        Err(String::from_str("unknown tx_type code"))
    }
}

/// Decodes one in-block transaction; see [`sp_read_block_tx`].
#[verifier::rlimit(100)]
pub fn decode_tx_from_block(buf: &[u8]) -> (r: Result<ValidTxCore, String>)
    ensures
        match (r, sp_read_block_tx(buf@)) {
            (Ok(tx), Ok(tv)) => tx@ == tv,
            (Err(e), Err(me)) => e@ == me,
            _ => false,
        },
{
    proof {
        reveal(sp_read_block_tx);
    }
    if buf.len() < 33 {
        return Err(String::from_str("tx bytes too short"));
    }
    let tx_hash = bytes_to_hex(vstd::slice::slice_subrange(buf, 0, 32));
    let tx_type = match decode_tx_type(buf[32]) {
        Ok(s) => s,
        Err(e) => {
            return Err(e);
        },
    };
    let mut offset: usize = 33;
    let from = match read_str_u16(buf, &mut offset) {
        Ok(s) => s,
        Err(e) => {
            return Err(e);
        },
    };
    let to = match read_str_u16(buf, &mut offset) {
        Ok(s) => s,
        Err(e) => {
            return Err(e);
        },
    };
    let token = match read_str_u16(buf, &mut offset) {
        Ok(s) => s,
        Err(e) => {
            return Err(e);
        },
    };
    let amount = match read_u64(buf, &mut offset) {
        Ok(v) => v,
        Err(e) => {
            return Err(e);
        },
    };
    let fee = match read_u64(buf, &mut offset) {
        Ok(v) => v,
        Err(e) => {
            return Err(e);
        },
    };
    let nonce = match read_u64(buf, &mut offset) {
        Ok(v) => v,
        Err(e) => {
            return Err(e);
        },
    };
    let timestamp = match read_u64(buf, &mut offset) {
        Ok(v) => v,
        Err(e) => {
            return Err(e);
        },
    };
    let ghost r7 = buf@.skip(offset as int);
    if buf.len() - offset < 33 {
        return Err(String::from_str("not enough bytes for pubkey"));
    }
    proof {
        assert(r7.subrange(0, 33) =~= buf@.subrange(offset as int, offset + 33));
    }
    let pubkey = bytes_to_hex(vstd::slice::slice_subrange(buf, offset, offset + 33));
    let offset2 = offset + 33;
    proof {
        assert(r7.skip(33) =~= buf@.skip(offset2 as int));
    }
    if buf.len() - offset2 < 65 {
        return Err(String::from_str("not enough bytes for signature"));
    }
    proof {
        assert(r7.skip(33).subrange(0, 65) =~= buf@.subrange(offset2 as int, offset2 + 65));
    }
    let signature = bytes_to_hex(vstd::slice::slice_subrange(buf, offset2, offset2 + 65));
    Ok(
        ValidTxCore {
            tx_hash,
            tx_type,
            from,
            to,
            token,
            amount,
            fee,
            nonce,
            timestamp,
            pubkey,
            signature,
        },
    )
}

/// Reads one length-prefixed transaction entry at the cursor; see
/// [`sp_read_tx_entry`].
#[verifier::rlimit(100)]
fn read_tx_entry(payload: &[u8], offset: &mut usize) -> (r: Result<ValidTxCore, String>)
    requires
        *old(offset) <= payload@.len(),
    ensures
        match r {
            Ok(tx) => {
                &&& sp_read_tx_entry(payload@.skip(*old(offset) as int)) matches Ok(p) && p.0
                    == tx@ && p.1 == payload@.skip(*final(offset) as int)
                &&& *final(offset) <= payload@.len()
            },
            Err(e) => (sp_read_tx_entry(payload@.skip(*old(offset) as int)) matches Err(me) && me
                == e@),
        },
{
    let tx_len = match read_u32(payload, offset) {
        Ok(v) => v as usize,
        Err(e) => {
            return Err(e);
        },
    };
    let ghost after_len = payload@.skip(*offset as int);
    if payload.len() - *offset < tx_len {
        proof {
            assert(after_len.len() < tx_len);
        }
        return Err(String::from_str("tx_len out of range"));
    }
    proof {
        assert(after_len.subrange(0, tx_len as int) =~= payload@.subrange(
            *offset as int,
            *offset + tx_len,
        ));
    }
    let tx_bytes = vstd::slice::slice_subrange(payload, *offset, *offset + tx_len);
    let tx = match decode_tx_from_block(tx_bytes) {
        Ok(t) => t,
        Err(e) => {
            return Err(e);
        },
    };
    proof {
        assert(after_len.skip(tx_len as int) =~= payload@.skip(*offset + tx_len));
    }
    *offset = *offset + tx_len;
    Ok(tx)
}

/// Reads `tx_count` length-prefixed transactions starting at `start`;
/// see [`sp_read_txs`].
fn read_txs(payload: &[u8], start: usize, tx_count: u32) -> (r: Result<Vec<ValidTxCore>, String>)
    requires
        start <= payload@.len(),
    ensures
        match r {
            Ok(txs) => (sp_read_txs(payload@.skip(start as int), tx_count as nat) matches Ok(p)
                && p.0 == crate::mempool::spec_views(txs@)),
            Err(e) => (sp_read_txs(payload@.skip(start as int), tx_count as nat) matches Err(me)
                && me == e@),
        },
{
    let ghost rest0 = payload@.skip(start as int);
    let mut offset = start;
    let mut txs: Vec<ValidTxCore> = Vec::new();
    let mut k: u32 = 0;
    proof {
        assert(crate::mempool::spec_views(txs@) =~= Seq::<ValidTxView>::empty());
    }
    while k < tx_count
        invariant
            k <= tx_count,
            offset <= payload@.len(),
            rest0 == payload@.skip(start as int),
            sp_read_txs(rest0, tx_count as nat) == (match sp_read_txs(
                payload@.skip(offset as int),
                (tx_count - k) as nat,
            ) {
                Err(e) => Err(e),
                Ok((more, r2)) => Ok::<_, Seq<char>>(
                    (crate::mempool::spec_views(txs@) + more, r2),
                ),
            }),
        decreases tx_count - k,
    {
        let ghost cur = payload@.skip(offset as int);
        let ghost txs0 = crate::mempool::spec_views(txs@);
        let ghost nk = (tx_count - k) as nat;
        let tx = match read_tx_entry(payload, &mut offset) {
            Ok(t) => t,
            Err(e) => {
                return Err(e);
            },
        };
        let ghost tv = tx@;
        let ghost new_cur = payload@.skip(offset as int);
        txs.push(tx);
        k = k + 1;
        proof {
            assert(crate::mempool::spec_views(txs@) =~= txs0.push(tv));
            let res_rest = sp_read_txs(new_cur, (nk - 1) as nat);
            assert(sp_read_txs(cur, nk) == (match res_rest {
                Err(e) => Err(e),
                Ok((more, r2)) => Ok::<_, Seq<char>>((seq![tv] + more, r2)),
            }));
            if res_rest is Ok {
                let more = (res_rest->Ok_0).0;
                assert(txs0 + (seq![tv] + more) =~= txs0.push(tv) + more);
            }
        }
    }
    proof {
        assert(sp_read_txs(payload@.skip(offset as int), 0) == Ok::<_, Seq<char>>(
            (Seq::<ValidTxView>::empty(), payload@.skip(offset as int)),
        ));
        assert(crate::mempool::spec_views(txs@) + Seq::<ValidTxView>::empty()
            =~= crate::mempool::spec_views(txs@));
    }
    Ok(txs)
}

/// Decodes a block frame; see [`spec_decode_block`].  Bytes after the
/// declared payload are ignored.
#[verifier::rlimit(100)]
pub fn decode_block_raw(data: &[u8]) -> (r: Result<Block, String>)
    ensures
        match (r, spec_decode_block(data@)) {
            (Ok(b), Ok(bv)) => b@ == bv,
            (Err(e), Err(me)) => e@ == me,
            _ => false,
        },
{
    if data.len() < 9 {
        return Err(String::from_str("data too short for FGX1 header"));
    }
    if data[0] != 0x46 || data[1] != 0x47 || data[2] != 0x58 || data[3] != 0x31 {
        proof {
            assert(data@.subrange(0, 4) != spec_magic());
        }
        return Err(String::from_str("invalid magic"));
    }
    proof {
        assert(data@.subrange(0, 4) =~= spec_magic());
    }
    if data[4] != 7 {
        return Err(String::from_str("unexpected msg_type"));
    }
    let payload_len = crate::bytes_be::read_u32_at(data, 5) as usize;
    if payload_len > data.len() - 9 {
        return Err(String::from_str("payload_len out of range"));
    }
    let payload = vstd::slice::slice_subrange(data, 9, 9 + payload_len);
    proof {
        assert(payload@ =~= data@.subrange(9, 9 + spec_u32_from_be(data@.subrange(5, 9)) as int));
        assert(payload@.skip(0) =~= payload@);
    }
    let mut offset: usize = 0;
    let block_id = match read_str_u16(payload, &mut offset) {
        Ok(s) => s,
        Err(e) => {
            return Err(e);
        },
    };
    let version = match read_str_u16(payload, &mut offset) {
        Ok(s) => s,
        Err(e) => {
            return Err(e);
        },
    };
    let chain_id = match read_str_u16(payload, &mut offset) {
        Ok(s) => s,
        Err(e) => {
            return Err(e);
        },
    };
    let height = match read_u64(payload, &mut offset) {
        Ok(v) => v,
        Err(e) => {
            return Err(e);
        },
    };
    let prev_hash = match read_str_u16(payload, &mut offset) {
        Ok(s) => s,
        Err(e) => {
            return Err(e);
        },
    };
    let timestamp_ms = match read_i64(payload, &mut offset) {
        Ok(v) => v,
        Err(e) => {
            return Err(e);
        },
    };
    let tx_count = match read_u32(payload, &mut offset) {
        Ok(v) => v,
        Err(e) => {
            return Err(e);
        },
    };
    let tx_root = match read_str_u16(payload, &mut offset) {
        Ok(s) => s,
        Err(e) => {
            return Err(e);
        },
    };
    let txs = match read_txs(payload, offset, tx_count) {
        Ok(v) => v,
        Err(e) => {
            return Err(e);
        },
    };
    let header = BlockHeader {
        version,
        chain_id,
        height,
        prev_hash,
        timestamp_ms,
        tx_count,
        tx_root,
    };
    let body = BlockBody { txs };
    Ok(Block { block_id, header, body })
}


proof fn lemma_read_u16_of(x: u16, rest: Seq<u8>)
    ensures
        sp_read_u16(spec_u16_be(x) + rest) == Ok::<_, Seq<char>>((x, rest)),
{
    reveal(sp_read_u16);
    let b = spec_u16_be(x) + rest;
    assert(b.subrange(0, 2) =~= spec_u16_be(x));
    assert(b.skip(2) =~= rest);
    lemma_u16_be_round_trip(x);
}

proof fn lemma_read_u32_of(x: u32, rest: Seq<u8>)
    ensures
        sp_read_u32(spec_u32_be(x) + rest) == Ok::<_, Seq<char>>((x, rest)),
{
    reveal(sp_read_u32);
    let b = spec_u32_be(x) + rest;
    assert(b.subrange(0, 4) =~= spec_u32_be(x));
    assert(b.skip(4) =~= rest);
    lemma_u32_be_round_trip(x);
}

proof fn lemma_read_u64_of(x: u64, rest: Seq<u8>)
    ensures
        sp_read_u64(spec_u64_be(x) + rest) == Ok::<_, Seq<char>>((x, rest)),
{
    reveal(sp_read_u64);
    let b = spec_u64_be(x) + rest;
    assert(b.subrange(0, 8) =~= spec_u64_be(x));
    assert(b.skip(8) =~= rest);
    lemma_u64_be_round_trip(x);
}

proof fn lemma_read_i64_of(x: i64, rest: Seq<u8>)
    ensures
        sp_read_i64(spec_i64_be(x) + rest) == Ok::<_, Seq<char>>((x, rest)),
{
    reveal(sp_read_i64);
    let b = spec_i64_be(x) + rest;
    assert(b.subrange(0, 8) =~= spec_i64_be(x));
    assert(b.skip(8) =~= rest);
    lemma_i64_be_round_trip(x);
}

proof fn lemma_read_str_of(t: Seq<char>, rest: Seq<u8>)
    requires
        str_u16_encodable(t),
    ensures
        sp_read_str(spec_str_u16_bytes(t) + rest) == Ok::<_, Seq<char>>((t, rest)),
{
    reveal(sp_read_str);
    let enc = encode_utf8(t);
    let b = spec_str_u16_bytes(t) + rest;
    assert(b =~= spec_u16_be(enc.len() as u16) + (enc + rest));
    lemma_read_u16_of(enc.len() as u16, enc + rest);
    let r1 = enc + rest;
    assert(r1.len() >= enc.len());
    assert(r1.subrange(0, enc.len() as int) =~= enc);
    assert(r1.skip(enc.len() as int) =~= rest);
    vstd::utf8::encode_utf8_valid_utf8(t);
    vstd::utf8::encode_utf8_decode_utf8(t);
}

/// A transaction as the block codec itself writes it: encodable, with
/// lowercase hex fields.
pub open spec fn block_tx_canonical(t: ValidTxView) -> bool {
    &&& block_tx_encodable(t)
    &&& is_lower_hex(t.tx_hash)
    &&& is_lower_hex(t.pubkey)
    &&& is_lower_hex(t.signature)
}

/// Decoding inverts encoding for one in-block transaction.
#[verifier::rlimit(100)]
pub proof fn lemma_block_tx_round_trip(t: ValidTxView)
    requires
        block_tx_canonical(t),
    ensures
        sp_read_block_tx(spec_block_tx_bytes(t)) == Ok::<_, Seq<char>>(t),
{
    reveal(sp_read_block_tx);
    let hash = spec_hex_decode_or_empty(t.tx_hash);
    let pk = spec_hex_decode_or_empty(t.pubkey);
    let sg = spec_hex_decode_or_empty(t.signature);
    lemma_hex_decode_of(t.tx_hash, hash);
    lemma_hex_decode_of(t.pubkey, pk);
    lemma_hex_decode_of(t.signature, sg);
    let b = spec_block_tx_bytes(t);
    let r7 = pk + sg;
    let r6 = spec_u64_be(t.timestamp) + r7;
    let r5 = spec_u64_be(t.nonce) + r6;
    let r4 = spec_u64_be(t.fee) + r5;
    let r3 = spec_u64_be(t.amount) + r4;
    let r2 = spec_str_u16_bytes(t.token) + r3;
    let r1 = spec_str_u16_bytes(t.to) + r2;
    assert(b == hash + (seq![1u8] + (spec_str_u16_bytes(t.from) + r1)));
    assert(b.len() >= 33);
    assert(b.subrange(0, 32) =~= hash);
    assert(b[32] == 1);
    assert(b.skip(33) =~= spec_str_u16_bytes(t.from) + r1);
    lemma_read_str_of(t.from, r1);
    lemma_read_str_of(t.to, r2);
    lemma_read_str_of(t.token, r3);
    lemma_read_u64_of(t.amount, r4);
    lemma_read_u64_of(t.fee, r5);
    lemma_read_u64_of(t.nonce, r6);
    lemma_read_u64_of(t.timestamp, r7);
    assert(r7.len() == 98);
    assert(r7.subrange(0, 33) =~= pk);
    assert(r7.skip(33) =~= sg);
    assert(sg.subrange(0, 65) =~= sg);
}

/// Decoding inverts encoding for a run of length-prefixed transactions,
/// whatever follows them.
pub proof fn lemma_read_txs_of(txs: Seq<ValidTxView>, rest: Seq<u8>)
    requires
        forall|i: int| 0 <= i < txs.len() ==> block_tx_canonical(#[trigger] txs[i]),
    ensures
        sp_read_txs(spec_block_txs_bytes(txs) + rest, txs.len()) == Ok::<_, Seq<char>>(
            (txs, rest),
        ),
    decreases txs.len(),
{
    if txs.len() == 0 {
        assert(spec_block_txs_bytes(txs) + rest =~= rest);
        assert(txs =~= Seq::<ValidTxView>::empty());
    } else {
        let t0 = txs[0];
        let t0b = spec_block_tx_bytes(t0);
        let tail = spec_block_txs_bytes(txs.drop_first()) + rest;
        let b = spec_block_txs_bytes(txs) + rest;
        assert(t0b.len() >= 163);
        assert(t0b.len() <= 33 + 3 * 65537 + 32 + 98) by {
            assert(encode_utf8(t0.from).len() <= 0xffff);
            assert(encode_utf8(t0.to).len() <= 0xffff);
            assert(encode_utf8(t0.token).len() <= 0xffff);
        }
        assert(b =~= spec_u32_be(t0b.len() as u32) + (t0b + tail)) by {
            assert(b == (spec_u32_be(t0b.len() as u32) + (t0b + spec_block_txs_bytes(
                txs.drop_first(),
            ))) + rest);
        }
        lemma_read_u32_of(t0b.len() as u32, t0b + tail);
        assert((t0b + tail).len() >= t0b.len());
        assert((t0b + tail).subrange(0, t0b.len() as int) =~= t0b);
        lemma_block_tx_round_trip(t0);
        assert((t0b + tail).skip(t0b.len() as int) =~= tail);
        lemma_read_txs_of(txs.drop_first(), rest);
        assert(seq![t0] + txs.drop_first() =~= txs);
    }
}

/// Decoding inverts encoding: decoding the frame of any encodable block
/// whose transactions are canonical yields the block back.
#[verifier::rlimit(100)]
pub proof fn lemma_block_round_trip(b: BlockView)
    requires
        block_encodable(b),
        forall|i: int| 0 <= i < b.body.txs.len() ==> block_tx_canonical(#[trigger] b.body.txs[i]),
    ensures
        spec_decode_block(spec_block_bytes(b)) == Ok::<_, Seq<char>>(b),
{
    let payload = spec_block_payload(b);
    let data = spec_block_bytes(b);
    assert(data.len() == 9 + payload.len());
    assert(data.subrange(0, 4) =~= spec_magic());
    assert(data[4] == 7);
    assert(data.subrange(5, 9) =~= spec_u32_be(payload.len() as u32));
    lemma_u32_be_round_trip(payload.len() as u32);
    assert(spec_u32_from_be(data.subrange(5, 9)) == payload.len());
    assert(data.subrange(9, 9 + payload.len() as int) =~= payload);
    let r8 = spec_block_txs_bytes(b.body.txs);
    let r7 = spec_str_u16_bytes(b.header.tx_root) + r8;
    let r6 = spec_u32_be(b.header.tx_count) + r7;
    let r5 = spec_i64_be(b.header.timestamp_ms) + r6;
    let r4 = spec_str_u16_bytes(b.header.prev_hash) + r5;
    let r3 = spec_u64_be(b.header.height) + r4;
    let r2 = spec_str_u16_bytes(b.header.chain_id) + r3;
    let r1 = spec_str_u16_bytes(b.header.version) + r2;
    assert(payload == spec_str_u16_bytes(b.block_id) + r1);
    lemma_read_str_of(b.block_id, r1);
    lemma_read_str_of(b.header.version, r2);
    lemma_read_str_of(b.header.chain_id, r3);
    lemma_read_u64_of(b.header.height, r4);
    lemma_read_str_of(b.header.prev_hash, r5);
    lemma_read_i64_of(b.header.timestamp_ms, r6);
    lemma_read_u32_of(b.header.tx_count, r7);
    lemma_read_str_of(b.header.tx_root, r8);
    assert(r8 =~= spec_block_txs_bytes(b.body.txs) + Seq::<u8>::empty());
    lemma_read_txs_of(b.body.txs, Seq::<u8>::empty());
}

} // verus!
