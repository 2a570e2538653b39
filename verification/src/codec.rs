//! The binary wire codec: the fixed 269-byte raw transaction layout and
//! the length-prefixed control messages, each with an exact specification
//! and a decode-of-encode round-trip lemma.

use vstd::prelude::*;
use vstd::utf8::{decode_utf8, encode_utf8, valid_utf8};

use crate::bytes_be::{
    lemma_u64_be_round_trip, read_u64_at, spec_u16_be, spec_u16_from_be, spec_u64_be,
    spec_u64_from_be, push_u16_be, push_u64_be,
};
use crate::hex::{
    bytes_to_hex, hex_to_bytes, is_lower_hex, lemma_hex_decode_of,
    spec_hex_decode, spec_hex_err, spec_hex_of,
};
use crate::strutil::str_eq;
use crate::tx::{Tx, TxView};

verus! {

/// The four magic bytes that open every wire message.
pub open spec fn spec_magic() -> Seq<u8> {
    seq![0x46u8, 0x47u8, 0x58u8, 0x31u8]
}

/// The wire byte of a transaction type name: 1 for the one supported
/// kind, 0 otherwise.
pub open spec fn spec_tx_type_code(s: Seq<char>) -> u8 {
    if s == "transfer"@ {
        1
    } else {
        0
    }
}

/// The transaction type name of a wire byte.
pub open spec fn spec_tx_type_name(b: u8) -> Seq<char> {
    if b == 1 {
        "transfer"@
    } else {
        "unknown"@
    }
}

/// The wire byte of a token name: 1 for the one supported asset, 0
/// otherwise.
pub open spec fn spec_token_code(s: Seq<char>) -> u8 {
    if s == "GLD"@ {
        1
    } else {
        0
    }
}

/// The token name of a wire byte.
pub open spec fn spec_token_name(b: u8) -> Seq<char> {
    if b == 1 {
        "GLD"@
    } else {
        "UNKNOWN"@
    }
}

/// The bytes a hex field stands for, or empty when it does not decode.
pub open spec fn spec_hex_decode_or_empty(h: Seq<char>) -> Seq<u8> {
    match spec_hex_decode(h) {
        Some(bs) => bs,
        None => seq![],
    }
}

/// Holds when every field of `v` fits the fixed raw-transaction layout:
/// the string fields have the required UTF-8 byte widths and the hex
/// fields decode to 33 and 65 bytes.
pub open spec fn raw_tx_encodable(v: TxView) -> bool {
    &&& encode_utf8(v.domain_tag).len() == 9
    &&& encode_utf8(v.chain_id).len() == 9
    &&& encode_utf8(v.from).len() == 56
    &&& encode_utf8(v.to).len() == 56
    &&& spec_hex_decode(v.pubkey) is Some
    &&& spec_hex_decode_or_empty(v.pubkey).len() == 33
    &&& spec_hex_decode(v.signature) is Some
    &&& spec_hex_decode_or_empty(v.signature).len() == 65
    &&& encode_utf8(v.encoding).len() == 7
}

/// The canonical 269-byte raw encoding of a transaction.
pub open spec fn spec_raw_tx_bytes(v: TxView) -> Seq<u8> {
    encode_utf8(v.domain_tag) + encode_utf8(v.chain_id) + seq![spec_tx_type_code(v.tx_type)]
        + encode_utf8(v.from) + encode_utf8(v.to) + seq![spec_token_code(v.token)] + spec_u64_be(
        v.amount,
    ) + spec_u64_be(v.fee) + spec_u64_be(v.nonce) + spec_u64_be(v.timestamp)
        + spec_hex_decode_or_empty(v.pubkey) + spec_hex_decode_or_empty(v.signature) + encode_utf8(
        v.encoding,
    )
}

/// The error of an unencodable transaction: the first field, in layout
/// order, that does not fit.
pub open spec fn spec_make_raw_tx_err(v: TxView) -> Seq<char>
    recommends
        !raw_tx_encodable(v),
{
    if encode_utf8(v.domain_tag).len() != 9 {
        "domain_tag must be 9 bytes"@
    } else if encode_utf8(v.chain_id).len() != 9 {
        "chain_id must be 9 bytes"@
    } else if encode_utf8(v.from).len() != 56 {
        "from must be 56 bytes"@
    } else if encode_utf8(v.to).len() != 56 {
        "to must be 56 bytes"@
    } else if spec_hex_decode(v.pubkey) is None {
        spec_hex_err(v.pubkey)
    } else if spec_hex_decode_or_empty(v.pubkey).len() != 33 {
        "pubkey must be 33 bytes"@
    } else if spec_hex_decode(v.signature) is None {
        spec_hex_err(v.signature)
    } else if spec_hex_decode_or_empty(v.signature).len() != 65 {
        "signature must be 65 bytes"@
    } else {
        "encoding must be 7 bytes"@
    }
}

/// Appends all of `s` to `buf`.
pub fn push_bytes(buf: &mut Vec<u8>, s: &[u8])
    ensures
        final(buf)@ == old(buf)@ + s@,
{
    let n = s.len();
    for i in 0..n
        invariant
            n == s@.len(),
            buf@ =~= old(buf)@ + s@.subrange(0, i as int),
    {
        buf.push(s[i]);
        assert(s@.subrange(0, i as int).push(s@[i as int]) =~= s@.subrange(0, i + 1));
    }
    assert(s@.subrange(0, n as int) =~= s@);
}

/// Appends the UTF-8 bytes of `s` to `buf` when they are exactly `want`
/// bytes long; otherwise leaves `buf` unchanged.
fn push_fixed_str(buf: &mut Vec<u8>, s: &str, want: usize) -> (ok: bool)
    ensures
        ok == (encode_utf8(s@).len() == want),
        ok ==> final(buf)@ == old(buf)@ + encode_utf8(s@),
        !ok ==> final(buf)@ == old(buf)@,
{
    let bytes = s.as_bytes();
    if bytes.len() != want {
        return false;
    }
    push_bytes(buf, bytes);
    true
}

/// The wire byte of a transaction type name.
pub fn tx_type_byte(s: &str) -> (b: u8)
    ensures
        b == spec_tx_type_code(s@),
{
    if str_eq(s, "transfer") {
        1
    } else {
        0
    }
}

/// The wire byte of a token name.
pub fn token_byte(s: &str) -> (b: u8)
    ensures
        b == spec_token_code(s@),
{
    if str_eq(s, "GLD") {
        1
    } else {
        0
    }
}

/// The transaction type name of a wire byte.
pub fn tx_type_from_byte(b: u8) -> (s: String)
    ensures
        s@ == spec_tx_type_name(b),
{
    if b == 1 {
        String::from_str("transfer")
    } else {
        String::from_str("unknown")
    }
}

/// The token name of a wire byte.
pub fn token_from_byte(b: u8) -> (s: String)
    ensures
        s@ == spec_token_name(b),
{
    if b == 1 {
        String::from_str("GLD")
    } else {
        String::from_str("UNKNOWN")
    }
}

/// Builds the canonical 269-byte raw encoding of a transaction.
/// Succeeds exactly when every field fits the fixed layout.
pub fn make_raw_tx(tx: &Tx) -> (r: Result<Vec<u8>, String>)
    ensures
        (r is Ok) == raw_tx_encodable(tx@),
        r matches Ok(buf) ==> buf@ == spec_raw_tx_bytes(tx@) && buf@.len() == 269,
        r matches Err(e) ==> e@ == spec_make_raw_tx_err(tx@),
{
    let mut buf: Vec<u8> = Vec::new();
    if !push_fixed_str(&mut buf, tx.domain_tag.as_str(), 9) {
        return Err(String::from_str("domain_tag must be 9 bytes"));
    }
    if !push_fixed_str(&mut buf, tx.chain_id.as_str(), 9) {
        return Err(String::from_str("chain_id must be 9 bytes"));
    }
    buf.push(tx_type_byte(tx.tx_type.as_str()));
    if !push_fixed_str(&mut buf, tx.from.as_str(), 56) {
        return Err(String::from_str("from must be 56 bytes"));
    }
    if !push_fixed_str(&mut buf, tx.to.as_str(), 56) {
        return Err(String::from_str("to must be 56 bytes"));
    }
    buf.push(token_byte(tx.token.as_str()));
    push_u64_be(&mut buf, tx.amount);
    push_u64_be(&mut buf, tx.fee);
    push_u64_be(&mut buf, tx.nonce);
    push_u64_be(&mut buf, tx.timestamp);
    let pubkey_bytes = match hex_to_bytes(tx.pubkey.as_str()) {
        Ok(v) => v,
        Err(e) => {
            return Err(e);
        },
    };
    if pubkey_bytes.len() != 33 {
        return Err(String::from_str("pubkey must be 33 bytes"));
    }
    push_bytes(&mut buf, pubkey_bytes.as_slice());
    let sig_bytes = match hex_to_bytes(tx.signature.as_str()) {
        Ok(v) => v,
        Err(e) => {
            return Err(e);
        },
    };
    if sig_bytes.len() != 65 {
        return Err(String::from_str("signature must be 65 bytes"));
    }
    push_bytes(&mut buf, sig_bytes.as_slice());
    if !push_fixed_str(&mut buf, tx.encoding.as_str(), 7) {
        return Err(String::from_str("encoding must be 7 bytes"));
    }
    proof {
        assert(buf@ =~= spec_raw_tx_bytes(tx@));
    }
    Ok(buf)
}

/// Holds when a 269-byte buffer parses as a raw transaction: every
/// fixed-width string chunk is valid UTF-8.
pub open spec fn spec_raw_tx_parses(raw: Seq<u8>) -> bool {
    &&& raw.len() == 269
    &&& valid_utf8(raw.subrange(0, 9))
    &&& valid_utf8(raw.subrange(9, 18))
    &&& valid_utf8(raw.subrange(19, 75))
    &&& valid_utf8(raw.subrange(75, 131))
    &&& valid_utf8(raw.subrange(262, 269))
}

/// The transaction a well-formed 269-byte buffer stands for.  Its
/// `tx_hash` is empty: the hash travels beside the raw bytes and is
/// filled in by the message decoder.
pub open spec fn spec_parse_raw_tx(raw: Seq<u8>) -> TxView
    recommends
        spec_raw_tx_parses(raw),
{
    TxView {
        tx_hash: Seq::empty(),
        domain_tag: decode_utf8(raw.subrange(0, 9)),
        chain_id: decode_utf8(raw.subrange(9, 18)),
        tx_type: spec_tx_type_name(raw[18]),
        from: decode_utf8(raw.subrange(19, 75)),
        to: decode_utf8(raw.subrange(75, 131)),
        token: spec_token_name(raw[131]),
        amount: spec_u64_from_be(raw.subrange(132, 140)),
        fee: spec_u64_from_be(raw.subrange(140, 148)),
        nonce: spec_u64_from_be(raw.subrange(148, 156)),
        timestamp: spec_u64_from_be(raw.subrange(156, 164)),
        pubkey: spec_hex_of(raw.subrange(164, 197)),
        signature: spec_hex_of(raw.subrange(197, 262)),
        encoding: decode_utf8(raw.subrange(262, 269)),
    }
}

/// The error of an unparsable raw-transaction buffer: a wrong total
/// length, else the first string chunk that is not valid UTF-8.
pub open spec fn spec_parse_raw_tx_err(raw: Seq<u8>) -> Seq<char>
    recommends
        !spec_raw_tx_parses(raw),
{
    if raw.len() != 269 {
        "raw_tx must be 269 bytes"@
    } else if !valid_utf8(raw.subrange(0, 9)) {
        "invalid utf-8 in domain_tag"@
    } else if !valid_utf8(raw.subrange(9, 18)) {
        "invalid utf-8 in chain_id"@
    } else if !valid_utf8(raw.subrange(19, 75)) {
        "invalid utf-8 in from"@
    } else if !valid_utf8(raw.subrange(75, 131)) {
        "invalid utf-8 in to"@
    } else {
        "invalid utf-8 in encoding"@
    }
}

/// Reads one fixed-width UTF-8 string chunk out of `raw`.
fn parse_fixed_utf8(raw: &[u8], start: usize, end: usize) -> (r: Option<String>)
    requires
        start <= end <= raw@.len(),
    ensures
        (r is Some) == valid_utf8(raw@.subrange(start as int, end as int)),
        r matches Some(s) ==> s@ == decode_utf8(raw@.subrange(start as int, end as int)),
{
    let chunk = vstd::slice::slice_subrange(raw, start, end);
    let v = vstd::slice::slice_to_vec(chunk);
    crate::strutil::string_from_utf8(v)
}

/// Parses a fixed 269-byte raw transaction.  Succeeds exactly when the
/// buffer has that length and its string chunks are valid UTF-8.
pub fn parse_raw_tx(raw: &[u8]) -> (r: Result<Tx, String>)
    ensures
        (r is Ok) == spec_raw_tx_parses(raw@),
        r matches Ok(tx) ==> tx@ == spec_parse_raw_tx(raw@),
        r matches Err(e) ==> e@ == spec_parse_raw_tx_err(raw@),
{
    if raw.len() != 269 {
        return Err(String::from_str("raw_tx must be 269 bytes"));
    }
    let domain_tag = match parse_fixed_utf8(raw, 0, 9) {
        Some(s) => s,
        None => {
            return Err(String::from_str("invalid utf-8 in domain_tag"));
        },
    };
    let chain_id = match parse_fixed_utf8(raw, 9, 18) {
        Some(s) => s,
        None => {
            return Err(String::from_str("invalid utf-8 in chain_id"));
        },
    };
    let tx_type = tx_type_from_byte(raw[18]);
    let from = match parse_fixed_utf8(raw, 19, 75) {
        Some(s) => s,
        None => {
            return Err(String::from_str("invalid utf-8 in from"));
        },
    };
    let to = match parse_fixed_utf8(raw, 75, 131) {
        Some(s) => s,
        None => {
            return Err(String::from_str("invalid utf-8 in to"));
        },
    };
    let token = token_from_byte(raw[131]);
    let amount = read_u64_at(raw, 132);
    let fee = read_u64_at(raw, 140);
    let nonce = read_u64_at(raw, 148);
    let timestamp = read_u64_at(raw, 156);
    let pubkey = bytes_to_hex(vstd::slice::slice_subrange(raw, 164, 197));
    let signature = bytes_to_hex(vstd::slice::slice_subrange(raw, 197, 262));
    let encoding = match parse_fixed_utf8(raw, 262, 269) {
        Some(s) => s,
        None => {
            return Err(String::from_str("invalid utf-8 in encoding"));
        },
    };
    Ok(
        Tx {
            tx_hash: String::new(),
            domain_tag,
            chain_id,
            tx_type,
            from,
            to,
            token,
            amount,
            fee,
            nonce,
            timestamp,
            pubkey,
            signature,
            encoding,
        },
    )
}

/// Decoding inverts encoding: parsing the canonical raw encoding of any
/// encodable transaction recovers every field, with the hash slot left
/// empty.  The type and token names must be canonical wire names and the
/// hex fields lowercase, as every wire-decoded transaction has them.
pub proof fn lemma_raw_tx_round_trip(v: TxView)
    requires
        raw_tx_encodable(v),
        v.tx_type == "transfer"@ || v.tx_type == "unknown"@,
        v.token == "GLD"@ || v.token == "UNKNOWN"@,
        is_lower_hex(v.pubkey),
        is_lower_hex(v.signature),
    ensures
        spec_raw_tx_parses(spec_raw_tx_bytes(v)),
        spec_parse_raw_tx(spec_raw_tx_bytes(v)) == (TxView { tx_hash: Seq::empty(), ..v }),
{
    let raw = spec_raw_tx_bytes(v);
    let pk = spec_hex_decode_or_empty(v.pubkey);
    let sg = spec_hex_decode_or_empty(v.signature);
    assert(raw.len() == 269);
    assert(raw.subrange(0, 9) =~= encode_utf8(v.domain_tag));
    assert(raw.subrange(9, 18) =~= encode_utf8(v.chain_id));
    assert(raw[18] == spec_tx_type_code(v.tx_type));
    assert(raw.subrange(19, 75) =~= encode_utf8(v.from));
    assert(raw.subrange(75, 131) =~= encode_utf8(v.to));
    assert(raw[131] == spec_token_code(v.token));
    assert(raw.subrange(132, 140) =~= spec_u64_be(v.amount));
    assert(raw.subrange(140, 148) =~= spec_u64_be(v.fee));
    assert(raw.subrange(148, 156) =~= spec_u64_be(v.nonce));
    assert(raw.subrange(156, 164) =~= spec_u64_be(v.timestamp));
    assert(raw.subrange(164, 197) =~= pk);
    assert(raw.subrange(197, 262) =~= sg);
    assert(raw.subrange(262, 269) =~= encode_utf8(v.encoding));
    vstd::utf8::encode_utf8_valid_utf8(v.domain_tag);
    vstd::utf8::encode_utf8_valid_utf8(v.chain_id);
    vstd::utf8::encode_utf8_valid_utf8(v.from);
    vstd::utf8::encode_utf8_valid_utf8(v.to);
    vstd::utf8::encode_utf8_valid_utf8(v.encoding);
    vstd::utf8::encode_utf8_decode_utf8(v.domain_tag);
    vstd::utf8::encode_utf8_decode_utf8(v.chain_id);
    vstd::utf8::encode_utf8_decode_utf8(v.from);
    vstd::utf8::encode_utf8_decode_utf8(v.to);
    vstd::utf8::encode_utf8_decode_utf8(v.encoding);
    lemma_u64_be_round_trip(v.amount);
    lemma_u64_be_round_trip(v.fee);
    lemma_u64_be_round_trip(v.nonce);
    lemma_u64_be_round_trip(v.timestamp);
    lemma_hex_decode_of(v.pubkey, pk);
    lemma_hex_decode_of(v.signature, sg);
    reveal_strlit("transfer");
    reveal_strlit("unknown");
    reveal_strlit("GLD");
    reveal_strlit("UNKNOWN");
    assert(spec_tx_type_name(spec_tx_type_code(v.tx_type)) == v.tx_type);
    assert(spec_token_name(spec_token_code(v.token)) == v.token);
}

/// What an inbound control message asks for.
#[derive(Debug)]
pub enum Decoded {
    Tx(Tx),
    AskBalance(String, String),
    AskNonce(String),
}

/// The mathematical value of a [`Decoded`] message.
pub ghost enum DecodedView {
    Tx(TxView),
    AskBalance(Seq<char>, Seq<char>),
    AskNonce(Seq<char>),
}

impl View for Decoded {
    type V = DecodedView;

    open spec fn view(&self) -> DecodedView {
        match self {
            Decoded::Tx(tx) => DecodedView::Tx(tx@),
            Decoded::AskBalance(a, t) => DecodedView::AskBalance(a@, t@),
            Decoded::AskNonce(a) => DecodedView::AskNonce(a@),
        }
    }
}

/// What decoding an inbound control frame yields: the request it
/// carries, or the exact rejection text.
pub open spec fn spec_decode_message(m: Seq<u8>) -> Result<DecodedView, Seq<char>> {
    if m.len() < 7 {
        Err("too short"@)
    } else if m.subrange(0, 4) != spec_magic() {
        Err("invalid magic"@)
    } else if m.len() != 7 + spec_u16_from_be(m.subrange(5, 7)) {
        Err("wrong length"@)
    } else {
        let t = m[4];
        let payload = m.skip(7);
        if t == 1 {
            spec_decode_send_tx(payload)
        } else if t == 3 {
            spec_decode_ask_balance(payload)
        } else if t == 5 {
            spec_decode_ask_nonce(payload)
        } else {
            Err("unsupported msg type"@)
        }
    }
}

/// Decodes a SEND_TX payload: a 32-byte hash beside the 269-byte raw
/// transaction.
pub open spec fn spec_decode_send_tx(payload: Seq<u8>) -> Result<DecodedView, Seq<char>> {
    if payload.len() != 301 {
        Err("invalid tx payload"@)
    } else if !spec_raw_tx_parses(payload.skip(32)) {
        Err(spec_parse_raw_tx_err(payload.skip(32)))
    } else {
        Ok(
            DecodedView::Tx(
                TxView {
                    tx_hash: spec_hex_of(payload.subrange(0, 32)),
                    ..spec_parse_raw_tx(payload.skip(32))
                },
            ),
        )
    }
}

/// Decodes an ASK_BALANCE payload: a 56-byte address beside a 3-byte
/// token name; anything after the first 59 bytes is ignored.
pub open spec fn spec_decode_ask_balance(payload: Seq<u8>) -> Result<DecodedView, Seq<char>> {
    if payload.len() < 59 {
        Err("AskBalance payload too short"@)
    } else if !valid_utf8(payload.subrange(0, 56)) {
        Err("invalid utf-8 in address"@)
    } else if !valid_utf8(payload.subrange(56, 59)) {
        Err("invalid utf-8 in token"@)
    } else {
        Ok(
            DecodedView::AskBalance(
                decode_utf8(payload.subrange(0, 56)),
                decode_utf8(payload.subrange(56, 59)),
            ),
        )
    }
}

/// Decodes an ASK_NONCE payload: exactly a 56-byte address.
pub open spec fn spec_decode_ask_nonce(payload: Seq<u8>) -> Result<DecodedView, Seq<char>> {
    if payload.len() != 56 {
        Err("invalid ask_nonce payload"@)
    } else if !valid_utf8(payload) {
        Err("invalid utf8 addr"@)
    } else {
        Ok(DecodedView::AskNonce(decode_utf8(payload)))
    }
}

/// Decodes one inbound control frame: magic, type byte, 16-bit length,
/// payload.  Returns the request it carries or the exact rejection text
/// that [`spec_decode_message`] gives.
pub fn decode_message(msg: &[u8]) -> (r: Result<Decoded, String>)
    ensures
        match (r, spec_decode_message(msg@)) {
            (Ok(d), Ok(dv)) => d@ == dv,
            (Err(e), Err(me)) => e@ == me,
            _ => false,
        },
{
    if msg.len() < 7 {
        return Err(String::from_str("too short"));
    }
    if msg[0] != 0x46 || msg[1] != 0x47 || msg[2] != 0x58 || msg[3] != 0x31 {
        proof {
            assert(msg@.subrange(0, 4) != spec_magic());
        }
        return Err(String::from_str("invalid magic"));
    }
    proof {
        assert(msg@.subrange(0, 4) =~= spec_magic());
    }
    let msg_type = msg[4];
    let payload_len = crate::bytes_be::read_u16_at(msg, 5) as usize;
    if msg.len() != 7 + payload_len {
        return Err(String::from_str("wrong length"));
    }
    let payload = vstd::slice::slice_subrange(msg, 7, msg.len());
    proof {
        assert(payload@ =~= msg@.skip(7));
    }
    if msg_type == 1 {
        if payload.len() != 301 {
            return Err(String::from_str("invalid tx payload"));
        }
        let tx_hash = bytes_to_hex(vstd::slice::slice_subrange(payload, 0, 32));
        let raw_tx = vstd::slice::slice_subrange(payload, 32, 301);
        proof {
            assert(raw_tx@ =~= payload@.skip(32));
        }
        let mut tx = match parse_raw_tx(raw_tx) {
            Ok(tx) => tx,
            Err(e) => {
                return Err(e);
            },
        };
        tx.tx_hash = tx_hash;
        Ok(Decoded::Tx(tx))
    } else if msg_type == 3 {
        if payload.len() < 59 {
            return Err(String::from_str("AskBalance payload too short"));
        }
        let addr = match parse_fixed_utf8(payload, 0, 56) {
            Some(s) => s,
            None => {
                return Err(String::from_str("invalid utf-8 in address"));
            },
        };
        let token = match parse_fixed_utf8(payload, 56, 59) {
            Some(s) => s,
            None => {
                return Err(String::from_str("invalid utf-8 in token"));
            },
        };
        Ok(Decoded::AskBalance(addr, token))
    } else if msg_type == 5 {
        if payload.len() != 56 {
            return Err(String::from_str("invalid ask_nonce payload"));
        }
        proof {
            assert(payload@.subrange(0, 56) =~= payload@);
        }
        let addr = match parse_fixed_utf8(payload, 0, 56) {
            Some(s) => s,
            None => {
                return Err(String::from_str("invalid utf8 addr"));
            },
        };
        Ok(Decoded::AskNonce(addr))
    } else {
        Err(String::from_str("unsupported msg type"))
    }
}

/// A control frame: magic, type byte, 16-bit big-endian payload length,
/// payload.
pub open spec fn spec_control_msg(t: u8, payload: Seq<u8>) -> Seq<u8>
    recommends
        payload.len() <= 0xffff,
{
    spec_magic() + seq![t] + spec_u16_be(payload.len() as u16) + payload
}

/// Frames a payload as a control message of the given type.  A payload
/// beyond the 16-bit range has its declared length truncated, exactly as
/// [`spec_control_msg`] states.
fn control_msg(t: u8, payload: &[u8]) -> (r: Vec<u8>)
    ensures
        r@ == spec_control_msg(t, payload@),
{
    let mut buf: Vec<u8> = Vec::new();
    buf.push(0x46);
    buf.push(0x47);
    buf.push(0x58);
    buf.push(0x31);
    buf.push(t);
    push_u16_be(&mut buf, #[verifier::truncate] (payload.len() as u16));
    push_bytes(&mut buf, payload);
    proof {
        assert(buf@ =~= spec_control_msg(t, payload@));
    }
    buf
}

/// The TX_RESULT frame that reports acceptance.
pub fn make_tx_response() -> (r: Vec<u8>)
    ensures
        r@ == spec_control_msg(2, encode_utf8("ACCEPTED"@)),
{
    proof {
        reveal_strlit("ACCEPTED");
        assert(vstd::utf8::is_ascii_chars("ACCEPTED"@));
        vstd::utf8::is_ascii_chars_encode_utf8("ACCEPTED"@);
    }
    control_msg(2, "ACCEPTED".as_bytes())
}

/// The TX_RESULT frame that reports a rejection reason.
pub fn make_tx_reject_response(reason: &str) -> (r: Vec<u8>)
    ensures
        r@ == spec_control_msg(2, encode_utf8(reason@)),
{
    control_msg(2, reason.as_bytes())
}

/// The BALANCE_RESPONSE frame: the balance beside the queried address.
pub fn make_balance_response(balance: u64, address: &str) -> (r: Vec<u8>)
    requires
        encode_utf8(address@).len() == 56,
    ensures
        r@ == spec_control_msg(4, spec_u64_be(balance) + encode_utf8(address@)),
{
    let mut payload: Vec<u8> = Vec::new();
    push_u64_be(&mut payload, balance);
    push_bytes(&mut payload, address.as_bytes());
    control_msg(4, payload.as_slice())
}

/// The NONCE_RESPONSE frame: the nonce beside the queried address.
pub fn make_nonce_response(nonce: u64, address: &str) -> (r: Vec<u8>)
    requires
        encode_utf8(address@).len() == 56,
    ensures
        r@ == spec_control_msg(6, spec_u64_be(nonce) + encode_utf8(address@)),
{
    let mut payload: Vec<u8> = Vec::new();
    push_u64_be(&mut payload, nonce);
    push_bytes(&mut payload, address.as_bytes());
    control_msg(6, payload.as_slice())
}

/// Frames a 269-byte raw transaction as a SEND_TX message, with its
/// SHA-256 hash ahead of it.
pub fn send_tx(raw_tx: &[u8]) -> (r: Result<Vec<u8>, String>)
    ensures
        (r is Ok) == (raw_tx@.len() == 269),
        r matches Ok(b) ==> b@ == spec_control_msg(
            1,
            crate::crypto::spec_sha256(raw_tx@) + raw_tx@,
        ) && b@.len() == 308,
        r matches Err(e) ==> e@ == "raw_tx must be 269 bytes"@,
{
    if raw_tx.len() != 269 {
        return Err(String::from_str("raw_tx must be 269 bytes"));
    }
    let tx_hash = crate::crypto::sha256(raw_tx);
    let mut payload: Vec<u8> = Vec::new();
    push_bytes(&mut payload, tx_hash.as_slice());
    push_bytes(&mut payload, raw_tx);
    Ok(control_msg(1, payload.as_slice()))
}

/// Frames an ASK_NONCE request for a 56-byte address.
pub fn ask_nonce(address: &str) -> (r: Result<Vec<u8>, String>)
    ensures
        (r is Ok) == (encode_utf8(address@).len() == 56),
        r matches Ok(b) ==> b@ == spec_control_msg(5, encode_utf8(address@)),
        r matches Err(e) ==> e@ == "address must be 56 bytes utf-8"@,
{
    let addr_bytes = address.as_bytes();
    if addr_bytes.len() != 56 {
        return Err(String::from_str("address must be 56 bytes utf-8"));
    }
    Ok(control_msg(5, addr_bytes))
}

/// Frames an ASK_BALANCE request: a 56-byte address beside a 3-byte
/// token name, the canonical 59-byte payload.
pub fn ask_balance(address: &str, token: &str) -> (r: Result<Vec<u8>, String>)
    ensures
        (r is Ok) == (encode_utf8(address@).len() == 56 && encode_utf8(token@).len() == 3),
        r matches Ok(b) ==> b@ == spec_control_msg(3, encode_utf8(address@) + encode_utf8(token@)),
        r matches Err(e) ==> e@ == if encode_utf8(address@).len() != 56 {
            "address must be 56 bytes utf-8"@
        } else {
            "token must be 3 bytes utf-8"@
        },
{
    let addr_bytes = address.as_bytes();
    if addr_bytes.len() != 56 {
        return Err(String::from_str("address must be 56 bytes utf-8"));
    }
    let token_bytes = token.as_bytes();
    if token_bytes.len() != 3 {
        return Err(String::from_str("token must be 3 bytes utf-8"));
    }
    let mut payload: Vec<u8> = Vec::new();
    push_bytes(&mut payload, addr_bytes);
    push_bytes(&mut payload, token_bytes);
    Ok(control_msg(3, payload.as_slice()))
}

} // verus!
