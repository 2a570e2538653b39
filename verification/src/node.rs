//! The node's message handler: decode an inbound frame, then validate
//! and pool a submitted transaction or answer a balance or nonce query,
//! and encode the response.  Only transactions the validator accepts
//! ever reach the mempool.

use vstd::prelude::*;
use vstd::utf8::encode_utf8;

use crate::codec::{
    decode_message, make_balance_response, make_nonce_response, make_tx_reject_response,
    make_tx_response, spec_control_msg, spec_decode_message, Decoded, DecodedView,
};
use crate::mempool::{
    mempool_add_tx, spec_from_nonce_idx, spec_has_from_nonce, spec_has_hash, Mempool,
};
use crate::state::{balance, nonce, spec_lookup_balance, spec_lookup_nonce, ChainState};
use crate::tx::spec_core_of;
use crate::validate::{spec_validate, validate_tx};
use crate::bytes_be::spec_u64_be;

verus! {

/// Handles one inbound message against the ledger and the pool, at the
/// clock value `now_ms`, and returns the response bytes.  A submitted
/// transaction enters the pool only when every validation stage passes;
/// a rejected one leaves the pool untouched and its exact reason goes
/// back to the peer.  An undecodable frame gets the fixed error bytes.
pub fn handle_message(
    state: &ChainState,
    mempool: &mut Mempool,
    now_ms: i64,
    msg: &[u8],
) -> (r: Vec<u8>)
    requires
        state.wf(),
        old(mempool).wf(),
    ensures
        final(mempool).wf(),
        // every entry is either inherited or a transaction the validator accepted
        forall|j: int|
            0 <= j < final(mempool)@.len() ==> old(mempool)@.contains(#[trigger] final(mempool)@[j])
                || (spec_decode_message(msg@) matches Ok(DecodedView::Tx(tv)) && final(mempool)@[j]
                == spec_core_of(tv) && spec_validate(tv, now_ms) is Ok),
        match spec_decode_message(msg@) {
            Ok(DecodedView::Tx(tv)) => match spec_validate(tv, now_ms) {
                Ok(_) => {
                    let t = spec_core_of(tv);
                    &&& r@ == spec_control_msg(2, encode_utf8("ACCEPTED"@))
                    &&& spec_has_hash(old(mempool)@, t.tx_hash) ==> final(mempool)@ == old(
                        mempool,
                    )@
                    &&& (!spec_has_hash(old(mempool)@, t.tx_hash) && !spec_has_from_nonce(
                        old(mempool)@,
                        t.from,
                        t.nonce,
                    )) ==> final(mempool)@ == old(mempool)@.push(t)
                    &&& (!spec_has_hash(old(mempool)@, t.tx_hash) && spec_has_from_nonce(
                        old(mempool)@,
                        t.from,
                        t.nonce,
                    ) && t.fee <= old(mempool)@[spec_from_nonce_idx(old(mempool)@, t.from, t.nonce)].fee)
                        ==> final(mempool)@ == old(mempool)@
                    &&& (!spec_has_hash(old(mempool)@, t.tx_hash) && spec_has_from_nonce(
                        old(mempool)@,
                        t.from,
                        t.nonce,
                    ) && t.fee > old(mempool)@[spec_from_nonce_idx(old(mempool)@, t.from, t.nonce)].fee)
                        ==> final(mempool)@ == old(mempool)@.remove(
                        spec_from_nonce_idx(old(mempool)@, t.from, t.nonce),
                    ).push(t)
                },
                Err(e) => r@ == spec_control_msg(2, encode_utf8(e)) && final(mempool)@ == old(
                    mempool,
                )@,
            },
            Ok(DecodedView::AskBalance(a, t)) => r@ == spec_control_msg(
                4,
                spec_u64_be(spec_lookup_balance(state@.balances, a, t)) + encode_utf8(a),
            ) && final(mempool)@ == old(mempool)@,
            Ok(DecodedView::AskNonce(a)) => r@ == spec_control_msg(
                6,
                spec_u64_be(spec_lookup_nonce(state@.nonces, a)) + encode_utf8(a),
            ) && final(mempool)@ == old(mempool)@,
            Err(_) => r@ == seq![0x45u8, 0x52u8, 0x52u8] && final(mempool)@ == old(mempool)@,
        },
{
    match decode_message(msg) {
        Ok(Decoded::Tx(tx)) => {
            match validate_tx(&tx, now_ms) {
                Ok(valid_tx) => {
                    mempool_add_tx(mempool, valid_tx);
                    proof {
                        lemma_add_entries_accounted(old(mempool)@, mempool@, spec_core_of(tx@));
                    }
                    make_tx_response()
                },
                Err(e) => make_tx_reject_response(e.as_str()),
            }
        },
        Ok(Decoded::AskBalance(addr, token)) => {
            proof {
                let payload = msg@.skip(7);
                vstd::utf8::decode_utf8_encode_utf8(payload.subrange(0, 56));
            }
            let bal = balance(state, addr.as_str(), token.as_str());
            make_balance_response(bal, addr.as_str())
        },
        Ok(Decoded::AskNonce(addr)) => {
            proof {
                let payload = msg@.skip(7);
                vstd::utf8::decode_utf8_encode_utf8(payload);
            }
            let n = nonce(state, addr.as_str());
            make_nonce_response(n, addr.as_str())
        },
        Err(_) => {
            let mut buf: Vec<u8> = Vec::new();
            buf.push(0x45);
            buf.push(0x52);
            buf.push(0x52);
            proof {
                assert(buf@ =~= seq![0x45u8, 0x52u8, 0x52u8]);
            }
            buf
        },
    }
}

/// After one admission, every pool entry is an old entry or the
/// newcomer.
proof fn lemma_add_entries_accounted(
    before: Seq<crate::tx::ValidTxView>,
    after: Seq<crate::tx::ValidTxView>,
    t: crate::tx::ValidTxView,
)
    requires
        after == before || after == before.push(t) || (exists|i: int|
            0 <= i < before.len() && after == before.remove(i).push(t)),
    ensures
        forall|j: int|
            0 <= j < after.len() ==> before.contains(#[trigger] after[j]) || after[j] == t,
{
    if after == before {
        assert forall|j: int| 0 <= j < after.len() implies before.contains(#[trigger] after[j])
            || after[j] == t by {
            assert(before[j] == after[j]);
        }
    } else if after == before.push(t) {
        assert forall|j: int| 0 <= j < after.len() implies before.contains(#[trigger] after[j])
            || after[j] == t by {
            if j < before.len() {
                assert(before[j] == after[j]);
            }
        }
    } else {
        let i = choose|i: int| 0 <= i < before.len() && after == before.remove(i).push(t);
        assert forall|j: int| 0 <= j < after.len() implies before.contains(#[trigger] after[j])
            || after[j] == t by {
            if j < after.len() - 1 {
                if j < i {
                    assert(after[j] == before[j]);
                } else {
                    assert(after[j] == before[j + 1]);
                }
            }
        }
    }
}

} // verus!
