//! Block production: one tick pulls the top-fee transactions, assembles
//! a block, applies it to the ledger as one transition, and evicts the
//! included transactions only on success.

use vstd::prelude::*;

use crate::block::{Block, BlockBody, BlockBodyView, BlockHeader, BlockHeaderView, BlockStore, BlockView};
use crate::mempool::{
    is_top_selection, mempool_get_top, mempool_remove_hashes, spec_drop_sel_hashes, spec_has_hash,
    spec_sel_has_hash, spec_views, Mempool,
};
use crate::state::{apply_block, block_info, spec_apply_block, ChainState};
use crate::strutil::{i64_to_dec, spec_dec_of, spec_dec_of_int, u64_to_dec};
use crate::tx::{ValidTxCore, ValidTxView};

verus! {

/// How many transactions one block may carry.
pub const MAX_BLOCK_TXS: usize = 25;

/// The placeholder integrity digest over a block's transactions: their
/// hashes, concatenated in order.  Not a hash tree; unsuitable for
/// tamper detection.
pub open spec fn spec_tx_root(txs: Seq<ValidTxView>) -> Seq<char>
    decreases txs.len(),
{
    if txs.len() == 0 {
        Seq::empty()
    } else {
        txs[0].tx_hash + spec_tx_root(txs.drop_first())
    }
}

/// The block identifier: height, a sixteen-character prefix of the
/// transaction root, and the tick's millisecond timestamp, joined as a
/// formatted string.  Not a cryptographic commitment.
pub open spec fn spec_block_id(height: u64, tx_root: Seq<char>, timestamp_ms: i64) -> Seq<char> {
    "blk-"@ + spec_dec_of(height as nat) + "-"@ + (if tx_root.len() > 16 {
        tx_root.subrange(0, 16)
    } else {
        tx_root
    }) + "-"@ + spec_dec_of_int(timestamp_ms as int)
}

/// The height the next block takes: one past the last applied block,
/// or 1 at genesis.
pub open spec fn spec_next_height(st: crate::state::ChainStateView) -> u64 {
    match st.latest_block {
        Some(m) => (m.height + 1) as u64,
        None => 1u64,
    }
}

/// The previous-block pointer the next block carries: the last applied
/// block's identifier, or sixty-four zeros at genesis.
pub open spec fn spec_prev_hash(st: crate::state::ChainStateView) -> Seq<char> {
    match st.latest_block {
        Some(m) => m.hash,
        None => Seq::new(64nat, |i: int| '0'),
    }
}

/// The block a tick assembles from a selection: the fixed version and
/// chain, the continuation height and pointer, the tick's timestamp,
/// and the selection with its root and derived identifier.
pub open spec fn spec_candidate(
    st: crate::state::ChainStateView,
    sel: Seq<ValidTxView>,
    timestamp_ms: i64,
) -> BlockView {
    BlockView {
        block_id: spec_block_id(spec_next_height(st), spec_tx_root(sel), timestamp_ms),
        header: BlockHeaderView {
            version: "0.1"@,
            chain_id: "gld-dev-1"@,
            height: spec_next_height(st),
            prev_hash: spec_prev_hash(st),
            timestamp_ms: timestamp_ms,
            tx_count: sel.len() as u32,
            tx_root: spec_tx_root(sel),
        },
        body: BlockBodyView { txs: sel },
    }
}

/// Concatenates the hashes of the given transactions; see
/// [`spec_tx_root`].
pub fn make_tx_root_string(txs: &Vec<ValidTxCore>) -> (s: String)
    ensures
        s@ == spec_tx_root(spec_views(txs@)),
{
    let ghost tv = spec_views(txs@);
    let mut s = String::new();
    let n = txs.len();
    proof {
        assert(tv.skip(0) =~= tv);
    }
    for i in 0..n
        invariant
            n == txs@.len(),
            tv == spec_views(txs@),
            spec_tx_root(tv) =~= s@ + spec_tx_root(tv.skip(i as int)),
    {
        s.append(txs[i].tx_hash.as_str());
        proof {
            assert(tv.skip(i as int)[0] == tv[i as int]);
            assert(tv.skip(i as int).drop_first() =~= tv.skip(i + 1));
        }
    }
    proof {
        assert(tv.skip(n as int) =~= Seq::<ValidTxView>::empty());
        assert(s@ =~= spec_tx_root(tv));
    }
    s
}

/// Formats a block identifier; see [`spec_block_id`].
pub fn make_block_id_string(height: u64, tx_root: &str, timestamp_ms: i64) -> (s: String)
    ensures
        s@ == spec_block_id(height, tx_root@, timestamp_ms),
{
    let mut s = String::from_str("blk-");
    s.append(u64_to_dec(height).as_str());
    s.append("-");
    let root_len = tx_root.unicode_len();
    if root_len > 16 {
        s.append(tx_root.substring_char(0, 16));
    } else {
        s.append(tx_root);
    }
    s.append("-");
    s.append(i64_to_dec(timestamp_ms).as_str());
    proof {
        assert(s@ =~= spec_block_id(height, tx_root@, timestamp_ms));
    }
    s
}

/// One production tick.  Pulls the top-fee transactions, up to
/// [`MAX_BLOCK_TXS`]; with an empty pool it does nothing.  The assembled
/// block is exactly [`spec_candidate`] over that selection and is
/// applied as one transition; only on success are exactly the included
/// transactions evicted and the block saved and returned.  A tick comes
/// back empty-handed only when the pool was empty or the candidate
/// block of a top-fee selection fails to apply, and then everything is
/// exactly as it was.
pub fn run_produce_tick(
    state: &mut ChainState,
    mempool: &mut Mempool,
    store: &mut BlockStore,
    timestamp_ms: i64,
) -> (r: Option<Block>)
    requires
        old(state).wf(),
        old(mempool).wf(),
        (old(state)@.latest_block matches Some(m) ==> m.height < u64::MAX),
    ensures
        final(state).wf(),
        final(mempool).wf(),
        old(mempool)@.len() == 0 ==> (r is None && *final(state) == *old(state) && final(mempool)@
            == old(mempool)@ && *final(store) == *old(store)),
        r matches Some(b) ==> {
            &&& is_top_selection(old(mempool)@, b@.body.txs, MAX_BLOCK_TXS as int)
            &&& b@ == spec_candidate(old(state)@, b@.body.txs, timestamp_ms)
            &&& spec_apply_block(old(state)@, b@) == Ok::<_, Seq<char>>(final(state)@)
            &&& final(mempool)@ == spec_drop_sel_hashes(old(mempool)@, b@.body.txs)
            &&& (forall|i: int|
                0 <= i < b@.body.txs.len() ==> !spec_has_hash(
                    final(mempool)@,
                    #[trigger] b@.body.txs[i].tx_hash,
                ))
            &&& final(store)@ == old(store)@.push(b@)
        },
        (r is None && old(mempool)@.len() > 0) ==> {
            &&& *final(state) == *old(state)
            &&& final(mempool)@ == old(mempool)@
            &&& *final(store) == *old(store)
            &&& (exists|sel: Seq<ValidTxView>|
                is_top_selection(old(mempool)@, sel, MAX_BLOCK_TXS as int) && (spec_apply_block(
                    old(state)@,
                    spec_candidate(old(state)@, sel, timestamp_ms),
                ) is Err))
        },
{
    let txs = mempool_get_top(mempool, MAX_BLOCK_TXS);
    if txs.len() == 0 {
        proof {
            assert(old(mempool)@.len() == 0 || txs@.len() > 0);
        }
        return None;
    }
    let (prev_height, prev_hash) = match block_info(state) {
        Some(p) => p,
        None => {
            let mut zeros = String::new();
            let mut i: usize = 0;
            while i < 64
                invariant
                    i <= 64,
                    zeros@ =~= Seq::new(i as nat, |j: int| '0'),
                decreases 64 - i,
            {
                zeros.append("0");
                proof {
                    reveal_strlit("0");
                    assert(zeros@ =~= Seq::new((i + 1) as nat, |j: int| '0'));
                }
                i = i + 1;
            }
            (0u64, zeros)
        },
    };
    let height = prev_height + 1;
    let tx_root = make_tx_root_string(&txs);
    let block_id = make_block_id_string(height, tx_root.as_str(), timestamp_ms);
    let header = BlockHeader {
        version: String::from_str("0.1"),
        chain_id: String::from_str("gld-dev-1"),
        height,
        prev_hash,
        timestamp_ms,
        tx_count: txs.len() as u32,
        tx_root,
    };
    let ghost selected = spec_views(txs@);
    let body = BlockBody { txs };
    let block = Block { block_id, header, body };
    proof {
        assert(is_top_selection(old(mempool)@, selected, MAX_BLOCK_TXS as int));
        assert(block@.header == spec_candidate(old(state)@, selected, timestamp_ms).header);
        assert(block@ == spec_candidate(old(state)@, selected, timestamp_ms));
    }
    match apply_block(state, &block) {
        Ok(_) => {},
        Err(_) => {
            proof {
                assert(spec_apply_block(old(state)@, block@) is Err);
                assert(exists|sel: Seq<ValidTxView>|
                    is_top_selection(old(mempool)@, sel, MAX_BLOCK_TXS as int) && (spec_apply_block(
                        old(state)@,
                        spec_candidate(old(state)@, sel, timestamp_ms),
                    ) is Err)) by {
                    assert(is_top_selection(old(mempool)@, selected, MAX_BLOCK_TXS as int) && (
                    spec_apply_block(
                        old(state)@,
                        spec_candidate(old(state)@, selected, timestamp_ms),
                    ) is Err));
                }
            }
            return None;
        },
    }
    mempool_remove_hashes(mempool, &block.body.txs);
    proof {
        assert forall|i: int|
            0 <= i < block@.body.txs.len() implies !spec_has_hash(
            mempool@,
            #[trigger] block@.body.txs[i].tx_hash,
        ) by {
            assert(spec_sel_has_hash(selected, block@.body.txs[i].tx_hash));
        }
    }
    let result = block.duplicate();
    store.save_block(block);
    Some(result)
}

} // verus!
