//! The indexer's in-memory block store: blocks keyed by identifier, with
//! lookup by block, by height, and by contained transaction.

use vstd::prelude::*;

use crate::block::{spec_block_views, Block, BlockBody, BlockHeader, BlockView};
use crate::strutil::str_eq;

verus! {

/// Blocks keyed by their identifier; storing a block again under the
/// same identifier replaces it.
pub struct InMemoryStorage {
    blocks: Vec<Block>,
}

impl View for InMemoryStorage {
    type V = Seq<BlockView>;

    closed spec fn view(&self) -> Seq<BlockView> {
        spec_block_views(self.blocks@)
    }
}

/// Whether some stored block carries the given identifier.
pub open spec fn spec_has_block_id(s: Seq<BlockView>, id: Seq<char>) -> bool {
    exists|i: int| 0 <= i < s.len() && s[i].block_id == id
}

/// The index of the stored block carrying the given identifier.
pub open spec fn spec_block_id_idx(s: Seq<BlockView>, id: Seq<char>) -> int {
    choose|i: int| 0 <= i < s.len() && s[i].block_id == id
}

/// Whether a block's body holds a transaction with the given hash.
pub open spec fn spec_block_has_tx(b: BlockView, h: Seq<char>) -> bool {
    exists|k: int| 0 <= k < b.body.txs.len() && b.body.txs[k].tx_hash == h
}

impl InMemoryStorage {
    /// The store invariant: block identifiers are unique.
    pub open spec fn wf(self) -> bool {
        forall|i: int, j: int|
            0 <= i < j < self@.len() ==> #[trigger] self@[i].block_id
                != #[trigger] self@[j].block_id
    }

    /// An empty store.
    pub fn new() -> (s: InMemoryStorage)
        ensures
            s@ == Seq::<BlockView>::empty(),
            s.wf(),
    {
        let s = InMemoryStorage { blocks: Vec::new() };
        proof {
            assert(s@ =~= Seq::<BlockView>::empty());
        }
        s
    }
}

/// Stores a block: replaces the one already under its identifier, or
/// appends it.
pub fn store_block(storage: &mut InMemoryStorage, block: Block)
    requires
        old(storage).wf(),
    ensures
        final(storage).wf(),
        spec_has_block_id(old(storage)@, block@.block_id) ==> final(storage)@ == old(
            storage,
        )@.update(spec_block_id_idx(old(storage)@, block@.block_id), block@),
        !spec_has_block_id(old(storage)@, block@.block_id) ==> final(storage)@ == old(
            storage,
        )@.push(block@),
{
    let ghost s0 = storage@;
    let ghost bv = block@;
    let n = storage.blocks.len();
    for i in 0..n
        invariant
            n == s0.len(),
            storage@ == s0,
            s0 == old(storage)@,
            old(storage).wf(),
            forall|j: int| 0 <= j < i ==> #[trigger] s0[j].block_id != bv.block_id,
            bv == block@,
    {
        if str_eq(storage.blocks[i].block_id.as_str(), block.block_id.as_str()) {
            proof {
                assert(s0[i as int].block_id == bv.block_id);
                assert(spec_has_block_id(s0, bv.block_id));
                let w = spec_block_id_idx(s0, bv.block_id);
                assert(0 <= w < s0.len() && s0[w].block_id == bv.block_id);
                if w != i as int {
                    if w < i as int {
                        assert(s0[w].block_id != s0[i as int].block_id);
                    } else {
                        assert(s0[i as int].block_id != s0[w].block_id);
                    }
                }
                assert(w == i as int);
            }
            storage.blocks[i] = block;
            proof {
                assert(storage@ =~= s0.update(i as int, bv));
                assert forall|a: int, b: int| 0 <= a < b < storage@.len() implies #[trigger] storage@[a].block_id
                    != #[trigger] storage@[b].block_id by {
                    if a != i as int && b != i as int {
                        assert(storage@[a] == s0[a] && storage@[b] == s0[b]);
                    } else if a == i as int {
                        assert(storage@[b] == s0[b]);
                        assert(s0[i as int].block_id == bv.block_id);
                    } else {
                        assert(storage@[a] == s0[a]);
                        assert(s0[i as int].block_id == bv.block_id);
                    }
                }
            }
            return ;
        }
    }
    proof {
        assert(!spec_has_block_id(s0, bv.block_id));
    }
    storage.blocks.push(block);
    proof {
        assert(storage@ =~= s0.push(bv));
        assert forall|a: int, b: int| 0 <= a < b < storage@.len() implies #[trigger] storage@[a].block_id
            != #[trigger] storage@[b].block_id by {
            if b < s0.len() {
                assert(storage@[a] == s0[a] && storage@[b] == s0[b]);
            } else {
                assert(storage@[a] == s0[a] && storage@[b] == bv);
                if s0[a].block_id == bv.block_id {
                    assert(spec_has_block_id(s0, bv.block_id));
                }
            }
        }
    }
}

/// The stored block with the given identifier, when one exists.
pub fn get_block_by_hash(storage: &InMemoryStorage, block_id: &str) -> (r: Option<Block>)
    requires
        storage.wf(),
    ensures
        (r is Some) == spec_has_block_id(storage@, block_id@),
        r matches Some(b) ==> b@ == storage@[spec_block_id_idx(storage@, block_id@)],
{
    let ghost s0 = storage@;
    let n = storage.blocks.len();
    for i in 0..n
        invariant
            n == s0.len(),
            s0 == storage@,
            storage.wf(),
            forall|j: int| 0 <= j < i ==> #[trigger] s0[j].block_id != block_id@,
    {
        if str_eq(storage.blocks[i].block_id.as_str(), block_id) {
            proof {
                assert(s0[i as int].block_id == block_id@);
                assert(spec_has_block_id(s0, block_id@));
                let w = spec_block_id_idx(s0, block_id@);
                assert(0 <= w < s0.len() && s0[w].block_id == block_id@);
                if w != i as int {
                    if w < i as int {
                        assert(s0[w].block_id != s0[i as int].block_id);
                    } else {
                        assert(s0[i as int].block_id != s0[w].block_id);
                    }
                }
                assert(w == i as int);
            }
            return Some(storage.blocks[i].duplicate());
        }
    }
    proof {
        assert(!spec_has_block_id(s0, block_id@));
    }
    None
}

/// The stored block of greatest height, when any block is stored; among
/// equal heights, the most recently appended one.
pub fn get_latest_block(storage: &InMemoryStorage) -> (r: Option<Block>)
    ensures
        (r is Some) == (storage@.len() > 0),
        r matches Some(b) ==> exists|i: int|
            {
                &&& 0 <= i < storage@.len()
                &&& b@ == storage@[i]
                &&& (forall|j: int|
                    0 <= j < storage@.len() ==> #[trigger] storage@[j].header.height
                        <= storage@[i].header.height)
                &&& (forall|j: int|
                    i < j < storage@.len() ==> #[trigger] storage@[j].header.height
                        < storage@[i].header.height)
            },
{
    let ghost s0 = storage@;
    let n = storage.blocks.len();
    if n == 0 {
        return None;
    }
    let mut best: usize = 0;
    for i in 1..n
        invariant
            n == s0.len(),
            s0 == storage@,
            best < i,
            forall|j: int|
                0 <= j < i ==> #[trigger] s0[j].header.height <= s0[best as int].header.height,
            forall|j: int|
                best < j < i ==> #[trigger] s0[j].header.height < s0[best as int].header.height,
    {
        if storage.blocks[i].header.height >= storage.blocks[best].header.height {
            best = i;
        }
    }
    let b = storage.blocks[best].duplicate();
    proof {
        let bi = best as int;
        assert(0 <= bi < s0.len() && b@ == s0[bi] && (forall|j: int|
            0 <= j < s0.len() ==> #[trigger] s0[j].header.height <= s0[bi].header.height) && (
        forall|j: int| bi < j < s0.len() ==> #[trigger] s0[j].header.height < s0[bi].header.height));
    }
    Some(b)
}

/// The stored block containing the transaction with the given hash,
/// shrunk to that one transaction, when such a block exists.  The most
/// recently appended containing block wins; within it, the first
/// matching transaction.
pub fn get_block_by_tx_hash(storage: &InMemoryStorage, tx_hash: &str) -> (r: Option<Block>)
    ensures
        (r is Some) == (exists|i: int|
            0 <= i < storage@.len() && spec_block_has_tx(#[trigger] storage@[i], tx_hash@)),
        r matches Some(sb) ==> exists|i: int, k: int|
            {
                &&& 0 <= i < storage@.len()
                &&& (forall|j: int|
                    i < j < storage@.len() ==> !spec_block_has_tx(#[trigger] storage@[j], tx_hash@))
                &&& 0 <= k < storage@[i].body.txs.len()
                &&& storage@[i].body.txs[k].tx_hash == tx_hash@
                &&& (forall|l: int| 0 <= l < k ==> storage@[i].body.txs[l].tx_hash != tx_hash@)
                &&& sb@.block_id == storage@[i].block_id
                &&& sb@.header == storage@[i].header
                &&& sb@.body.txs == seq![storage@[i].body.txs[k]]
            },
{
    let ghost s0 = storage@;
    let n = storage.blocks.len();
    let mut i = n;
    while i > 0
        invariant
            n == s0.len(),
            s0 == storage@,
            i <= n,
            forall|j: int| i <= j < n ==> !spec_block_has_tx(#[trigger] s0[j], tx_hash@),
        decreases i,
    {
        i = i - 1;
        let block = &storage.blocks[i];
        let m = block.body.txs.len();
        let mut found: Option<usize> = None;
        for k in 0..m
            invariant
                n == s0.len(),
                s0 == storage@,
                i < n,
                m == s0[i as int].body.txs.len(),
                block == storage.blocks@[i as int],
                found matches Some(kk) ==> 0 <= kk < m && s0[i as int].body.txs[kk as int].tx_hash
                    == tx_hash@ && (forall|l: int|
                    0 <= l < kk ==> s0[i as int].body.txs[l].tx_hash != tx_hash@),
                found is None ==> forall|l: int|
                    0 <= l < k ==> s0[i as int].body.txs[l].tx_hash != tx_hash@,
        {
            if found.is_none() && str_eq(block.body.txs[k].tx_hash.as_str(), tx_hash) {
                found = Some(k);
            }
        }
        match found {
            Some(k) => {
                let tx = block.body.txs[k].duplicate();
                let mut txs: Vec<crate::tx::ValidTxCore> = Vec::new();
                txs.push(tx);
                let sb = Block {
                    block_id: block.block_id.clone(),
                    header: BlockHeader {
                        version: block.header.version.clone(),
                        chain_id: block.header.chain_id.clone(),
                        height: block.header.height,
                        prev_hash: block.header.prev_hash.clone(),
                        timestamp_ms: block.header.timestamp_ms,
                        tx_count: block.header.tx_count,
                        tx_root: block.header.tx_root.clone(),
                    },
                    body: BlockBody { txs },
                };
                proof {
                    assert(spec_block_has_tx(s0[i as int], tx_hash@)) by {
                        assert(s0[i as int].body.txs[k as int].tx_hash == tx_hash@);
                    }
                    assert(sb@.body.txs =~= seq![s0[i as int].body.txs[k as int]]);
                }
                return Some(sb);
            },
            None => {
                proof {
                    assert(!spec_block_has_tx(s0[i as int], tx_hash@));
                }
            },
        }
    }
    None
}

} // verus!
