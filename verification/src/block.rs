//! Block data: header, body and identifier, and the in-memory store of
//! applied blocks.

use vstd::prelude::*;

use crate::tx::{ValidTxCore, ValidTxView};
use crate::mempool::spec_views;

verus! {

/// The header of a block.
#[derive(Debug, Clone, PartialEq, Eq)]
pub struct BlockHeader {
    pub version: String,
    pub chain_id: String,
    pub height: u64,
    pub prev_hash: String,
    pub timestamp_ms: i64,
    pub tx_count: u32,
    pub tx_root: String,
}

/// The mathematical value of a [`BlockHeader`].
pub ghost struct BlockHeaderView {
    pub version: Seq<char>,
    pub chain_id: Seq<char>,
    pub height: u64,
    pub prev_hash: Seq<char>,
    pub timestamp_ms: i64,
    pub tx_count: u32,
    pub tx_root: Seq<char>,
}

impl View for BlockHeader {
    type V = BlockHeaderView;

    open spec fn view(&self) -> BlockHeaderView {
        BlockHeaderView {
            version: self.version@,
            chain_id: self.chain_id@,
            height: self.height,
            prev_hash: self.prev_hash@,
            timestamp_ms: self.timestamp_ms,
            tx_count: self.tx_count,
            tx_root: self.tx_root@,
        }
    }
}

/// The ordered transactions of a block.
#[derive(Debug, Clone, PartialEq, Eq)]
pub struct BlockBody {
    pub txs: Vec<ValidTxCore>,
}

/// The mathematical value of a [`BlockBody`].
pub ghost struct BlockBodyView {
    pub txs: Seq<ValidTxView>,
}

impl View for BlockBody {
    type V = BlockBodyView;

    open spec fn view(&self) -> BlockBodyView {
        BlockBodyView { txs: spec_views(self.txs@) }
    }
}

/// A block: its string identifier, header and body.  Immutable once
/// built.
#[derive(Debug, Clone, PartialEq, Eq)]
pub struct Block {
    pub block_id: String,
    pub header: BlockHeader,
    pub body: BlockBody,
}

/// The mathematical value of a [`Block`].
pub ghost struct BlockView {
    pub block_id: Seq<char>,
    pub header: BlockHeaderView,
    pub body: BlockBodyView,
}

impl View for Block {
    type V = BlockView;

    open spec fn view(&self) -> BlockView {
        BlockView { block_id: self.block_id@, header: self.header@, body: self.body@ }
    }
}

impl Block {
    /// An exact copy; unlike a derived `Clone`, its contract pins the
    /// value.
    pub fn duplicate(&self) -> (r: Block)
        ensures
            r@ == self@,
    {
        let mut txs: Vec<ValidTxCore> = Vec::new();
        let n = self.body.txs.len();
        for i in 0..n
            invariant
                n == self.body.txs@.len(),
                spec_views(txs@) =~= spec_views(self.body.txs@).subrange(0, i as int),
                txs@.len() == i as int,
        {
            txs.push(self.body.txs[i].duplicate());
            proof {
                assert(spec_views(txs@) =~= spec_views(self.body.txs@).subrange(0, i + 1));
            }
        }
        proof {
            assert(spec_views(txs@) =~= spec_views(self.body.txs@));
        }
        Block {
            block_id: self.block_id.clone(),
            header: BlockHeader {
                version: self.header.version.clone(),
                chain_id: self.header.chain_id.clone(),
                height: self.header.height,
                prev_hash: self.header.prev_hash.clone(),
                timestamp_ms: self.header.timestamp_ms,
                tx_count: self.header.tx_count,
                tx_root: self.header.tx_root.clone(),
            },
            body: BlockBody { txs },
        }
    }
}

/// The views of a run of blocks.
pub open spec fn spec_block_views(s: Seq<Block>) -> Seq<BlockView> {
    Seq::new(s.len(), |i: int| s[i]@)
}

/// The in-memory list of applied blocks, in application order.
pub struct BlockStore {
    blocks: Vec<Block>,
}

impl View for BlockStore {
    type V = Seq<BlockView>;

    closed spec fn view(&self) -> Seq<BlockView> {
        spec_block_views(self.blocks@)
    }
}

impl BlockStore {
    /// An empty store.
    pub fn new() -> (s: BlockStore)
        ensures
            s@ == Seq::<BlockView>::empty(),
    {
        let s = BlockStore { blocks: Vec::new() };
        proof {
            assert(s@ =~= Seq::<BlockView>::empty());
        }
        s
    }

    /// Appends a block to the store.  Writing the inspection log is the
    /// caller's affair.
    pub fn save_block(&mut self, block: Block)
        ensures
            final(self)@ == old(self)@.push(block@),
    {
        let ghost v = block@;
        self.blocks.push(block);
        proof {
            assert(self@ =~= old(self)@.push(v));
        }
    }

    /// The most recently saved block, when one exists.
    pub fn last_block(&self) -> (r: Option<Block>)
        ensures
            self@.len() == 0 ==> r is None,
            self@.len() > 0 ==> (r matches Some(b) && b@ == self@[self@.len() - 1]),
    {
        if self.blocks.len() == 0 {
            None
        } else {
            Some(self.blocks[self.blocks.len() - 1].duplicate())
        }
    }

    /// How many blocks the store holds.
    pub fn len(&self) -> (n: usize)
        ensures
            n == self@.len(),
    {
        self.blocks.len()
    }
}

} // verus!
