//! The blockchain: the block index, longest-chain bookkeeping, and the
//! single writer of the UTXO set and the staking pool.
use crate::block::{txs_ocr_entries, Block};
use crate::crypto::SaitoHash;
use crate::staking::Staking;
use crate::utxoset::{utxo_entries, UtxoSet};
use vstd::prelude::*;

verus! {

/// A block header: the consensus fields of a block without its
/// transactions.
#[derive(Debug, Clone, Copy)]
pub struct BlockHeader {
    pub bsh: SaitoHash,
    pub prev_bsh: SaitoHash,
    pub bid: u64,
    pub ts: u64,
    pub bf: u64,
    pub difficulty: u64,
}

/// The header of a block.
pub open spec fn header_of(b: Block) -> BlockHeader {
    BlockHeader {
        bsh: b.hash,
        prev_bsh: b.previous_block_hash,
        bid: b.id,
        ts: b.timestamp,
        bf: b.burnfee,
        difficulty: b.difficulty,
    }
}

/// The header index: entry `i` describes the `i`-th indexed block, whether
/// or not it is on the longest chain.
#[derive(Debug, Clone)]
pub struct BlockchainIndex {
    /// The headers, in insertion order.
    pub blocks: Vec<BlockHeader>,
}

impl BlockchainIndex {
    /// An empty index.
    pub fn new() -> (r: BlockchainIndex)
        ensures
            r.blocks@.len() == 0,
    {
        BlockchainIndex { blocks: Vec::new() }
    }
}

/// The position of the first block in `blocks` with the given hash.
pub open spec fn find_block_by_hash(blocks: Seq<Block>, h: Seq<u8>) -> Option<int>
    decreases blocks.len(),
{
    if blocks.len() == 0 {
        None
    } else if blocks[0].hash@ == h {
        Some(0int)
    } else {
        match find_block_by_hash(blocks.drop_first(), h) {
            None => None,
            Some(i) => Some(i + 1),
        }
    }
}

/// The position of the first longest-chain block in `blocks` with the given
/// id.
pub open spec fn find_lc_block_by_id(blocks: Seq<Block>, id: u64) -> Option<int>
    decreases blocks.len(),
{
    if blocks.len() == 0 {
        None
    } else if blocks[0].lc && blocks[0].id == id {
        Some(0int)
    } else {
        match find_lc_block_by_id(blocks.drop_first(), id) {
            None => None,
            Some(i) => Some(i + 1),
        }
    }
}

/// A found hash position is a position of the list, and the block there has
/// the hash.
pub proof fn lemma_find_hash_in_range(blocks: Seq<Block>, h: Seq<u8>)
    requires
        find_block_by_hash(blocks, h) is Some,
    ensures
        0 <= find_block_by_hash(blocks, h)->Some_0 < blocks.len(),
        blocks[find_block_by_hash(blocks, h)->Some_0].hash@ == h,
    decreases blocks.len(),
{
    if blocks.len() > 0 && blocks[0].hash@ != h {
        lemma_find_hash_in_range(blocks.drop_first(), h);
    }
}

/// A found longest-chain position is a position of the list, and the block
/// there is a longest-chain block with the id.
pub proof fn lemma_find_lc_in_range(blocks: Seq<Block>, id: u64)
    requires
        find_lc_block_by_id(blocks, id) is Some,
    ensures
        0 <= find_lc_block_by_id(blocks, id)->Some_0 < blocks.len(),
        blocks[find_lc_block_by_id(blocks, id)->Some_0].lc,
        blocks[find_lc_block_by_id(blocks, id)->Some_0].id == id,
    decreases blocks.len(),
{
    if blocks.len() > 0 && !(blocks[0].lc && blocks[0].id == id) {
        lemma_find_lc_in_range(blocks.drop_first(), id);
    }
}

/// Scanning from the front: if the first `i` blocks do not match the hash,
/// the first match of the whole list is that of the rest, shifted by `i`.
pub proof fn lemma_find_hash_skip(blocks: Seq<Block>, h: Seq<u8>, i: int)
    requires
        0 <= i <= blocks.len(),
        forall|j: int| 0 <= j < i ==> (#[trigger] blocks[j]).hash@ != h,
    ensures
        find_block_by_hash(blocks, h) == match find_block_by_hash(blocks.skip(i), h) {
            None => None::<int>,
            Some(k) => Some(k + i),
        },
    decreases i,
{
    if i > 0 {
        lemma_find_hash_skip(blocks, h, i - 1);
        assert(blocks.skip(i - 1).drop_first() =~= blocks.skip(i));
        assert(blocks.skip(i - 1)[0] == blocks[i - 1]);
    } else {
        assert(blocks.skip(0) =~= blocks);
    }
}

/// Scanning from the front: if the first `i` blocks do not match the
/// longest-chain id, the first match of the whole list is that of the rest,
/// shifted by `i`.
pub proof fn lemma_find_lc_id_skip(blocks: Seq<Block>, id: u64, i: int)
    requires
        0 <= i <= blocks.len(),
        forall|j: int| 0 <= j < i ==> !((#[trigger] blocks[j]).lc && blocks[j].id == id),
    ensures
        find_lc_block_by_id(blocks, id) == match find_lc_block_by_id(blocks.skip(i), id) {
            None => None::<int>,
            Some(k) => Some(k + i),
        },
    decreases i,
{
    if i > 0 {
        lemma_find_lc_id_skip(blocks, id, i - 1);
        assert(blocks.skip(i - 1).drop_first() =~= blocks.skip(i));
        assert(blocks.skip(i - 1)[0] == blocks[i - 1]);
    } else {
        assert(blocks.skip(0) =~= blocks);
    }
}

/// The chain state: the indexed blocks, genesis pins, the longest-chain
/// position, the UTXO set and the staking pool.
pub struct Blockchain {
    /// The header index, parallel to `blocks`.
    pub index: BlockchainIndex,
    /// The indexed blocks, in insertion order.
    pub blocks: Vec<Block>,
    pub genesis_ts: u64,
    pub genesis_bid: u64,
    /// Whether a longest-chain tip exists.
    pub lc_pos_set: bool,
    /// The position of the longest-chain tip in `blocks`.
    pub lc_pos: usize,
    /// The UTXO set, written only by chain reorganization.
    pub utxoset: UtxoSet,
    /// The staking pool, written only by chain reorganization.
    pub staking: Staking,
}

/// Whether a freshly indexed block becomes the longest-chain tip: any block
/// on an empty chain, or a child of the current tip.
pub open spec fn chain_adopts(c: Blockchain, b: Block) -> bool {
    !c.lc_pos_set || b.previous_block_hash@ == c.blocks@[c.lc_pos as int].hash@
}

/// Whether `stored` is `b` as the chain keeps it: every field of `b`, with
/// the longest-chain flag set to `lc`. The staking reorganization may not
/// change the block, so the transactions are those of `b`.
pub open spec fn stored_block_matches(stored: Block, b: Block, lc: bool) -> bool {
    &&& stored.lc == lc
    &&& stored.transactions@ == b.transactions@
    &&& stored == (Block { lc, transactions: stored.transactions, ..b })
}

/// Whether a header describes a block, field by field.
pub open spec fn header_matches(h: BlockHeader, b: Block) -> bool {
    &&& h.bsh@ == b.hash@
    &&& h.prev_bsh@ == b.previous_block_hash@
    &&& h.bid == b.id
    &&& h.ts == b.timestamp
    &&& h.bf == b.burnfee
    &&& h.difficulty == b.difficulty
}

/// Well-formedness of the chain state: the header index mirrors the blocks
/// and the tip position is in range.
pub open spec fn chain_wf(c: Blockchain) -> bool {
    &&& c.index.blocks@.len() == c.blocks@.len()
    &&& (forall|i: int| 0 <= i < c.blocks@.len() ==> header_matches(
        c.index.blocks@[i],
        #[trigger] c.blocks@[i],
    ))
    &&& (c.lc_pos_set ==> c.lc_pos < c.blocks@.len())
}

impl Blockchain {
    /// An empty chain with an empty UTXO set and staking pool.
    pub fn new() -> (r: Blockchain)
        ensures
            r.blocks@.len() == 0,
            r.index.blocks@.len() == 0,
            r.genesis_ts == 0,
            r.genesis_bid == 0,
            r.lc_pos_set == false,
            utxo_entries(r.utxoset) =~= Map::empty(),
            r.staking.deposits@.len() == 0,
            r.staking.stakers@.len() == 0,
            r.staking.pending@.len() == 0,
            chain_wf(r),
    {
        Blockchain {
            index: BlockchainIndex::new(),
            blocks: Vec::new(),
            genesis_ts: 0,
            genesis_bid: 0,
            lc_pos_set: false,
            lc_pos: 0,
            utxoset: UtxoSet::new(),
            staking: Staking::new(),
        }
    }

    /// Whether the chain state is well formed, checked at run time so
    /// unverified callers can establish what the accessors demand.
    pub fn is_well_formed(&self) -> (r: bool)
        ensures
            r == chain_wf(*self),
    {
        let n = self.blocks.len();
        if self.index.blocks.len() != n {
            return false;
        }
        if self.lc_pos_set && self.lc_pos >= n {
            return false;
        }
        let mut i: usize = 0;
        while i < n
            invariant
                i <= n,
                n == self.blocks@.len(),
                self.index.blocks@.len() == n,
                self.lc_pos_set ==> self.lc_pos < n,
                forall|j: int| 0 <= j < i ==> header_matches(
                    self.index.blocks@[j],
                    #[trigger] self.blocks@[j],
                ),
            decreases n - i,
        {
            let h = &self.index.blocks[i];
            let blk = &self.blocks[i];
            if !crate::bytes::bytes32_eq(&h.bsh, &blk.hash) || !crate::bytes::bytes32_eq(
                &h.prev_bsh,
                &blk.previous_block_hash,
            ) || h.bid != blk.id || h.ts != blk.timestamp || h.bf != blk.burnfee
                || h.difficulty != blk.difficulty {
                return false;
            }
            i = i + 1;
        }
        true
    }

    /// The first indexed block with the given hash, if any.
    pub fn get_block_by_hash(&self, hash: &SaitoHash) -> (r: Option<&Block>)
        ensures
            find_block_by_hash(self.blocks@, hash@) matches Some(i) ==> r == Some(
                &self.blocks@[i],
            ),
            find_block_by_hash(self.blocks@, hash@) is None ==> r is None,
    {
        let n = self.blocks.len();
        let mut i: usize = 0;
        while i < n
            invariant
                i <= n,
                n == self.blocks@.len(),
                forall|j: int| 0 <= j < i ==> (#[trigger] self.blocks@[j]).hash@ != hash@,
            decreases n - i,
        {
            if crate::bytes::bytes32_eq(&self.blocks[i].hash, hash) {
                proof {
                    lemma_find_hash_skip(self.blocks@, hash@, i as int);
                    assert(self.blocks@.skip(i as int)[0] == self.blocks@[i as int]);
                }
                return Some(&self.blocks[i]);
            }
            i = i + 1;
        }
        proof {
            lemma_find_hash_skip(self.blocks@, hash@, n as int);
            assert(self.blocks@.skip(n as int).len() == 0);
        }
        None
    }

    /// The first longest-chain block with the given id, if any.
    pub fn get_longest_chain_block_by_id(&self, id: u64) -> (r: Option<&Block>)
        ensures
            find_lc_block_by_id(self.blocks@, id) matches Some(i) ==> r == Some(&self.blocks@[i]),
            find_lc_block_by_id(self.blocks@, id) is None ==> r is None,
    {
        let n = self.blocks.len();
        let mut i: usize = 0;
        while i < n
            invariant
                i <= n,
                n == self.blocks@.len(),
                forall|j: int| 0 <= j < i ==> !((#[trigger] self.blocks@[j]).lc
                    && self.blocks@[j].id == id),
            decreases n - i,
        {
            if self.blocks[i].get_lc() && self.blocks[i].get_id() == id {
                proof {
                    lemma_find_lc_id_skip(self.blocks@, id, i as int);
                    assert(self.blocks@.skip(i as int)[0] == self.blocks@[i as int]);
                }
                return Some(&self.blocks[i]);
            }
            i = i + 1;
        }
        proof {
            lemma_find_lc_id_skip(self.blocks@, id, n as int);
            assert(self.blocks@.skip(n as int).len() == 0);
        }
        None
    }

    /// The header of the longest-chain tip, if one exists.
    pub fn get_latest_block_header(&self) -> (r: Option<BlockHeader>)
        requires
            chain_wf(*self),
        ensures
            !self.lc_pos_set ==> r is None,
            self.lc_pos_set ==> (r matches Some(h) && header_matches(
                h,
                self.blocks@[self.lc_pos as int],
            )),
    {
        if !self.lc_pos_set {
            return None;
        }
        Some(self.index.blocks[self.lc_pos])
    }

    /// The hash of the longest-chain tip, or the zero hash with no tip.
    pub fn get_latest_block_hash(&self) -> (r: SaitoHash)
        requires
            chain_wf(*self),
        ensures
            !self.lc_pos_set ==> r@ == crate::bytes::zero32_seq(),
            self.lc_pos_set ==> r == self.blocks@[self.lc_pos as int].hash,
    {
        if !self.lc_pos_set {
            return crate::bytes::zero32();
        }
        self.blocks[self.lc_pos].get_hash()
    }

    /// The id of the longest-chain tip, or zero with no tip.
    pub fn get_latest_block_id(&self) -> (r: u64)
        requires
            chain_wf(*self),
        ensures
            !self.lc_pos_set ==> r == 0,
            self.lc_pos_set ==> r == self.blocks@[self.lc_pos as int].id,
    {
        if !self.lc_pos_set {
            return 0;
        }
        self.blocks[self.lc_pos].get_id()
    }

    /// Adds a block to the chain. Pre-genesis blocks (earlier than the
    /// genesis timestamp or id) and duplicates are ignored. A block whose
    /// parent is the current tip — or any block on an empty chain — becomes
    /// the new tip: its transactions are wound into the UTXO set and the
    /// staking tables are updated. Any other block is stored off the longest
    /// chain and changes no state: fork choice by cumulative burn-fee work,
    /// with unwinding of a losing suffix, is not implemented, so the tip
    /// only ever advances along the first chain built.
    pub fn add_block(&mut self, block: Block) -> (r: bool)
        requires
            chain_wf(*old(self)),
        ensures
            chain_wf(*final(self)),
            !r ==> *final(self) == *old(self),
            r == !(block.timestamp < old(self).genesis_ts || block.id < old(self).genesis_bid
                || find_block_by_hash(old(self).blocks@, block.hash@) is Some),
            r ==> final(self).blocks@.len() == old(self).blocks@.len() + 1,
            r ==> stored_block_matches(
                final(self).blocks@.last(),
                block,
                chain_adopts(*old(self), block),
            ),
            r ==> (forall|i: int| 0 <= i < old(self).blocks@.len() ==> final(self).blocks@[i]
                == old(self).blocks@[i]),
            r && chain_adopts(*old(self), block) ==> final(self).lc_pos_set && final(self).lc_pos == old(self).blocks@.len() && utxo_entries(final(self).utxoset)
                == txs_ocr_entries(
                utxo_entries(old(self).utxoset),
                block.transactions@,
                true,
                block.id,
            ) && crate::staking::sm_view(final(self).staking)
                == crate::staking::staking_ocr_model(
                crate::staking::sm_view(old(self).staking),
                block,
                true,
            ),
            r && !chain_adopts(*old(self), block) ==> final(self).lc_pos_set == old(self).lc_pos_set && final(self).lc_pos == old(self).lc_pos && final(self).utxoset == old(self).utxoset && final(self).staking == old(self).staking,
            final(self).genesis_ts == old(self).genesis_ts && final(self).genesis_bid == old(self).genesis_bid,
    {
        if block.timestamp < self.genesis_ts || block.id < self.genesis_bid {
            return false;
        }
        match self.get_block_by_hash(&block.hash) {
            Some(_) => {
                return false;
            },
            None => {},
        }
        let adopt = if !self.lc_pos_set {
            true
        } else {
            crate::bytes::bytes32_eq(
                &block.previous_block_hash,
                &self.blocks[self.lc_pos].hash,
            )
        };
        let mut stored = block;
        stored.set_lc(adopt);
        if adopt {
            let _wound = stored.on_chain_reorganization(&mut self.utxoset, true);
            let _tables = self.staking.on_chain_reorganization(&stored, true);
            self.lc_pos = self.blocks.len();
            self.lc_pos_set = true;
        }
        let header = BlockHeader {
            bsh: stored.hash,
            prev_bsh: stored.previous_block_hash,
            bid: stored.id,
            ts: stored.timestamp,
            bf: stored.burnfee,
            difficulty: stored.difficulty,
        };
        self.blocks.push(stored);
        self.index.blocks.push(header);
        true
    }

    /// The first indexed block whose hash is the given block's previous
    /// hash, if any: the block's parent.
    pub fn get_block_parent(&self, block: &Block) -> (r: Option<&Block>)
        ensures
            find_block_by_hash(self.blocks@, block.previous_block_hash@) matches Some(i) ==> r
                == Some(&self.blocks@[i]),
            find_block_by_hash(self.blocks@, block.previous_block_hash@) is None ==> r is None,
    {
        self.get_block_by_hash(&block.previous_block_hash)
    }
}

} // verus!
