//! The mempool: blocks produced or received ahead of the chain, and the
//! decision of when the node has earned the right to bundle the next block.
//! The event loop that fires these decisions lives outside the library; it
//! hands in plain values and takes plain values back.
use crate::block::{block_hash_wire, Block};
use crate::blockchain::find_block_by_hash;
use crate::burnfee::{routing_work_needed, BurnFee};
use crate::crypto::{sha256_of, SaitoHash};
use vstd::prelude::*;

verus! {

/// The messages the mempool's event loop reacts to.
#[derive(Clone, Debug)]
pub enum MempoolMessage {
    TestMessage,
    TryBundle,
}

/// The mempool.
#[derive(Debug)]
pub struct Mempool {
    /// Blocks waiting to be handed to the blockchain.
    pub blocks: Vec<Block>,
    /// Transactions waiting to be bundled into a block.
    pub transactions: Vec<crate::transaction::Transaction>,
}

impl Mempool {
    /// An empty mempool.
    pub fn new() -> (r: Mempool)
        ensures
            r.blocks@.len() == 0,
            r.transactions@.len() == 0,
    {
        Mempool { blocks: Vec::new(), transactions: Vec::new() }
    }

    /// Queues a transaction for the next bundled block.
    pub fn add_transaction(&mut self, transaction: crate::transaction::Transaction)
        ensures
            final(self).transactions@ == old(self).transactions@.push(transaction),
            final(self).blocks@ == old(self).blocks@,
    {
        self.transactions.push(transaction);
    }

    /// Hands the queued transactions out for bundling, leaving the queue
    /// empty.
    pub fn take_transactions(&mut self) -> (r: Vec<crate::transaction::Transaction>)
        ensures
            r@ == old(self).transactions@,
            final(self).transactions@.len() == 0,
            final(self).blocks@ == old(self).blocks@,
    {
        let mut out: Vec<crate::transaction::Transaction> = Vec::new();
        core::mem::swap(&mut self.transactions, &mut out);
        out
    }

    /// Queues a block unless one with the same hash is already queued.
    pub fn add_block(&mut self, block: Block) -> (r: bool)
        ensures
            r == (find_block_by_hash(old(self).blocks@, block.hash@) is None),
            r ==> final(self).blocks@ == old(self).blocks@.push(block),
            !r ==> *final(self) == *old(self),
    {
        let hash_to_insert = block.get_hash();
        let n = self.blocks.len();
        let mut i: usize = 0;
        while i < n
            invariant
                i <= n,
                n == self.blocks@.len(),
                *self == *old(self),
                hash_to_insert == block.hash,
                forall|j: int| 0 <= j < i ==> (#[trigger] self.blocks@[j]).hash@ != block.hash@,
            decreases n - i,
        {
            if crate::bytes::bytes32_eq(&self.blocks[i].hash, &hash_to_insert) {
                proof {
                    crate::blockchain::lemma_find_hash_skip(
                        self.blocks@,
                        block.hash@,
                        i as int,
                    );
                    assert(self.blocks@.skip(i as int)[0] == self.blocks@[i as int]);
                }
                return false;
            }
            i = i + 1;
        }
        proof {
            crate::blockchain::lemma_find_hash_skip(self.blocks@, block.hash@, n as int);
            assert(self.blocks@.skip(n as int).len() == 0);
        }
        self.blocks.push(block);
        true
    }

    /// Removes and returns the first queued block with the given hash, if
    /// one is queued.
    pub fn get_block(&mut self, hash: SaitoHash) -> (r: Option<Block>)
        ensures
            find_block_by_hash(old(self).blocks@, hash@) matches Some(i) ==> r matches Some(b)
                && b == old(self).blocks@[i] && final(self).blocks@ == old(self).blocks@.remove(i),
            find_block_by_hash(old(self).blocks@, hash@) is None ==> r is None && *final(self)
                == *old(self),
    {
        let n = self.blocks.len();
        let mut i: usize = 0;
        while i < n
            invariant
                i <= n,
                n == self.blocks@.len(),
                *self == *old(self),
                forall|j: int| 0 <= j < i ==> (#[trigger] self.blocks@[j]).hash@ != hash@,
            decreases n - i,
        {
            if crate::bytes::bytes32_eq(&self.blocks[i].hash, &hash) {
                proof {
                    crate::blockchain::lemma_find_hash_skip(self.blocks@, hash@, i as int);
                    assert(self.blocks@.skip(i as int)[0] == self.blocks@[i as int]);
                }
                let block = self.blocks.remove(i);
                return Some(block);
            }
            i = i + 1;
        }
        proof {
            crate::blockchain::lemma_find_hash_skip(self.blocks@, hash@, n as int);
            assert(self.blocks@.skip(n as int).len() == 0);
        }
        None
    }

    /// Whether the node may bundle the next block: the routing work it has
    /// accumulated covers what the burn fee demands for a block at the
    /// current time on top of the tip.
    pub fn can_bundle_block(
        &self,
        previous_burnfee: u64,
        previous_timestamp: u64,
        current_timestamp: u64,
        available_routing_work: u64,
    ) -> (r: bool)
        ensures
            r == (available_routing_work >= routing_work_needed(
                previous_burnfee,
                current_timestamp,
                previous_timestamp,
            )),
    {
        let needed = BurnFee::return_routing_work_needed_to_produce_block_in_nolan(
            previous_burnfee,
            current_timestamp,
            previous_timestamp,
        );
        available_routing_work >= needed
    }

    /// A skeleton block on top of the tip, carrying no transactions yet.
    pub fn generate_block_from_mempool_transactions(
        &mut self,
        previous_block_id: u64,
        previous_block_hash: SaitoHash,
        current_timestamp: u64,
    ) -> (r: Block)
        ensures
            *final(self) == *old(self),
            r.id == previous_block_id,
            r.timestamp == current_timestamp,
            r.previous_block_hash == previous_block_hash,
            r.hash@ == sha256_of(block_hash_wire(r)),
            r.transactions@.len() == 0,
    {
        let mut block = Block::new();
        block.set_id(previous_block_id);
        block.set_timestamp(current_timestamp);
        block.set_previous_block_hash(previous_block_hash);
        let h = block.generate_hash();
        block.set_hash(h);
        block
    }

    /// Bundles a block on top of the tip, queues it, and returns its hash
    /// for the caller to announce.
    pub fn bundle_block(
        &mut self,
        previous_block_id: u64,
        previous_block_hash: SaitoHash,
        current_timestamp: u64,
    ) -> (r: SaitoHash)
        ensures
            find_block_by_hash(old(self).blocks@, r@) is None ==> final(self).blocks@.len()
                == old(self).blocks@.len() + 1 && final(self).blocks@.last().hash == r && final(self).blocks@.last().id == previous_block_id
                && final(self).blocks@.last().timestamp == current_timestamp && final(self).blocks@.last().previous_block_hash == previous_block_hash,
            find_block_by_hash(old(self).blocks@, r@) is Some ==> *final(self) == *old(self),
    {
        let block = self.generate_block_from_mempool_transactions(
            previous_block_id,
            previous_block_hash,
            current_timestamp,
        );
        let block_hash = block.get_hash();
        let _queued = self.add_block(block);
        block_hash
    }
}

} // verus!
