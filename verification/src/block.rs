//! Blocks: the consensus header, the transactions it commits to, and the
//! derived values (fees, routing work, rebroadcast tallies) that validation
//! recomputes and compares.
use crate::bytes::{
    push_bytes32, push_bytes33, push_bytes64, push_slice, push_u32_be, push_u64_be, read_bytes32,
    read_bytes33, read_bytes64, read_u32_be, read_u64_be, u32_be_bytes, u32_from_be, u64_be_bytes, zero32,
    zero32_seq,
};
use crate::crypto::{
    ecdsa_sign_of, hash, sha256_of, sign, SaitoHash, SaitoPrivateKey, SaitoPublicKey,
    SaitoSignature,
};
use crate::merkle::{hashes_view, merkle_root_of};
use crate::slip::{slip_valid, slip_wire, Slip, SlipType};
use crate::transaction::{
    cap_count, sat_add64, slips_amount_sum, tx_core_eq, tx_fees, tx_lens_ok, tx_ocr_entries,
    tx_routing_work_for, tx_sig_wire, tx_wire, Transaction, TransactionType,
};
use rayon::iter::{IntoParallelRefIterator, ParallelIterator};

use crate::blockchain::Blockchain;
use crate::utxoset::{utxo_entries, UtxoSet};
use vstd::pervasive::VecAdditionalExecFns;
use crate::ATR_FEE;
use vstd::prelude::*;

verus! {

/// The consensus values derived from a block and the chain state: what a
/// producer must put in the block and a validator recomputes and compares.
#[derive(Debug, Clone)]
pub struct DataToValidate {
    /// The expected transaction carrying the outbound payments, when fees
    /// and a golden ticket release them.
    pub fee_transaction: Option<Transaction>,
    /// Number of fee transactions found in the block.
    pub ft_num: u8,
    /// Index of the fee transaction, when one is present.
    pub ft_idx: Option<usize>,
    /// Number of golden-ticket transactions found in the block.
    pub gt_num: u8,
    /// Index of the golden-ticket transaction, when one is present.
    pub gt_idx: Option<usize>,
    /// The difficulty the block must carry.
    pub expected_difficulty: u64,
    /// The rebroadcast transactions the block must include.
    pub rebroadcasts: Vec<Transaction>,
    /// Number of rebroadcast slips.
    pub total_rebroadcast_slips: u64,
    /// Nolan carried by the rebroadcast outputs.
    pub total_rebroadcast_nolan: u64,
    /// Nolan collected as rebroadcast fees, dust included.
    pub total_rebroadcast_fees_nolan: u64,
    /// The chained hash of all rebroadcast transactions.
    pub rebroadcast_hash: SaitoHash,
}

impl DataToValidate {
    /// Empty consensus values: no payouts, no rebroadcasts, difficulty zero.
    pub fn new() -> (r: DataToValidate)
        ensures
            r.fee_transaction is None,
            r.ft_num == 0,
            r.ft_idx is None,
            r.gt_num == 0,
            r.gt_idx is None,
            r.expected_difficulty == 0,
            r.rebroadcasts@.len() == 0,
            r.total_rebroadcast_slips == 0,
            r.total_rebroadcast_nolan == 0,
            r.total_rebroadcast_fees_nolan == 0,
            r.rebroadcast_hash@ == zero32_seq(),
    {
        DataToValidate {
            fee_transaction: None,
            ft_num: 0,
            ft_idx: None,
            gt_num: 0,
            gt_idx: None,
            expected_difficulty: 0,
            rebroadcasts: Vec::new(),
            total_rebroadcast_slips: 0,
            total_rebroadcast_nolan: 0,
            total_rebroadcast_fees_nolan: 0,
            rebroadcast_hash: zero32(),
        }
    }
}

/// A block.
#[derive(Debug, Clone, PartialEq)]
pub struct Block {
    pub id: u64,
    pub timestamp: u64,
    pub previous_block_hash: SaitoHash,
    pub creator: SaitoPublicKey,
    pub merkle_root: SaitoHash,
    pub signature: SaitoSignature,
    pub treasury: u64,
    pub burnfee: u64,
    pub difficulty: u64,
    pub transactions: Vec<Transaction>,
    /// The block hash, set by [`Block::sign`] from the header bytes.
    pub hash: SaitoHash,
    /// Total fees paid into the block, set by the metadata sweep.
    pub total_fees: u64,
    /// Routing work credited to the block creator, set by the metadata
    /// sweep.
    pub routing_work_for_creator: u64,
    /// Whether the block is on the longest chain.
    pub lc: bool,
    pub has_golden_ticket: bool,
    pub has_fee_transaction: bool,
    /// Number of slips spent by the block's rebroadcast transactions, set by
    /// the metadata sweep.
    pub total_rebroadcast_slips: u64,
    /// Nolan spent by the block's rebroadcast transactions, set by the
    /// metadata sweep.
    pub total_rebroadcast_nolan: u64,
    /// The chained hash of the block's rebroadcast transactions, set by the
    /// metadata sweep.
    pub rebroadcast_hash: SaitoHash,
}

/// The concatenated wire serializations of a sequence of transactions.
pub open spec fn txs_wire(ts: Seq<Transaction>) -> Seq<u8>
    decreases ts.len(),
{
    if ts.len() == 0 {
        Seq::empty()
    } else {
        txs_wire(ts.drop_last()) + tx_wire(ts.last())
    }
}

/// Whether every collection length in the block fits its wire prefix.
pub open spec fn block_lens_ok(b: Block) -> bool {
    b.transactions@.len() <= u32::MAX && (forall|i: int| 0 <= i < b.transactions@.len()
        ==> tx_lens_ok(#[trigger] b.transactions@[i]))
}

/// The 137 header bytes fed to the block's signing hash: id, timestamp,
/// previous hash, creator, merkle root, treasury, burnfee, difficulty. The
/// signature is not self-referential.
pub open spec fn block_sig_wire(b: Block) -> Seq<u8> {
    u64_be_bytes(b.id) + u64_be_bytes(b.timestamp) + b.previous_block_hash@ + b.creator@
        + b.merkle_root@ + u64_be_bytes(b.treasury) + u64_be_bytes(b.burnfee) + u64_be_bytes(
        b.difficulty,
    )
}

/// The header bytes hashed for the block's stand-alone hash: the signing
/// header with the signature included.
pub open spec fn block_hash_wire(b: Block) -> Seq<u8> {
    u64_be_bytes(b.id) + u64_be_bytes(b.timestamp) + b.previous_block_hash@ + b.creator@
        + b.merkle_root@ + b.signature@ + u64_be_bytes(b.treasury) + u64_be_bytes(b.burnfee)
        + u64_be_bytes(b.difficulty)
}

/// The full wire serialization of a block: transaction count, header fields,
/// then the transactions.
pub open spec fn block_wire(b: Block) -> Seq<u8> {
    u32_be_bytes(b.transactions@.len() as u32) + u64_be_bytes(b.id) + u64_be_bytes(b.timestamp)
        + b.previous_block_hash@ + b.creator@ + b.merkle_root@ + b.signature@ + u64_be_bytes(
        b.treasury,
    ) + u64_be_bytes(b.burnfee) + u64_be_bytes(b.difficulty) + txs_wire(b.transactions@)
}

/// Whether some block with wire-safe lengths serializes to exactly these
/// bytes.
pub open spec fn is_block_wire(bytes: Seq<u8>) -> bool {
    exists|b: Block| block_lens_ok(b) && bytes == #[trigger] block_wire(b)
}

/// The leaf hashes of a block's merkle tree: each transaction's signing
/// hash.
pub open spec fn txs_sig_hashes(ts: Seq<Transaction>) -> Seq<Seq<u8>> {
    Seq::new(ts.len(), |i: int| sha256_of(tx_sig_wire(ts[i])))
}

/// The saturating total of the fees of a sequence of transactions.
pub open spec fn txs_total_fees(ts: Seq<Transaction>) -> u64
    decreases ts.len(),
{
    if ts.len() == 0 {
        0
    } else {
        sat_add64(txs_total_fees(ts.drop_last()), tx_fees(ts.last()))
    }
}

/// The saturating total of the routing work of a sequence of transactions
/// credited to `pk`.
pub open spec fn txs_total_work_for(ts: Seq<Transaction>, pk: Seq<u8>) -> u64
    decreases ts.len(),
{
    if ts.len() == 0 {
        0
    } else {
        sat_add64(txs_total_work_for(ts.drop_last(), pk), tx_routing_work_for(ts.last(), pk))
    }
}

/// Whether some transaction of the sequence has the given type.
pub open spec fn txs_has_type(ts: Seq<Transaction>, ty: TransactionType) -> bool {
    exists|i: int| 0 <= i < ts.len() && ts[i].transaction_type == ty
}

/// The chained hash over the rebroadcast transactions of a block's own
/// transaction list: starts at the zero hash and folds each rebroadcast
/// transaction's signing bytes in block order.
pub open spec fn txs_atr_meta_hash(ts: Seq<Transaction>) -> Seq<u8>
    decreases ts.len(),
{
    if ts.len() == 0 {
        zero32_seq()
    } else if ts.last().transaction_type == TransactionType::ATR {
        sha256_of(txs_atr_meta_hash(ts.drop_last()) + tx_sig_wire(ts.last()))
    } else {
        txs_atr_meta_hash(ts.drop_last())
    }
}

/// The number of slips spent by the rebroadcast transactions of a block's
/// own transaction list, saturating.
pub open spec fn txs_atr_meta_slips(ts: Seq<Transaction>) -> u64
    decreases ts.len(),
{
    if ts.len() == 0 {
        0
    } else if ts.last().transaction_type == TransactionType::ATR {
        sat_add64(txs_atr_meta_slips(ts.drop_last()), cap_count(ts.last().inputs@.len() as nat))
    } else {
        txs_atr_meta_slips(ts.drop_last())
    }
}

/// The nolan spent by the rebroadcast transactions of a block's own
/// transaction list, saturating.
pub open spec fn txs_atr_meta_nolan(ts: Seq<Transaction>) -> u64
    decreases ts.len(),
{
    if ts.len() == 0 {
        0
    } else if ts.last().transaction_type == TransactionType::ATR {
        sat_add64(txs_atr_meta_nolan(ts.drop_last()), slips_amount_sum(ts.last().inputs@))
    } else {
        txs_atr_meta_nolan(ts.drop_last())
    }
}

/// The running fee totals after each transaction of the list: entry `i` is
/// the saturating sum of the fees of transactions `0 ..= i`.
pub open spec fn txs_cumulative_fees_at(ts: Seq<Transaction>, i: int) -> u64 {
    txs_total_fees(ts.take(i + 1))
}

/// The UTXO entries after applying every transaction of the list in order.
pub open spec fn txs_ocr_entries(
    m: Map<Seq<u8>, u64>,
    ts: Seq<Transaction>,
    longest_chain: bool,
    block_id: u64,
) -> Map<Seq<u8>, u64>
    decreases ts.len(),
{
    if ts.len() == 0 {
        m
    } else {
        tx_ocr_entries(
            txs_ocr_entries(m, ts.drop_last(), longest_chain, block_id),
            ts.last(),
            longest_chain,
            block_id,
        )
    }
}

impl Block {
    /// A zeroed block with no transactions.
    pub fn new() -> (r: Block)
        ensures
            r.id == 0,
            r.timestamp == 0,
            r.previous_block_hash@ == zero32_seq(),
            r.creator@ =~= Seq::new(33, |i: int| 0u8),
            r.merkle_root@ == zero32_seq(),
            r.signature@ =~= Seq::new(64, |i: int| 0u8),
            r.treasury == 0,
            r.burnfee == 0,
            r.difficulty == 0,
            r.transactions@.len() == 0,
            r.hash@ == zero32_seq(),
            r.total_fees == 0,
            r.routing_work_for_creator == 0,
            r.lc == false,
            r.has_golden_ticket == false,
            r.has_fee_transaction == false,
            r.total_rebroadcast_slips == 0,
            r.total_rebroadcast_nolan == 0,
            r.rebroadcast_hash@ == zero32_seq(),
    {
        let z32 = zero32();
        Block {
            id: 0,
            timestamp: 0,
            previous_block_hash: z32,
            creator: [0u8; 33],
            merkle_root: z32,
            signature: [0u8; 64],
            treasury: 0,
            burnfee: 0,
            difficulty: 0,
            transactions: Vec::new(),
            hash: z32,
            total_fees: 0,
            routing_work_for_creator: 0,
            lc: false,
            has_golden_ticket: false,
            has_fee_transaction: false,
            total_rebroadcast_slips: 0,
            total_rebroadcast_nolan: 0,
            rebroadcast_hash: z32,
        }
    }

    pub fn get_transactions(&self) -> (r: &Vec<Transaction>)
        ensures
            r@ == self.transactions@,
    {
        &self.transactions
    }

    pub fn get_hash(&self) -> (r: SaitoHash)
        ensures
            r == self.hash,
    {
        self.hash
    }

    pub fn get_lc(&self) -> (r: bool)
        ensures
            r == self.lc,
    {
        self.lc
    }

    pub fn get_id(&self) -> (r: u64)
        ensures
            r == self.id,
    {
        self.id
    }

    pub fn get_timestamp(&self) -> (r: u64)
        ensures
            r == self.timestamp,
    {
        self.timestamp
    }

    pub fn get_previous_block_hash(&self) -> (r: SaitoHash)
        ensures
            r == self.previous_block_hash,
    {
        self.previous_block_hash
    }

    pub fn get_creator(&self) -> (r: SaitoPublicKey)
        ensures
            r == self.creator,
    {
        self.creator
    }

    pub fn get_merkle_root(&self) -> (r: SaitoHash)
        ensures
            r == self.merkle_root,
    {
        self.merkle_root
    }

    pub fn get_signature(&self) -> (r: SaitoSignature)
        ensures
            r == self.signature,
    {
        self.signature
    }

    pub fn get_treasury(&self) -> (r: u64)
        ensures
            r == self.treasury,
    {
        self.treasury
    }

    pub fn get_burnfee(&self) -> (r: u64)
        ensures
            r == self.burnfee,
    {
        self.burnfee
    }

    pub fn get_difficulty(&self) -> (r: u64)
        ensures
            r == self.difficulty,
    {
        self.difficulty
    }

    pub fn get_has_golden_ticket(&self) -> (r: bool)
        ensures
            r == self.has_golden_ticket,
    {
        self.has_golden_ticket
    }

    pub fn get_has_fee_transaction(&self) -> (r: bool)
        ensures
            r == self.has_fee_transaction,
    {
        self.has_fee_transaction
    }

    pub fn set_has_golden_ticket(&mut self, hgt: bool)
        ensures
            *final(self) == (Block { has_golden_ticket: hgt, ..*old(self) }),
    {
        self.has_golden_ticket = hgt;
    }

    pub fn set_has_fee_transaction(&mut self, hft: bool)
        ensures
            *final(self) == (Block { has_fee_transaction: hft, ..*old(self) }),
    {
        self.has_fee_transaction = hft;
    }

    pub fn set_transactions(&mut self, transactions: &mut Vec<Transaction>)
        ensures
            final(self).transactions@ == old(transactions)@,
            *final(self) == (Block { transactions: final(self).transactions, ..*old(self) }),
            final(transactions)@ == old(self).transactions@,
    {
        core::mem::swap(&mut self.transactions, transactions);
    }

    pub fn set_id(&mut self, id: u64)
        ensures
            *final(self) == (Block { id, ..*old(self) }),
    {
        self.id = id;
    }

    pub fn set_lc(&mut self, lc: bool)
        ensures
            *final(self) == (Block { lc, ..*old(self) }),
    {
        self.lc = lc;
    }

    pub fn set_timestamp(&mut self, timestamp: u64)
        ensures
            *final(self) == (Block { timestamp, ..*old(self) }),
    {
        self.timestamp = timestamp;
    }

    pub fn set_previous_block_hash(&mut self, previous_block_hash: SaitoHash)
        ensures
            *final(self) == (Block { previous_block_hash, ..*old(self) }),
    {
        self.previous_block_hash = previous_block_hash;
    }

    pub fn set_creator(&mut self, creator: SaitoPublicKey)
        ensures
            *final(self) == (Block { creator, ..*old(self) }),
    {
        self.creator = creator;
    }

    pub fn set_merkle_root(&mut self, merkle_root: SaitoHash)
        ensures
            *final(self) == (Block { merkle_root, ..*old(self) }),
    {
        self.merkle_root = merkle_root;
    }

    pub fn set_signature(&mut self, signature: SaitoSignature)
        ensures
            *final(self) == (Block { signature, ..*old(self) }),
    {
        self.signature = signature;
    }

    pub fn set_treasury(&mut self, treasury: u64)
        ensures
            *final(self) == (Block { treasury, ..*old(self) }),
    {
        self.treasury = treasury;
    }

    pub fn set_burnfee(&mut self, burnfee: u64)
        ensures
            *final(self) == (Block { burnfee, ..*old(self) }),
    {
        self.burnfee = burnfee;
    }

    pub fn set_difficulty(&mut self, difficulty: u64)
        ensures
            *final(self) == (Block { difficulty, ..*old(self) }),
    {
        self.difficulty = difficulty;
    }

    pub fn set_hash(&mut self, hash: SaitoHash)
        ensures
            *final(self) == (Block { hash, ..*old(self) }),
    {
        self.hash = hash;
    }

    pub fn add_transaction(&mut self, tx: Transaction)
        ensures
            final(self).transactions@ == old(self).transactions@.push(tx),
            *final(self) == (Block { transactions: final(self).transactions, ..*old(self) }),
    {
        self.transactions.push(tx);
    }

    /// Signs the block: records the creator, sets the block hash to the hash
    /// of the signing header, and signs that hash. Succeeds exactly on valid
    /// secp256k1 secret keys, and the signature then verifies under the
    /// derived public key; an invalid key leaves the signature untouched.
    pub fn sign(&mut self, publickey: SaitoPublicKey, privatekey: SaitoPrivateKey) -> (r: bool)
        ensures
            r == crate::crypto::sk_valid(privatekey@),
            final(self).creator == publickey,
            final(self).hash@ == sha256_of(
                block_sig_wire(Block { creator: publickey, ..*old(self) }),
            ),
            r ==> final(self).signature@ == ecdsa_sign_of(
                sha256_of(block_sig_wire(Block { creator: publickey, ..*old(self) })),
                privatekey@,
            ),
            r ==> crate::crypto::ecdsa_verify_of(
                sha256_of(block_sig_wire(Block { creator: publickey, ..*old(self) })),
                final(self).signature@,
                crate::crypto::pubkey_of(privatekey@),
            ),
            !r ==> final(self).signature@ == old(self).signature@,
            final(self).transactions@ == old(self).transactions@,
            final(self).id == old(self).id && final(self).timestamp == old(self).timestamp
                && final(self).previous_block_hash == old(self).previous_block_hash && final(self).merkle_root == old(self).merkle_root && final(self).treasury == old(self).treasury
                && final(self).burnfee == old(self).burnfee && final(self).difficulty == old(self).difficulty,
            final(self).has_golden_ticket == old(self).has_golden_ticket && final(self).has_fee_transaction == old(self).has_fee_transaction && final(self).lc == old(self).lc
                && final(self).total_fees == old(self).total_fees && final(self).routing_work_for_creator == old(self).routing_work_for_creator
                && final(self).total_rebroadcast_slips == old(self).total_rebroadcast_slips && final(self).total_rebroadcast_nolan == old(self).total_rebroadcast_nolan
                && final(self).rebroadcast_hash == old(self).rebroadcast_hash,
    {
        self.set_creator(publickey);
        let sig_bytes = self.serialize_for_signature();
        let hash_for_signature = hash(&sig_bytes);
        self.set_hash(hash_for_signature);
        match sign(&hash_for_signature, &privatekey) {
            Some(s) => {
                self.set_signature(s);
                true
            },
            None => false,
        }
    }

    /// The block's stand-alone hash: the hash of the header bytes with the
    /// signature included.
    pub fn generate_hash(&self) -> (r: SaitoHash)
        ensures
            r@ == sha256_of(block_hash_wire(*self)),
    {
        let mut vbytes: Vec<u8> = Vec::new();
        push_u64_be(&mut vbytes, self.id);
        push_u64_be(&mut vbytes, self.timestamp);
        push_bytes32(&mut vbytes, &self.previous_block_hash);
        push_bytes33(&mut vbytes, &self.creator);
        push_bytes32(&mut vbytes, &self.merkle_root);
        push_bytes64(&mut vbytes, &self.signature);
        push_u64_be(&mut vbytes, self.treasury);
        push_u64_be(&mut vbytes, self.burnfee);
        push_u64_be(&mut vbytes, self.difficulty);
        proof {
            assert(vbytes@ =~= block_hash_wire(*self));
        }
        hash(&vbytes)
    }

    /// The 137 header bytes covered by the block signature.
    pub fn serialize_for_signature(&self) -> (r: Vec<u8>)
        ensures
            r@ == block_sig_wire(*self),
    {
        let mut vbytes: Vec<u8> = Vec::new();
        push_u64_be(&mut vbytes, self.id);
        push_u64_be(&mut vbytes, self.timestamp);
        push_bytes32(&mut vbytes, &self.previous_block_hash);
        push_bytes33(&mut vbytes, &self.creator);
        push_bytes32(&mut vbytes, &self.merkle_root);
        push_u64_be(&mut vbytes, self.treasury);
        push_u64_be(&mut vbytes, self.burnfee);
        push_u64_be(&mut vbytes, self.difficulty);
        proof {
            assert(vbytes@ =~= block_sig_wire(*self));
        }
        vbytes
    }

    /// Serializes the block for transport or disk.
    pub fn serialize_for_net(&self) -> (r: Vec<u8>)
        requires
            block_lens_ok(*self),
        ensures
            r@ == block_wire(*self),
    {
        let mut vbytes: Vec<u8> = Vec::new();
        push_u32_be(&mut vbytes, self.transactions.len() as u32);
        push_u64_be(&mut vbytes, self.id);
        push_u64_be(&mut vbytes, self.timestamp);
        push_bytes32(&mut vbytes, &self.previous_block_hash);
        push_bytes33(&mut vbytes, &self.creator);
        push_bytes32(&mut vbytes, &self.merkle_root);
        push_bytes64(&mut vbytes, &self.signature);
        push_u64_be(&mut vbytes, self.treasury);
        push_u64_be(&mut vbytes, self.burnfee);
        push_u64_be(&mut vbytes, self.difficulty);
        let mut i: usize = 0;
        while i < self.transactions.len()
            invariant
                i <= self.transactions@.len(),
                block_lens_ok(*self),
                vbytes@ == block_wire_prefix(*self) + txs_wire(self.transactions@.take(i as int)),
            decreases self.transactions@.len() - i,
        {
            let txb = self.transactions[i].serialize_for_net();
            push_slice(&mut vbytes, &txb);
            proof {
                assert(self.transactions@.take(i + 1).drop_last() =~= self.transactions@.take(
                    i as int,
                ));
                assert(self.transactions@.take(i + 1).last() == self.transactions@[i as int]);
                assert(vbytes@ =~= block_wire_prefix(*self) + txs_wire(
                    self.transactions@.take(i + 1),
                ));
            }
            i = i + 1;
        }
        proof {
            assert(self.transactions@.take(self.transactions@.len() as int)
                =~= self.transactions@);
            assert(block_wire_prefix(*self) + txs_wire(self.transactions@) =~= block_wire(*self));
        }
        vbytes
    }

    /// Deserializes a block from its exact wire bytes. Returns nothing when
    /// the bytes are malformed: shorter than the header, holding fewer or
    /// more transaction bytes than the count demands, or holding a malformed
    /// transaction.
    #[verifier::rlimit(100)]
    #[verifier::spinoff_prover]
    pub fn deserialize_for_net(bytes: Vec<u8>) -> (r: Option<Block>)
        ensures
            r matches Some(b) ==> block_lens_ok(b) && bytes@ == block_wire(b),
            r matches Some(b) ==> b.hash@ == zero32_seq() && b.total_fees == 0 && b.lc == false
                && b.has_golden_ticket == false && b.has_fee_transaction == false,
            is_block_wire(bytes@) ==> r is Some,
    {
        let n = bytes.len();
        if n < 205 {
            proof {
                if is_block_wire(bytes@) {
                    let b = choose|b: Block| block_lens_ok(b) && bytes@ == #[trigger] block_wire(
                        b,
                    );
                    crate::laws::lemma_block_wire_parse_facts(b);
                    assert(false);
                }
            }
            return None;
        }
        let transactions_len = read_u32_be(&bytes, 0) as usize;
        let id = read_u64_be(&bytes, 4);
        let timestamp = read_u64_be(&bytes, 12);
        let previous_block_hash = read_bytes32(&bytes, 20);
        let creator = read_bytes33(&bytes, 52);
        let merkle_root = read_bytes32(&bytes, 85);
        let signature = read_bytes64(&bytes, 117);
        let treasury = read_u64_be(&bytes, 181);
        let burnfee = read_u64_be(&bytes, 189);
        let difficulty = read_u64_be(&bytes, 197);
        let mut transactions: Vec<Transaction> = Vec::new();
        let mut start: usize = 205;
        let mut k: usize = 0;
        while k < transactions_len
            invariant
                k <= transactions_len,
                n == bytes@.len(),
                transactions_len == u32_from_be(bytes@.subrange(0, 4)),
                205 <= start <= n,
                transactions@.len() == k,
                forall|j: int| 0 <= j < k ==> tx_lens_ok(#[trigger] transactions@[j]),
                txs_wire(transactions@) == bytes@.subrange(205, start as int),
            decreases transactions_len - k,
        {
            if n - start < 89 {
                proof {
                if is_block_wire(bytes@) {
                    let b = choose|b: Block| block_lens_ok(b) && bytes@ == #[trigger] block_wire(
                        b,
                    );
                    crate::laws::lemma_block_wire_parse_facts(b);
                    crate::laws::lemma_block_wire_next_tx(
                        b,
                        bytes@,
                        transactions@,
                        start as int,
                    );
                    let t0 = b.transactions@[k as int];
                    assert(false);
                }
                }
                return None;
            }
            let inputs_len = read_u32_be(&bytes, start) as usize;
            let outputs_len = read_u32_be(&bytes, start + 4) as usize;
            let message_len = read_u32_be(&bytes, start + 8) as usize;
            let path_len = read_u32_be(&bytes, start + 12) as usize;
            // sizes are bounded by u32, so this total stays well within usize
            if (n - start - 89) / 75 < inputs_len {
                proof {
                if is_block_wire(bytes@) {
                    let b = choose|b: Block| block_lens_ok(b) && bytes@ == #[trigger] block_wire(
                        b,
                    );
                    crate::laws::lemma_block_wire_parse_facts(b);
                    crate::laws::lemma_block_wire_next_tx(
                        b,
                        bytes@,
                        transactions@,
                        start as int,
                    );
                    let t0 = b.transactions@[k as int];
                    assert((n as int - start - 89) / 75 >= t0.inputs@.len())
                        by (nonlinear_arith)
                        requires
                            n as int - start - 89 >= 75 * t0.inputs@.len(),
                    ;
                    assert(false);
                }
                }
                return None;
            }
            if (n - start - 89 - 75 * inputs_len) / 75 < outputs_len {
                proof {
                if is_block_wire(bytes@) {
                    let b = choose|b: Block| block_lens_ok(b) && bytes@ == #[trigger] block_wire(
                        b,
                    );
                    crate::laws::lemma_block_wire_parse_facts(b);
                    crate::laws::lemma_block_wire_next_tx(
                        b,
                        bytes@,
                        transactions@,
                        start as int,
                    );
                    let t0 = b.transactions@[k as int];
                    assert((n as int - start - 89 - 75 * inputs_len) / 75
                        >= t0.outputs@.len()) by (nonlinear_arith)
                        requires
                            n as int - start - 89 - 75 * inputs_len >= 75 * t0.outputs@.len(),
                    ;
                    assert(false);
                }
                }
                return None;
            }
            if n - start - 89 - 75 * inputs_len - 75 * outputs_len < message_len {
                proof {
                if is_block_wire(bytes@) {
                    let b = choose|b: Block| block_lens_ok(b) && bytes@ == #[trigger] block_wire(
                        b,
                    );
                    crate::laws::lemma_block_wire_parse_facts(b);
                    crate::laws::lemma_block_wire_next_tx(
                        b,
                        bytes@,
                        transactions@,
                        start as int,
                    );
                    let t0 = b.transactions@[k as int];
                    assert(false);
                }
                }
                return None;
            }
            if (n - start - 89 - 75 * (inputs_len + outputs_len) - message_len) / 130 < path_len {
                proof {
                if is_block_wire(bytes@) {
                    let b = choose|b: Block| block_lens_ok(b) && bytes@ == #[trigger] block_wire(
                        b,
                    );
                    crate::laws::lemma_block_wire_parse_facts(b);
                    crate::laws::lemma_block_wire_next_tx(
                        b,
                        bytes@,
                        transactions@,
                        start as int,
                    );
                    let t0 = b.transactions@[k as int];
                    assert((n as int - start - 89 - 75 * (inputs_len + outputs_len)
                        - message_len) / 130 >= t0.path@.len()) by (nonlinear_arith)
                        requires
                            n as int - start - 89 - 75 * (inputs_len + outputs_len) - message_len
                                >= 130 * t0.path@.len(),
                    ;
                    assert(false);
                }
                }
                return None;
            }
            let tx_len: usize = 89 + 75 * (inputs_len + outputs_len) + message_len + 130
                * path_len;
            let tx = match Transaction::deserialize_from_net_at(&bytes, start, tx_len) {
                Some(t) => t,
                None => {
                    proof {
                    if is_block_wire(bytes@) {
                        let b = choose|b: Block| block_lens_ok(b) && bytes@ == #[trigger] block_wire(
                            b,
                        );
                        crate::laws::lemma_block_wire_parse_facts(b);
                        crate::laws::lemma_block_wire_next_tx(
                            b,
                            bytes@,
                            transactions@,
                            start as int,
                        );
                        let t0 = b.transactions@[k as int];
                        assert(tx_len == tx_wire(t0).len());
                        assert(bytes@.subrange(start as int, start + tx_len) == tx_wire(t0));
                        assert(crate::transaction::is_tx_wire(
                            bytes@.subrange(start as int, start + tx_len),
                        ));
                        assert(false);
                    }
                    }
                    return None;
                },
            };
            let ghost pre = transactions@;
            transactions.push(tx);
            proof {
                assert(transactions@.drop_last() =~= pre);
                assert(transactions@.last() == tx);
                assert(txs_wire(transactions@) == txs_wire(pre) + tx_wire(tx));
                assert(txs_wire(transactions@) =~= bytes@.subrange(205, start + tx_len));
            }
            start = start + tx_len;
            k = k + 1;
        }
        if start != n {
            proof {
                if is_block_wire(bytes@) {
                    let b = choose|b: Block| block_lens_ok(b) && bytes@ == #[trigger] block_wire(
                        b,
                    );
                    crate::laws::lemma_block_wire_parse_facts(b);
                    let rest = bytes@.subrange(start as int, n as int);
                    assert(txs_wire(transactions@) + rest =~= bytes@.subrange(205, n as int));
                    crate::laws::lemma_txs_wire_skip(transactions@, rest, b.transactions@);
                    assert(b.transactions@.skip(k as int).len() == 0);
                    assert(false);
                }
            }
            return None;
        }
        let mut block = Block::new();
        block.set_id(id);
        block.set_timestamp(timestamp);
        block.set_previous_block_hash(previous_block_hash);
        block.set_creator(creator);
        block.set_merkle_root(merkle_root);
        block.set_signature(signature);
        block.set_treasury(treasury);
        block.set_burnfee(burnfee);
        block.set_difficulty(difficulty);
        block.set_transactions(&mut transactions);
        proof {
            crate::bytes::lemma_u32_be_inverse(bytes@.subrange(0, 4));
            crate::bytes::lemma_u64_be_inverse(bytes@.subrange(4, 12));
            crate::bytes::lemma_u64_be_inverse(bytes@.subrange(12, 20));
            crate::bytes::lemma_u64_be_inverse(bytes@.subrange(181, 189));
            crate::bytes::lemma_u64_be_inverse(bytes@.subrange(189, 197));
            crate::bytes::lemma_u64_be_inverse(bytes@.subrange(197, 205));
            assert(bytes@ =~= block_wire(block));
        }
        Some(block)
    }

    /// Whether every collection length in the block fits its u32 wire
    /// prefix, checked at run time so unverified callers can establish what
    /// serialization and validation demand.
    pub fn has_wire_safe_lengths(&self) -> (r: bool)
        ensures
            r == block_lens_ok(*self),
    {
        let n = self.transactions.len();
        if n > u32::MAX as usize {
            return false;
        }
        let mut i: usize = 0;
        while i < n
            invariant
                i <= n,
                n == self.transactions@.len(),
                forall|j: int| 0 <= j < i ==> tx_lens_ok(#[trigger] self.transactions@[j]),
            decreases n - i,
        {
            let t = &self.transactions[i];
            if t.inputs.len() > u32::MAX as usize || t.outputs.len() > u32::MAX as usize
                || t.message.len() > u32::MAX as usize || t.path.len() > u32::MAX as usize {
                return false;
            }
            i = i + 1;
        }
        true
    }

    /// The merkle root over the transactions' signing hashes. Transactions
    /// without a recorded signing hash contribute the hash of their signing
    /// bytes, recomputed.
    pub fn generate_merkle_root(&self) -> (r: SaitoHash)
        ensures
            r@ == merkle_root_of(txs_sig_hashes(self.transactions@)),
    {
        let mut leaves: Vec<SaitoHash> = Vec::new();
        let mut i: usize = 0;
        while i < self.transactions.len()
            invariant
                i <= self.transactions@.len(),
                leaves@.len() == i,
                forall|j: int| 0 <= j < i ==> (#[trigger] leaves@[j])@ == sha256_of(
                    tx_sig_wire(self.transactions@[j]),
                ),
            decreases self.transactions@.len() - i,
        {
            let sig_bytes = self.transactions[i].serialize_for_signature();
            let h = hash(&sig_bytes);
            leaves.push(h);
            i = i + 1;
        }
        proof {
            assert(hashes_view(leaves@) =~= txs_sig_hashes(self.transactions@));
        }
        crate::merkle::generate_merkle_root_from_hashes(&leaves)
    }

    /// Recomputes the block's derived metadata: every transaction's own
    /// metadata against the block creator, the serial cumulative fee and
    /// work sweeps in block order, the golden-ticket and fee-transaction
    /// flags, and the rebroadcast tallies.
    pub fn generate_metadata(&mut self) -> (r: bool)
        ensures
            r,
            final(self).transactions@.len() == old(self).transactions@.len(),
            forall|i: int| 0 <= i < old(self).transactions@.len() ==> tx_core_eq(
                #[trigger] final(self).transactions@[i],
                old(self).transactions@[i],
            ),
            forall|i: int| 0 <= i < old(self).transactions@.len() ==> (
            #[trigger] final(self).transactions@[i]).total_fees == tx_fees(
                old(self).transactions@[i],
            ),
            forall|i: int| 0 <= i < old(self).transactions@.len() ==> (
            #[trigger] final(self).transactions@[i]).cumulative_fees == txs_cumulative_fees_at(
                old(self).transactions@,
                i,
            ),
            final(self).total_fees == txs_total_fees(old(self).transactions@),
            final(self).routing_work_for_creator == txs_total_work_for(
                old(self).transactions@,
                old(self).creator@,
            ),
            final(self).has_golden_ticket == txs_has_type(
                old(self).transactions@,
                TransactionType::GoldenTicket,
            ),
            final(self).has_fee_transaction == txs_has_type(
                old(self).transactions@,
                TransactionType::Fee,
            ),
            final(self).rebroadcast_hash@ == txs_atr_meta_hash(old(self).transactions@),
            final(self).total_rebroadcast_slips == sat_add64(
                old(self).total_rebroadcast_slips,
                txs_atr_meta_slips(old(self).transactions@),
            ),
            final(self).total_rebroadcast_nolan == sat_add64(
                old(self).total_rebroadcast_nolan,
                txs_atr_meta_nolan(old(self).transactions@),
            ),
            final(self).id == old(self).id && final(self).timestamp == old(self).timestamp
                && final(self).previous_block_hash == old(self).previous_block_hash && final(self).creator == old(self).creator && final(self).merkle_root == old(self).merkle_root
                && final(self).signature == old(self).signature && final(self).treasury == old(self).treasury && final(self).burnfee == old(self).burnfee && final(self).difficulty
                == old(self).difficulty && final(self).hash == old(self).hash && final(self).lc
                == old(self).lc,
    {
        let creator_publickey = self.get_creator();
        let mut cumulative_fees: u64 = 0;
        let mut cumulative_work: u64 = 0;
        let mut has_golden_ticket = false;
        let mut has_fee_transaction = false;
        let mut rebroadcast_hash = zero32();
        let mut rebroadcast_slips: u64 = 0;
        let mut rebroadcast_nolan: u64 = 0;
        let n = self.transactions.len();
        let mut i: usize = 0;
        while i < n
            invariant
                i <= n,
                n == self.transactions@.len(),
                self.transactions@.len() == old(self).transactions@.len(),
                creator_publickey == old(self).creator,
                forall|j: int| i <= j < n ==> self.transactions@[j] == old(self).transactions@[j],
                forall|j: int| 0 <= j < i ==> tx_core_eq(
                    #[trigger] self.transactions@[j],
                    old(self).transactions@[j],
                ),
                forall|j: int| 0 <= j < i ==> (#[trigger] self.transactions@[j]).total_fees
                    == tx_fees(old(self).transactions@[j]),
                forall|j: int| 0 <= j < i ==> (#[trigger] self.transactions@[j]).cumulative_fees
                    == txs_cumulative_fees_at(old(self).transactions@, j),
                cumulative_fees == txs_total_fees(old(self).transactions@.take(i as int)),
                cumulative_work == txs_total_work_for(
                    old(self).transactions@.take(i as int),
                    old(self).creator@,
                ),
                has_golden_ticket == txs_has_type(
                    old(self).transactions@.take(i as int),
                    TransactionType::GoldenTicket,
                ),
                has_fee_transaction == txs_has_type(
                    old(self).transactions@.take(i as int),
                    TransactionType::Fee,
                ),
                rebroadcast_hash@ == txs_atr_meta_hash(old(self).transactions@.take(i as int)),
                rebroadcast_slips == txs_atr_meta_slips(old(self).transactions@.take(i as int)),
                rebroadcast_nolan == txs_atr_meta_nolan(old(self).transactions@.take(i as int)),
                *self == (Block { transactions: self.transactions, ..*old(self) }),
            decreases n - i,
        {
            proof {
                assert(old(self).transactions@.take(i + 1).drop_last() =~= old(self).transactions@.take(i as int));
                assert(old(self).transactions@.take(i + 1).last() == old(self).transactions@[
                    i as int]);
            }
            let ghost old_tx = old(self).transactions@[i as int];
            let mut tx = Transaction::new();
            self.transactions.set_and_swap(i, &mut tx);
            tx.generate_metadata(creator_publickey);
            proof {
                assert(tx_sig_wire(tx) == tx_sig_wire(old_tx));
            }
            cumulative_fees = tx.generate_metadata_cumulative_fees(cumulative_fees);
            cumulative_work = tx.generate_metadata_cumulative_work(cumulative_work);
            match tx.get_transaction_type() {
                TransactionType::Fee => {
                    has_fee_transaction = true;
                },
                TransactionType::GoldenTicket => {
                    has_golden_ticket = true;
                },
                TransactionType::ATR => {
                    let mut vbytes: Vec<u8> = Vec::new();
                    push_bytes32(&mut vbytes, &rebroadcast_hash);
                    let sig_bytes = tx.serialize_for_signature();
                    push_slice(&mut vbytes, &sig_bytes);
                    proof {
                        assert(vbytes@ =~= txs_atr_meta_hash(
                            old(self).transactions@.take(i as int),
                        ) + tx_sig_wire(old_tx));
                    }
                    rebroadcast_hash = hash(&vbytes);
                    rebroadcast_slips = rebroadcast_slips.saturating_add(
                        crate::transaction::count_as_u64(tx.get_inputs().len()),
                    );
                    rebroadcast_nolan = rebroadcast_nolan.saturating_add(tx.sum_inputs());
                },
                _ => {},
            }
            self.transactions[i] = tx;
            proof {
                assert(txs_has_type(old(self).transactions@.take(i + 1),
                    TransactionType::GoldenTicket) == (txs_has_type(
                    old(self).transactions@.take(i as int),
                    TransactionType::GoldenTicket,
                ) || old(self).transactions@[i as int].transaction_type
                    == TransactionType::GoldenTicket));
                assert(txs_has_type(old(self).transactions@.take(i + 1), TransactionType::Fee)
                    == (txs_has_type(old(self).transactions@.take(i as int),
                    TransactionType::Fee) || old(self).transactions@[i as int].transaction_type
                    == TransactionType::Fee));
            }
            i = i + 1;
        }
        self.set_has_fee_transaction(has_fee_transaction);
        self.set_has_golden_ticket(has_golden_ticket);
        self.total_fees = cumulative_fees;
        self.routing_work_for_creator = cumulative_work;
        self.rebroadcast_hash = rebroadcast_hash;
        self.total_rebroadcast_slips = self.total_rebroadcast_slips.saturating_add(
            rebroadcast_slips,
        );
        self.total_rebroadcast_nolan = self.total_rebroadcast_nolan.saturating_add(
            rebroadcast_nolan,
        );
        proof {
            assert(old(self).transactions@.take(n as int) =~= old(self).transactions@);
        }
        true
    }

    /// Applies or rolls back every transaction's effect on the UTXO set, in
    /// block order.
    pub fn on_chain_reorganization(&self, utxoset: &mut UtxoSet, longest_chain: bool) -> (r: bool)
        ensures
            r,
            utxo_entries(*final(utxoset)) == txs_ocr_entries(
                utxo_entries(*old(utxoset)),
                self.transactions@,
                longest_chain,
                self.id,
            ),
    {
        let mut i: usize = 0;
        while i < self.transactions.len()
            invariant
                i <= self.transactions@.len(),
                utxo_entries(*utxoset) == txs_ocr_entries(
                    utxo_entries(*old(utxoset)),
                    self.transactions@.take(i as int),
                    longest_chain,
                    self.id,
                ),
            decreases self.transactions@.len() - i,
        {
            proof {
                assert(self.transactions@.take(i + 1).drop_last() =~= self.transactions@.take(
                    i as int,
                ));
                assert(self.transactions@.take(i + 1).last() == self.transactions@[i as int]);
            }
            self.transactions[i].on_chain_reorganization(utxoset, longest_chain, self.id);
            i = i + 1;
        }
        proof {
            assert(self.transactions@.take(self.transactions@.len() as int)
                =~= self.transactions@);
        }
        true
    }
}

/// Whether an unspent output leaving the epoch is rebroadcast: it is
/// spendable and worth strictly more than the rebroadcast fee. An output
/// worth exactly the fee is dust.
pub open spec fn slip_rebroadcastable(s: Slip, utxo: Map<Seq<u8>, u64>) -> bool {
    slip_valid(s, utxo) && s.amount > ATR_FEE
}

/// The single output of the rebroadcast of `out`: the owner keeps the value
/// minus the rebroadcast fee.
pub open spec fn atr_out_slip(out: Slip) -> Slip {
    Slip {
        amount: (out.amount - ATR_FEE) as u64,
        slip_ordinal: 0,
        slip_type: SlipType::ATR,
        ..out
    }
}

/// The signing bytes of the rebroadcast of output `out` of transaction
/// `orig`: timestamp zero, the spent output as sole input, the trimmed
/// output, the original transaction's serialization as message, type `ATR`.
pub open spec fn atr_tx_sig_wire(orig: Transaction, out: Slip) -> Seq<u8> {
    u64_be_bytes(0) + slip_wire(out) + slip_wire(atr_out_slip(out)) + tx_wire(orig) + seq![
        crate::transaction::tx_type_byte(TransactionType::ATR),
    ]
}

/// The rebroadcast-eligible outputs of one output list, in ordinal order.
pub open spec fn outputs_atr_slips(outs: Seq<Slip>, utxo: Map<Seq<u8>, u64>) -> Seq<Slip>
    decreases outs.len(),
{
    if outs.len() == 0 {
        Seq::empty()
    } else {
        let rest = outputs_atr_slips(outs.drop_last(), utxo);
        if slip_rebroadcastable(outs.last(), utxo) {
            rest.push(outs.last())
        } else {
            rest
        }
    }
}

/// The rebroadcast pairs of one transaction: its eligible outputs, each
/// paired with the transaction itself.
pub open spec fn tx_atr_pairs(t: Transaction, utxo: Map<Seq<u8>, u64>) -> Seq<
    (Transaction, Slip),
> {
    outputs_atr_slips(t.outputs@, utxo).map_values(|s: Slip| (t, s))
}

/// The rebroadcast pairs of a block's transactions, in block order then
/// ordinal order. This ordering fixes the rebroadcast hash.
pub open spec fn txs_atr_pairs(ts: Seq<Transaction>, utxo: Map<Seq<u8>, u64>) -> Seq<
    (Transaction, Slip),
>
    decreases ts.len(),
{
    if ts.len() == 0 {
        Seq::empty()
    } else {
        txs_atr_pairs(ts.drop_last(), utxo) + tx_atr_pairs(ts.last(), utxo)
    }
}

/// The rebroadcast hash: the left fold starting at the zero hash that
/// absorbs each rebroadcast transaction's signing bytes in order.
pub open spec fn atr_pairs_hash(ps: Seq<(Transaction, Slip)>) -> Seq<u8>
    decreases ps.len(),
{
    if ps.len() == 0 {
        zero32_seq()
    } else {
        sha256_of(atr_pairs_hash(ps.drop_last()) + atr_tx_sig_wire(ps.last().0, ps.last().1))
    }
}

/// The saturating total value of the rebroadcast outputs.
pub open spec fn atr_pairs_nolan(ps: Seq<(Transaction, Slip)>) -> u64
    decreases ps.len(),
{
    if ps.len() == 0 {
        0
    } else {
        sat_add64(atr_pairs_nolan(ps.drop_last()), ps.last().1.amount)
    }
}

/// The rebroadcast fees collected from one output list, seeded with the
/// fees collected so far: the fee for each rebroadcast output, the whole
/// value of each spendable dust output.
pub open spec fn outputs_atr_fees_from(outs: Seq<Slip>, utxo: Map<Seq<u8>, u64>, seed: u64) -> u64
    decreases outs.len(),
{
    if outs.len() == 0 {
        seed
    } else {
        let prev = outputs_atr_fees_from(outs.drop_last(), utxo, seed);
        if slip_rebroadcastable(outs.last(), utxo) {
            sat_add64(prev, ATR_FEE)
        } else if slip_valid(outs.last(), utxo) {
            sat_add64(prev, outs.last().amount)
        } else {
            prev
        }
    }
}

/// The rebroadcast fees collected from a block's transactions.
pub open spec fn txs_atr_fees(ts: Seq<Transaction>, utxo: Map<Seq<u8>, u64>) -> u64
    decreases ts.len(),
{
    if ts.len() == 0 {
        0
    } else {
        outputs_atr_fees_from(ts.last().outputs@, utxo, txs_atr_fees(ts.drop_last(), utxo))
    }
}

/// The transactions the block draws its rebroadcast set from: those of the
/// longest-chain block exactly `ATR_LAG` behind it, once the chain is long
/// enough for one to exist.
pub open spec fn atr_source_txs(b: Block, chain: crate::blockchain::Blockchain) -> Seq<
    Transaction,
> {
    if b.id > crate::ATR_LAG {
        match crate::blockchain::find_lc_block_by_id(chain.blocks@, (b.id - crate::ATR_LAG) as u64) {
            Some(i) => chain.blocks@[i].transactions@,
            None => Seq::empty(),
        }
    } else {
        Seq::empty()
    }
}

/// Whether a transaction matches the rebroadcast of pair `p`.
pub open spec fn rebroadcast_tx_matches(t: Transaction, p: (Transaction, Slip)) -> bool {
    &&& rebroadcast_tx_wire_matches(t, p)
    &&& t.signature@ == Seq::new(64, |i: int| 0u8)
    &&& tx_derived_cleared(t)
}

/// The serialized shape of a rebroadcast of pair `p`: the fields its wire
/// and signing bytes commit to.
pub open spec fn rebroadcast_tx_wire_matches(t: Transaction, p: (Transaction, Slip)) -> bool {
    &&& t.transaction_type == TransactionType::ATR
    &&& t.timestamp == 0
    &&& t.path@.len() == 0
    &&& t.inputs@.len() == 1
    &&& crate::slip::slip_eq(t.inputs@[0], p.1)
    &&& t.outputs@.len() == 1
    &&& crate::slip::slip_eq(t.outputs@[0], atr_out_slip(p.1))
    &&& t.message@ == tx_wire(p.0)
    &&& tx_sig_wire(t) == atr_tx_sig_wire(p.0, p.1)
}

/// A VIP grant of `amount` nolan to `pk` at slip ordinal `ord`.
pub open spec fn vip_grant_matches(t: Transaction, pk: Seq<u8>, amount: u64, ord: u8) -> bool {
    &&& t.transaction_type == TransactionType::VIP
    &&& t.inputs@.len() == 0
    &&& t.outputs@.len() == 1
    &&& t.outputs@[0].publickey@ == pk
    &&& t.outputs@[0].amount == amount
    &&& t.outputs@[0].slip_type == SlipType::VIP
    &&& t.outputs@[0].slip_ordinal == ord
    &&& t.message@.len() == 0
    &&& t.path@.len() == 0
}

/// The composition of a produced block's transaction list: the callers'
/// transactions, the genesis grants when there is no parent, then the
/// rebroadcast set, then the payout transaction exactly when the consensus
/// values demand one.
pub open spec fn producer_sections_match(
    r: Block,
    given: Seq<Transaction>,
    chain: Blockchain,
    prev_hash: Seq<u8>,
) -> bool {
    let n0 = given.len() as int;
    let vips: int = if (match crate::blockchain::find_block_by_hash(chain.blocks@, prev_hash) {
        None => true,
        Some(p) => chain.blocks@[p].id == 0,
    }) {
        10
    } else {
        0
    };
    let base = n0 + vips;
    let src = atr_source_txs(r, chain);
    let utxo = utxo_entries(chain.utxoset);
    let pairs = txs_atr_pairs(src, utxo);
    let mid = r.transactions@.take(base);
    let total = cv_total_fees(mid, txs_atr_fees(src, utxo));
    let gt_i = last_type_match(mid, TransactionType::GoldenTicket);
    let pays = gt_i is Some && mid[gt_i->Some_0].message@.len() == 97 && total > 0;
    &&& r.transactions@.len() == base + pairs.len() + (if pays {
        1int
    } else {
        0
    })
    &&& (forall|k: int| 0 <= k < pairs.len() ==> rebroadcast_tx_wire_matches(
        #[trigger] r.transactions@[base + k],
        pairs[k],
    ))
    &&& (pays ==> fee_tx_matches(
        r.transactions@.last(),
        mid[gt_i->Some_0].message@,
        cv_winner_tx(mid, src, utxo, total, gt_random_of(mid[gt_i->Some_0].message@)),
        total,
    ))
}

/// Whether a transaction's derived metadata fields are all still cleared:
/// no recorded signing hash, zero totals and zero sweeps.
pub open spec fn tx_derived_cleared(t: Transaction) -> bool {
    &&& t.hash_for_signature is None
    &&& t.total_in == 0
    &&& t.total_out == 0
    &&& t.total_fees == 0
    &&& t.cumulative_fees == 0
    &&& t.cumulative_work == 0
    &&& t.routing_work_for_creator == 0
}

/// The saturating total of the fee fields of the non-fee transactions. The
/// consensus sweep reads the fields the metadata pass recorded.
pub open spec fn txs_nonfee_fees_field(ts: Seq<Transaction>) -> u64
    decreases ts.len(),
{
    if ts.len() == 0 {
        0
    } else if ts.last().transaction_type == TransactionType::Fee {
        txs_nonfee_fees_field(ts.drop_last())
    } else {
        sat_add64(txs_nonfee_fees_field(ts.drop_last()), ts.last().total_fees)
    }
}

/// The total fees a block releases: the rebroadcast fees plus the fee
/// fields of its own non-fee transactions.
pub open spec fn cv_total_fees(ts: Seq<Transaction>, atr_fees: u64) -> u64 {
    sat_add64(atr_fees, txs_nonfee_fees_field(ts))
}

/// The position of the last transaction of the given type, if any.
pub open spec fn last_type_match(ts: Seq<Transaction>, ty: TransactionType) -> Option<int>
    decreases ts.len(),
{
    if ts.len() == 0 {
        None
    } else if ts.last().transaction_type == ty {
        Some(ts.len() - 1)
    } else {
        last_type_match(ts.drop_last(), ty)
    }
}

/// The number of transactions of the given type, stopping at 255.
pub open spec fn count_type_u8(ts: Seq<Transaction>, ty: TransactionType) -> u8
    decreases ts.len(),
{
    if ts.len() == 0 {
        0
    } else {
        let rest = count_type_u8(ts.drop_last(), ty);
        if ts.last().transaction_type == ty {
            if rest == 255 {
                255
            } else {
                (rest + 1) as u8
            }
        } else {
            rest
        }
    }
}

/// The winning transaction's index: the first transaction whose running fee
/// total exceeds the shifted winning nolan, with the first transaction as a
/// floor when none does.
pub open spec fn winning_tx_idx_from(ts: Seq<Transaction>, w: u64, i: int) -> int
    decreases ts.len() - i,
{
    if i < 0 || i >= ts.len() {
        0
    } else if ts[i].cumulative_fees > w {
        i
    } else {
        winning_tx_idx_from(ts, w, i + 1)
    }
}

/// The first 32 message bytes of a golden ticket: the miner's random value.
pub open spec fn gt_random_of(msg: Seq<u8>) -> Seq<u8> {
    msg.subrange(0, 32)
}

/// The middle 33 message bytes of a golden ticket: the miner's public key.
pub open spec fn gt_pubkey_of(msg: Seq<u8>) -> Seq<u8> {
    msg.subrange(32, 65)
}

/// The last 32 message bytes of a golden ticket: the block hash it targets.
pub open spec fn gt_target_of(msg: Seq<u8>) -> Seq<u8> {
    msg.subrange(65, 97)
}

/// The winning transaction of the block lottery: an ATR transaction's
/// original when the winning nolan falls in the rebroadcast-fee band and a
/// rebroadcast exists, otherwise the first in-block transaction whose
/// running fee total exceeds the winning nolan less the rebroadcast fees.
pub open spec fn cv_winner_tx(
    ts: Seq<Transaction>,
    src: Seq<Transaction>,
    utxo: Map<Seq<u8>, u64>,
    total: u64,
    rand: Seq<u8>,
) -> Transaction {
    let atr_fees = txs_atr_fees(src, utxo);
    let pairs = txs_atr_pairs(src, utxo);
    let wn = crate::bignum::be_nat(rand) % (total as nat);
    if wn < atr_fees && pairs.len() > 0 {
        pairs[(crate::bignum::be_nat(rand) % pairs.len()) as int].0
    } else {
        ts[winning_tx_idx_from(ts, crate::transaction::sat_sub64(wn as u64, atr_fees), 0)]
    }
}

/// Whether `ft` is the expected fee transaction: no inputs, a miner output
/// of half the total fees to the golden ticket's key, and a router output
/// of the rest to the lottery's winning router.
pub open spec fn fee_tx_matches(
    ft: Transaction,
    msg: Seq<u8>,
    winner: Transaction,
    total: u64,
) -> bool {
    &&& ft.transaction_type == TransactionType::Fee
    &&& ft.timestamp == 0
    &&& ft.inputs@.len() == 0
    &&& ft.message@.len() == 0
    &&& ft.path@.len() == 0
    &&& ft.outputs@.len() == 2
    &&& ft.outputs@[0].publickey@ == gt_pubkey_of(msg)
    &&& ft.outputs@[0].uuid@ == zero32_seq()
    &&& ft.outputs@[0].amount == total / 2
    &&& ft.outputs@[0].slip_type == SlipType::MinerOutput
    &&& ft.outputs@[0].slip_ordinal == 0
    &&& ft.outputs@[1].publickey@ == crate::transaction::winning_router_of(
        winner,
        sha256_of(gt_random_of(msg)),
    )
    &&& ft.outputs@[1].uuid@ == zero32_seq()
    &&& ft.outputs@[1].amount == total - total / 2
    &&& ft.outputs@[1].slip_type == SlipType::RouterOutput
    &&& ft.outputs@[1].slip_ordinal == 1
}

/// The difficulty expected of a block given its parent: one more after two
/// golden tickets in a row, one less (floored at zero) after none on either
/// side, unchanged otherwise.
pub open spec fn expected_difficulty_with_parent(p: Block, b: Block) -> u64 {
    if !p.has_golden_ticket && !b.has_golden_ticket {
        if p.difficulty > 0 {
            (p.difficulty - 1) as u64
        } else {
            0
        }
    } else if p.has_golden_ticket && b.has_golden_ticket {
        sat_add64(p.difficulty, 1)
    } else {
        p.difficulty
    }
}

/// Saturating addition associates: a chain of saturating additions is the
/// capped true sum however it is grouped.
pub proof fn lemma_sat_add_assoc(a: u64, b: u64, c: u64)
    ensures
        sat_add64(sat_add64(a, b), c) == sat_add64(a, sat_add64(b, c)),
{
}

/// Rebroadcast pairs distribute over concatenation of transaction lists.
pub proof fn lemma_atr_pairs_concat(a: Seq<Transaction>, b: Seq<Transaction>, utxo: Map<Seq<u8>, u64>)
    ensures
        txs_atr_pairs(a + b, utxo) == txs_atr_pairs(a, utxo) + txs_atr_pairs(b, utxo),
    decreases b.len(),
{
    if b.len() == 0 {
        assert(a + b =~= a);
        assert(txs_atr_pairs(a, utxo) + txs_atr_pairs(b, utxo) =~= txs_atr_pairs(a, utxo));
    } else {
        lemma_atr_pairs_concat(a, b.drop_last(), utxo);
        assert((a + b).drop_last() =~= a + b.drop_last());
        assert((a + b).last() == b.last());
        assert(txs_atr_pairs(a, utxo) + txs_atr_pairs(b, utxo) =~= (txs_atr_pairs(a, utxo)
            + txs_atr_pairs(b.drop_last(), utxo)) + tx_atr_pairs(b.last(), utxo));
    }
}

/// Counts the rebroadcast-eligible outputs of one transaction.
fn count_atr_outputs(t: &Transaction, utxoset: &UtxoSet) -> (r: usize)
    ensures
        r == outputs_atr_slips(t.outputs@, utxo_entries(*utxoset)).len(),
        r <= t.outputs@.len(),
    decreases t.outputs@.len(),
{
    let mut cnt: usize = 0;
    let mut j: usize = 0;
    while j < t.outputs.len()
        invariant
            j <= t.outputs@.len(),
            cnt <= j,
            cnt == outputs_atr_slips(t.outputs@.take(j as int), utxo_entries(*utxoset)).len(),
        decreases t.outputs@.len() - j,
    {
        proof {
            assert(t.outputs@.take(j + 1).drop_last() =~= t.outputs@.take(j as int));
            assert(t.outputs@.take(j + 1).last() == t.outputs@[j as int]);
        }
        if t.outputs[j].validate(utxoset) && t.outputs[j].get_amount() > ATR_FEE {
            cnt = cnt + 1;
        }
        j = j + 1;
    }
    proof {
        assert(t.outputs@.take(t.outputs@.len() as int) =~= t.outputs@);
    }
    cnt
}

impl Block {
    /// The winning router of the rebroadcast pair at `widx`, computed on the
    /// original transaction that the rebroadcast carries.
    fn winning_atr_router(
        pruned_transactions: &Vec<Transaction>,
        utxoset: &UtxoSet,
        widx: u64,
        random_number: SaitoHash,
    ) -> (r: SaitoPublicKey)
        requires
            widx < txs_atr_pairs(pruned_transactions@, utxo_entries(*utxoset)).len(),
        ensures
            r@ == crate::transaction::winning_router_of(
                txs_atr_pairs(pruned_transactions@, utxo_entries(*utxoset))[widx as int].0,
                random_number@,
            ),
    {
        let ghost utxo = utxo_entries(*utxoset);
        let ghost pairs = txs_atr_pairs(pruned_transactions@, utxo);
        let mut remaining = widx;
        let mut ti: usize = 0;
        while ti < pruned_transactions.len()
            invariant
                ti <= pruned_transactions@.len(),
                widx < pairs.len(),
                pairs == txs_atr_pairs(pruned_transactions@, utxo),
                utxo == utxo_entries(*utxoset),
                remaining == widx - txs_atr_pairs(
                    pruned_transactions@.take(ti as int),
                    utxo,
                ).len(),
                txs_atr_pairs(pruned_transactions@.take(ti as int), utxo).len() <= widx,
            decreases pruned_transactions@.len() - ti,
        {
            let cnt = count_atr_outputs(&pruned_transactions[ti], utxoset);
            proof {
                assert(pruned_transactions@.take(ti + 1).drop_last()
                    =~= pruned_transactions@.take(ti as int));
                assert(pruned_transactions@.take(ti + 1).last() == pruned_transactions@[
                    ti as int]);
                assert(tx_atr_pairs(pruned_transactions@[ti as int], utxo).len() == cnt);
            }
            if remaining < cnt as u64 {
                proof {
                    let pre = pruned_transactions@.take(ti as int);
                    let rest = pruned_transactions@.skip(ti + 1);
                    assert(pruned_transactions@ =~= (pre + seq![
                        pruned_transactions@[ti as int],
                    ]) + rest);
                    lemma_atr_pairs_concat(
                        pre + seq![pruned_transactions@[ti as int]],
                        rest,
                        utxo,
                    );
                    lemma_atr_pairs_concat(pre, seq![pruned_transactions@[ti as int]], utxo);
                    let single = seq![pruned_transactions@[ti as int]];
                    assert(single.len() == 1);
                    assert(single.last() == pruned_transactions@[ti as int]);
                    assert(single.drop_last().len() == 0);
                    assert(txs_atr_pairs(single.drop_last(), utxo) =~= Seq::<(
                        Transaction,
                        Slip,
                    )>::empty());
                    assert(txs_atr_pairs(single, utxo) == txs_atr_pairs(single.drop_last(), utxo)
                        + tx_atr_pairs(single.last(), utxo));
                    assert(txs_atr_pairs(single, utxo) =~= tx_atr_pairs(
                        pruned_transactions@[ti as int],
                        utxo,
                    ));
                    assert(pairs[widx as int] == tx_atr_pairs(
                        pruned_transactions@[ti as int],
                        utxo,
                    )[remaining as int]);
                    assert(tx_atr_pairs(pruned_transactions@[ti as int], utxo)[
                        remaining as int].0 == pruned_transactions@[ti as int]);
                }
                return pruned_transactions[ti].get_winning_routing_node(random_number);
            }
            remaining = remaining - cnt as u64;
            ti = ti + 1;
        }
        proof {
            assert(pruned_transactions@.take(pruned_transactions@.len() as int)
                =~= pruned_transactions@);
            assert(false);
        }
        vstd::pervasive::unreached()
    }

    /// Derives the consensus values of this block against the chain state:
    /// the rebroadcast set drawn from the block leaving the epoch, the fee
    /// and golden-ticket tallies, the expected payout transaction, and the
    /// expected difficulty. Producer and validator both compute this; any
    /// disagreement rejects the block.
    #[verifier::rlimit(100)]
    #[verifier::spinoff_prover]
    pub fn generate_data_to_validate(&self, blockchain: &Blockchain) -> (cv: DataToValidate)
        requires
            forall|i: int| 0 <= i < blockchain.blocks@.len() ==> block_lens_ok(
                #[trigger] blockchain.blocks@[i],
            ),
        ensures
            cv_matches(cv, *self, *blockchain),
    {
        let mut cv = DataToValidate::new();
        let ghost utxo = utxo_entries(blockchain.utxoset);
        let ghost src = atr_source_txs(*self, *blockchain);

        let mut total_rebroadcast_slips: u64 = 0;
        let mut total_rebroadcast_nolan: u64 = 0;
        let mut total_rebroadcast_fees_nolan: u64 = 0;
        let mut rebroadcast_hash: SaitoHash = zero32();
        let mut rebroadcasts: Vec<Transaction> = Vec::new();

        if self.id > crate::ATR_LAG {
            match blockchain.get_longest_chain_block_by_id(self.id - crate::ATR_LAG) {
                Some(pruned_block) => {
                    proof {
                        assert(src == pruned_block.transactions@);
                        crate::blockchain::lemma_find_lc_in_range(
                            blockchain.blocks@,
                            (self.id - 2) as u64,
                        );
                        let i0 = crate::blockchain::find_lc_block_by_id(
                            blockchain.blocks@,
                            (self.id - 2) as u64,
                        )->Some_0;
                        assert(block_lens_ok(blockchain.blocks@[i0]));
                        assert(*pruned_block == blockchain.blocks@[i0]);
                    }
                    let ptxs = pruned_block.get_transactions();
                    let n = ptxs.len();
                    let mut i: usize = 0;
                    while i < n
                        invariant
                            i <= n,
                            n == ptxs@.len(),
                            ptxs@ == src,
                            utxo == utxo_entries(blockchain.utxoset),
                            forall|k: int| 0 <= k < n ==> tx_lens_ok(#[trigger] ptxs@[k]),
                            rebroadcasts@.len() == txs_atr_pairs(
                                src.take(i as int),
                                utxo,
                            ).len(),
                            forall|k: int| 0 <= k < rebroadcasts@.len()
                                ==> rebroadcast_tx_matches(
                                #[trigger] rebroadcasts@[k],
                                txs_atr_pairs(src.take(i as int), utxo)[k],
                            ),
                            rebroadcast_hash@ == atr_pairs_hash(
                                txs_atr_pairs(src.take(i as int), utxo),
                            ),
                            total_rebroadcast_nolan == atr_pairs_nolan(
                                txs_atr_pairs(src.take(i as int), utxo),
                            ),
                            total_rebroadcast_slips == cap_count(
                                txs_atr_pairs(src.take(i as int), utxo).len() as nat,
                            ),
                            total_rebroadcast_fees_nolan == txs_atr_fees(
                                src.take(i as int),
                                utxo,
                            ),
                        decreases n - i,
                    {
                        let otx = &ptxs[i];
                        let m = otx.outputs.len();
                        let ghost pre_pairs = txs_atr_pairs(src.take(i as int), utxo);
                        let ghost pre_fees = txs_atr_fees(src.take(i as int), utxo);
                        let mut j: usize = 0;
                        while j < m
                            invariant
                                j <= m,
                                m == otx.outputs@.len(),
                                otx == &ptxs@[i as int],
                                0 <= i < ptxs@.len(),
                                ptxs@ == src,
                                utxo == utxo_entries(blockchain.utxoset),
                                tx_lens_ok(*otx),
                                pre_pairs == txs_atr_pairs(src.take(i as int), utxo),
                                pre_fees == txs_atr_fees(src.take(i as int), utxo),
                                rebroadcasts@.len() == pre_pairs.len() + outputs_atr_slips(
                                    otx.outputs@.take(j as int),
                                    utxo,
                                ).len(),
                                forall|k: int| 0 <= k < rebroadcasts@.len()
                                    ==> rebroadcast_tx_matches(
                                    #[trigger] rebroadcasts@[k],
                                    (pre_pairs + outputs_atr_slips(
                                        otx.outputs@.take(j as int),
                                        utxo,
                                    ).map_values(|s: Slip| (ptxs@[i as int], s)))[k],
                                ),
                                rebroadcast_hash@ == atr_pairs_hash(
                                    pre_pairs + outputs_atr_slips(
                                        otx.outputs@.take(j as int),
                                        utxo,
                                    ).map_values(|s: Slip| (ptxs@[i as int], s)),
                                ),
                                total_rebroadcast_nolan == atr_pairs_nolan(
                                    pre_pairs + outputs_atr_slips(
                                        otx.outputs@.take(j as int),
                                        utxo,
                                    ).map_values(|s: Slip| (ptxs@[i as int], s)),
                                ),
                                total_rebroadcast_slips == cap_count(
                                    (pre_pairs.len() + outputs_atr_slips(
                                        otx.outputs@.take(j as int),
                                        utxo,
                                    ).len()) as nat,
                                ),
                                total_rebroadcast_fees_nolan == outputs_atr_fees_from(
                                    otx.outputs@.take(j as int),
                                    utxo,
                                    pre_fees,
                                ),
                            decreases m - j,
                        {
                            proof {
                                assert(otx.outputs@.take(j + 1).drop_last()
                                    =~= otx.outputs@.take(j as int));
                                assert(otx.outputs@.take(j + 1).last() == otx.outputs@[j as int]);
                            }
                            let ghost cur = pre_pairs + outputs_atr_slips(
                                otx.outputs@.take(j as int),
                                utxo,
                            ).map_values(|s: Slip| (ptxs@[i as int], s));
                            let output = otx.outputs[j];
                            if output.validate(&blockchain.utxoset) {
                                if output.get_amount() > ATR_FEE {
                                    total_rebroadcast_nolan =
                                        total_rebroadcast_nolan.saturating_add(
                                        output.get_amount(),
                                    );
                                    total_rebroadcast_fees_nolan =
                                        total_rebroadcast_fees_nolan.saturating_add(ATR_FEE);
                                    total_rebroadcast_slips =
                                        total_rebroadcast_slips.saturating_add(1);
                                    let rebroadcast_transaction =
                                        Transaction::generate_rebroadcast_transaction(
                                        otx,
                                        &output,
                                        ATR_FEE,
                                    );
                                    let mut vbytes: Vec<u8> = Vec::new();
                                    push_bytes32(&mut vbytes, &rebroadcast_hash);
                                    let sig_bytes =
                                        rebroadcast_transaction.serialize_for_signature();
                                    push_slice(&mut vbytes, &sig_bytes);
                                    proof {
                                        lemma_rebroadcast_tx_sig_wire(
                                            rebroadcast_transaction,
                                            ptxs@[i as int],
                                            output,
                                        );
                                        let newlist = outputs_atr_slips(
                                            otx.outputs@.take(j + 1),
                                            utxo,
                                        ).map_values(|s: Slip| (ptxs@[i as int], s));
                                        assert(pre_pairs + newlist =~= cur.push(
                                            (ptxs@[i as int], output),
                                        ));
                                        assert(cur.push((ptxs@[i as int], output)).drop_last()
                                            =~= cur);
                                        assert(vbytes@ =~= atr_pairs_hash(cur) + atr_tx_sig_wire(
                                            ptxs@[i as int],
                                            output,
                                        ));
                                    }
                                    rebroadcast_hash = hash(&vbytes);
                                    rebroadcasts.push(rebroadcast_transaction);
                                } else {
                                    total_rebroadcast_fees_nolan =
                                        total_rebroadcast_fees_nolan.saturating_add(
                                        output.get_amount(),
                                    );
                                    proof {
                                        assert(pre_pairs + outputs_atr_slips(
                                            otx.outputs@.take(j + 1),
                                            utxo,
                                        ).map_values(|s: Slip| (ptxs@[i as int], s)) =~= cur);
                                    }
                                }
                            } else {
                                proof {
                                    assert(pre_pairs + outputs_atr_slips(
                                        otx.outputs@.take(j + 1),
                                        utxo,
                                    ).map_values(|s: Slip| (ptxs@[i as int], s)) =~= cur);
                                }
                            }
                            j = j + 1;
                        }
                        proof {
                            assert(otx.outputs@.take(m as int) =~= otx.outputs@);
                            assert(src.take(i + 1).drop_last() =~= src.take(i as int));
                            assert(src.take(i + 1).last() == src[i as int]);
                            assert(pre_pairs + outputs_atr_slips(otx.outputs@, utxo).map_values(
                                |s: Slip| (ptxs@[i as int], s),
                            ) =~= txs_atr_pairs(src.take(i + 1), utxo));
                        }
                        i = i + 1;
                    }
                    proof {
                        assert(src.take(n as int) =~= src);
                    }
                },
                None => {
                    proof {
                        assert(src =~= Seq::<Transaction>::empty());
                    }
                },
            }
        } else {
            proof {
                assert(src =~= Seq::<Transaction>::empty());
            }
        }
        cv.total_rebroadcast_slips = total_rebroadcast_slips;
        cv.total_rebroadcast_nolan = total_rebroadcast_nolan;
        cv.total_rebroadcast_fees_nolan = total_rebroadcast_fees_nolan;
        cv.rebroadcast_hash = rebroadcast_hash;

        // total fees and fee / golden-ticket tallies, in block order
        let mut total_fees: u64 = total_rebroadcast_fees_nolan;
        let mut ft_num: u8 = 0;
        let mut gt_num: u8 = 0;
        let mut ft_idx_option: Option<usize> = None;
        let mut gt_idx_option: Option<usize> = None;
        let tn = self.transactions.len();
        let mut idx: usize = 0;
        while idx < tn
            invariant
                idx <= tn,
                tn == self.transactions@.len(),
                total_rebroadcast_fees_nolan == txs_atr_fees(src, utxo),
                src == atr_source_txs(*self, *blockchain),
                utxo == utxo_entries(blockchain.utxoset),
                total_fees == sat_add64(
                    total_rebroadcast_fees_nolan,
                    txs_nonfee_fees_field(self.transactions@.take(idx as int)),
                ),
                ft_num == count_type_u8(
                    self.transactions@.take(idx as int),
                    TransactionType::Fee,
                ),
                gt_num == count_type_u8(
                    self.transactions@.take(idx as int),
                    TransactionType::GoldenTicket,
                ),
                ft_idx_option is Some <==> last_type_match(
                    self.transactions@.take(idx as int),
                    TransactionType::Fee,
                ) is Some,
                ft_idx_option matches Some(u) ==> last_type_match(
                    self.transactions@.take(idx as int),
                    TransactionType::Fee,
                ) == Some(u as int),
                gt_idx_option is Some <==> last_type_match(
                    self.transactions@.take(idx as int),
                    TransactionType::GoldenTicket,
                ) is Some,
                gt_idx_option matches Some(u) ==> last_type_match(
                    self.transactions@.take(idx as int),
                    TransactionType::GoldenTicket,
                ) == Some(u as int),
                ft_idx_option matches Some(u) ==> u < tn,
                gt_idx_option matches Some(u) ==> u < tn,
            decreases tn - idx,
        {
            proof {
                assert(self.transactions@.take(idx + 1).drop_last() =~= self.transactions@.take(
                    idx as int,
                ));
                assert(self.transactions@.take(idx + 1).last() == self.transactions@[idx as int]);
            }
            if !self.transactions[idx].is_fee_transaction() {
                proof {
                    lemma_sat_add_assoc(
                        total_rebroadcast_fees_nolan,
                        txs_nonfee_fees_field(self.transactions@.take(idx as int)),
                        self.transactions@[idx as int].total_fees,
                    );
                }
                total_fees = total_fees.saturating_add(self.transactions[idx].get_total_fees());
            } else {
                ft_num = if ft_num == 255 {
                    255
                } else {
                    ft_num + 1
                };
                ft_idx_option = Some(idx);
            }
            if self.transactions[idx].is_golden_ticket() {
                gt_num = if gt_num == 255 {
                    255
                } else {
                    gt_num + 1
                };
                gt_idx_option = Some(idx);
            }
            idx = idx + 1;
        }
        proof {
            assert(self.transactions@.take(tn as int) =~= self.transactions@);
        }

        // payouts, when a golden ticket releases the fees
        if let Some(gt_idx) = gt_idx_option {
            cv.ft_idx = ft_idx_option;
            cv.ft_num = ft_num;
            cv.gt_idx = gt_idx_option;
            cv.gt_num = gt_num;
            match crate::golden_ticket::GoldenTicket::deserialize_for_transaction(
                self.transactions[gt_idx].get_message(),
            ) {
                Some(golden_ticket) => {
                    if total_fees > 0 {
                        let miner_random = golden_ticket.get_random();
                        let ghost msg = self.transactions@[gt_idx as int].message@;
                        proof {
                            assert(miner_random@ =~= gt_random_of(msg));
                            assert(golden_ticket.publickey@ =~= gt_pubkey_of(msg));
                        }
                        let winning_nolan = crate::bignum::u256_rem_u64(
                            &miner_random,
                            total_fees,
                        );
                        let mut rv: Vec<u8> = Vec::new();
                        push_bytes32(&mut rv, &miner_random);
                        proof {
                            assert(rv@ =~= miner_random@);
                        }
                        let random_number2 = hash(&rv);
                        let ghost winner = cv_winner_tx(
                            self.transactions@,
                            src,
                            utxo,
                            total_fees,
                            gt_random_of(msg),
                        );
                        let router_publickey: SaitoPublicKey;
                        if winning_nolan < total_rebroadcast_fees_nolan && rebroadcasts.len()
                            > 0 {
                            let widx = crate::bignum::u256_rem_u64(
                                &miner_random,
                                rebroadcasts.len() as u64,
                            );
                            proof {
                                assert(txs_atr_pairs(src, utxo).len() > 0);
                                assert(src.len() > 0);
                                assert(self.id > crate::ATR_LAG);
                            }
                            match blockchain.get_longest_chain_block_by_id(
                                self.id - crate::ATR_LAG,
                            ) {
                                Some(pruned_block) => {
                                    proof {
                                        assert(pruned_block.transactions@ == src);
                                    }
                                    router_publickey = Block::winning_atr_router(
                                        pruned_block.get_transactions(),
                                        &blockchain.utxoset,
                                        widx,
                                        random_number2,
                                    );
                                },
                                None => {
                                    proof {
                                        assert(false);
                                    }
                                    router_publickey = vstd::pervasive::unreached();
                                },
                            }
                        } else {
                            let winning_normal_nolan = winning_nolan.saturating_sub(
                                total_rebroadcast_fees_nolan,
                            );
                            let mut k: usize = 0;
                            while k < tn && self.transactions[k].cumulative_fees
                                <= winning_normal_nolan
                                invariant
                                    k <= tn,
                                    tn == self.transactions@.len(),
                                    tn > 0,
                                    winning_tx_idx_from(
                                        self.transactions@,
                                        winning_normal_nolan,
                                        0,
                                    ) == winning_tx_idx_from(
                                        self.transactions@,
                                        winning_normal_nolan,
                                        k as int,
                                    ),
                                decreases tn - k,
                            {
                                k = k + 1;
                            }
                            let wt_idx: usize = if k < tn {
                                k
                            } else {
                                0
                            };
                            proof {
                                assert(wt_idx as int == winning_tx_idx_from(
                                    self.transactions@,
                                    winning_normal_nolan,
                                    0,
                                ));
                            }
                            router_publickey = self.transactions[
                                wt_idx
                            ].get_winning_routing_node(random_number2);
                            proof {
                                assert(winner == self.transactions@[wt_idx as int]);
                            }
                        }
                        let miner_publickey = golden_ticket.get_publickey();
                        let miner_payment = total_fees / 2;
                        let router_payment = total_fees - miner_payment;
                        let mut transaction = Transaction::new();
                        transaction.set_transaction_type(TransactionType::Fee);
                        let mut output1 = Slip::new();
                        output1.set_publickey(miner_publickey);
                        output1.set_amount(miner_payment);
                        output1.set_slip_type(SlipType::MinerOutput);
                        output1.set_slip_ordinal(0);
                        let mut output2 = Slip::new();
                        output2.set_publickey(router_publickey);
                        output2.set_amount(router_payment);
                        output2.set_slip_type(SlipType::RouterOutput);
                        output2.set_slip_ordinal(1);
                        transaction.add_output(output1);
                        transaction.add_output(output2);
                        cv.fee_transaction = Some(transaction);
                    }
                },
                None => {},
            }
        }

        // expected difficulty, from the parent when the chain holds it
        match blockchain.get_block_by_hash(&self.previous_block_hash) {
            Some(previous_block) => {
                let difficulty = previous_block.get_difficulty();
                if !previous_block.get_has_golden_ticket() && !self.has_golden_ticket {
                    if difficulty > 0 {
                        cv.expected_difficulty = difficulty - 1;
                    }
                } else if previous_block.get_has_golden_ticket() && self.has_golden_ticket {
                    cv.expected_difficulty = if difficulty == u64::MAX {
                        u64::MAX
                    } else {
                        difficulty + 1
                    };
                } else {
                    cv.expected_difficulty = difficulty;
                }
            },
            None => {},
        }
        cv.rebroadcasts = rebroadcasts;
        cv
    }
}

/// Whether consensus values `cv` are the ones derived from block `b`
/// against chain `chain`.
pub open spec fn cv_matches(cv: DataToValidate, b: Block, chain: Blockchain) -> bool {
    let src = atr_source_txs(b, chain);
    let utxo = utxo_entries(chain.utxoset);
    let pairs = txs_atr_pairs(src, utxo);
    let atr_fees = txs_atr_fees(src, utxo);
    let total = cv_total_fees(b.transactions@, atr_fees);
    let gt_i = last_type_match(b.transactions@, TransactionType::GoldenTicket);
    &&& cv.rebroadcasts@.len() == pairs.len()
    &&& (forall|k: int| 0 <= k < pairs.len() ==> rebroadcast_tx_matches(
        #[trigger] cv.rebroadcasts@[k],
        pairs[k],
    ))
    &&& cv.total_rebroadcast_slips == cap_count(pairs.len() as nat)
    &&& cv.total_rebroadcast_nolan == atr_pairs_nolan(pairs)
    &&& cv.total_rebroadcast_fees_nolan == atr_fees
    &&& cv.rebroadcast_hash@ == atr_pairs_hash(pairs)
    &&& (gt_i is None ==> cv.gt_idx is None && cv.ft_idx is None && cv.gt_num == 0 && cv.ft_num
        == 0 && cv.fee_transaction is None)
    &&& (gt_i matches Some(g) ==> cv.gt_idx == Some(g as usize) && cv.gt_num == count_type_u8(
        b.transactions@,
        TransactionType::GoldenTicket,
    ) && cv.ft_num == count_type_u8(b.transactions@, TransactionType::Fee))
    &&& (gt_i is Some ==> (cv.ft_idx is Some <==> last_type_match(
        b.transactions@,
        TransactionType::Fee,
    ) is Some))
    &&& (gt_i is Some ==> (last_type_match(b.transactions@, TransactionType::Fee) matches Some(f)
        ==> cv.ft_idx == Some(f as usize)))
    &&& (gt_i matches Some(g) ==> ((b.transactions@[g].message@.len() == 97 && total > 0)
        ==> (cv.fee_transaction matches Some(ft) && fee_tx_matches(
        ft,
        b.transactions@[g].message@,
        cv_winner_tx(b.transactions@, src, utxo, total, gt_random_of(b.transactions@[g].message@)),
        total,
    ))))
    &&& (gt_i matches Some(g) ==> ((b.transactions@[g].message@.len() != 97 || total == 0)
        ==> cv.fee_transaction is None))
    &&& (cv.fee_transaction matches Some(ft) ==> (ft.signature@ == Seq::new(64, |i: int| 0u8)
        && tx_derived_cleared(ft)))
    &&& (match crate::blockchain::find_block_by_hash(chain.blocks@, b.previous_block_hash@) {
        Some(p) => cv.expected_difficulty == expected_difficulty_with_parent(
            chain.blocks@[p],
            b,
        ),
        None => cv.expected_difficulty == 0,
    })
}

/// The serialized bytes of a slip given as separate fields, for stating the
/// expected fee transaction's bytes without building a slip value.
pub open spec fn slip_fields_wire(
    pk: Seq<u8>,
    uuid: Seq<u8>,
    amount: u64,
    ty: SlipType,
    ord: u8,
) -> Seq<u8> {
    pk + uuid + u64_be_bytes(amount) + seq![crate::slip::slip_type_byte(ty)] + seq![ord]
}

/// The signing bytes of the expected fee transaction with both output uuids
/// set to `uuid`: timestamp zero, no inputs, the miner and router outputs,
/// no message, type `Fee`.
pub open spec fn fee_tx_sig_wire_with_uuid(
    msg: Seq<u8>,
    winner: Transaction,
    total: u64,
    uuid: Seq<u8>,
) -> Seq<u8> {
    u64_be_bytes(0) + slip_fields_wire(
        gt_pubkey_of(msg),
        uuid,
        (total / 2) as u64,
        SlipType::MinerOutput,
        0,
    ) + slip_fields_wire(
        crate::transaction::winning_router_of(winner, sha256_of(gt_random_of(msg))),
        uuid,
        (total - total / 2) as u64,
        SlipType::RouterOutput,
        1,
    ) + seq![crate::transaction::tx_type_byte(TransactionType::Fee)]
}

/// The signing bytes of the expected fee transaction after its output uuids
/// are rewritten to the hash of its zero-uuid signing bytes.
pub open spec fn expected_fee_tx_final_wire(msg: Seq<u8>, winner: Transaction, total: u64) -> Seq<
    u8,
> {
    fee_tx_sig_wire_with_uuid(
        msg,
        winner,
        total,
        sha256_of(fee_tx_sig_wire_with_uuid(msg, winner, total, zero32_seq())),
    )
}

/// Whether a block is valid against the chain and the UTXO set it is judged
/// by: the burn fee and routing work against its parent, the golden-ticket
/// solution against the parent's difficulty, the merkle root, the fee
/// transaction against the recomputed payout, the difficulty, the
/// rebroadcast tallies, and every transaction.
pub open spec fn block_valid(b: Block, chain: Blockchain, entries: Map<Seq<u8>, u64>) -> bool {
    let src = atr_source_txs(b, chain);
    let utxo = utxo_entries(chain.utxoset);
    let pairs = txs_atr_pairs(src, utxo);
    let atr_fees = txs_atr_fees(src, utxo);
    let total = cv_total_fees(b.transactions@, atr_fees);
    let gt_i = last_type_match(b.transactions@, TransactionType::GoldenTicket);
    let ft_i = last_type_match(b.transactions@, TransactionType::Fee);
    let parent_i = crate::blockchain::find_block_by_hash(chain.blocks@, b.previous_block_hash@);
    &&& (parent_i matches Some(p) ==> {
        let parent = chain.blocks@[p];
        &&& b.burnfee == crate::burnfee::burnfee_for_next_block(
            parent.burnfee,
            b.timestamp,
            parent.timestamp,
        )
        &&& b.routing_work_for_creator >= crate::burnfee::routing_work_needed(
            parent.burnfee,
            b.timestamp,
            parent.timestamp,
        )
        &&& (gt_i matches Some(g) ==> {
            let msg = b.transactions@[g].message@;
            &&& msg.len() == 97
            &&& gt_target_of(msg) == parent.hash@
            &&& crate::golden_ticket::solution_meets_difficulty(
                sha256_of(gt_random_of(msg) + gt_pubkey_of(msg)),
                parent.difficulty,
            )
        })
    })
    &&& b.merkle_root@ == merkle_root_of(txs_sig_hashes(b.transactions@))
    &&& b.merkle_root@ != zero32_seq()
    &&& (gt_i matches Some(g) ==> ((ft_i is Some && b.transactions@[g].message@.len() == 97
        && total > 0) ==> sha256_of(
        expected_fee_tx_final_wire(
            b.transactions@[g].message@,
            cv_winner_tx(b.transactions@, src, utxo, total, gt_random_of(b.transactions@[g].message@)),
            total,
        ),
    ) == sha256_of(tx_sig_wire(b.transactions@[ft_i->Some_0]))))
    &&& b.difficulty == (match parent_i {
        Some(p) => expected_difficulty_with_parent(chain.blocks@[p], b),
        None => 0u64,
    })
    &&& b.total_rebroadcast_slips == cap_count(pairs.len() as nat)
    &&& b.total_rebroadcast_nolan == atr_pairs_nolan(pairs)
    &&& b.rebroadcast_hash@ == atr_pairs_hash(pairs)
    &&& (forall|i: int| 0 <= i < b.transactions@.len() ==> crate::transaction::tx_valid(
        #[trigger] b.transactions@[i],
        entries,
    ))
}

/// A found last-type position is a position of the list, and the
/// transaction there has the type.
pub proof fn lemma_last_type_match_range(ts: Seq<Transaction>, ty: TransactionType)
    requires
        last_type_match(ts, ty) is Some,
    ensures
        0 <= last_type_match(ts, ty)->Some_0 < ts.len(),
        ts[last_type_match(ts, ty)->Some_0].transaction_type == ty,
    decreases ts.len(),
{
    if ts.len() > 0 && ts.last().transaction_type != ty {
        lemma_last_type_match_range(ts.drop_last(), ty);
        assert(ts.drop_last()[last_type_match(ts.drop_last(), ty)->Some_0] == ts[
            last_type_match(ts.drop_last(), ty)->Some_0]);
    }
}

/// The field facts of a two-output payout transaction pin its signing bytes
/// down to the concatenation of its parts.
pub proof fn lemma_fee_tx_wire(
    ft: Transaction,
    pk0: Seq<u8>,
    pk1: Seq<u8>,
    a0: u64,
    a1: u64,
    uuid: Seq<u8>,
)
    requires
        ft.transaction_type == TransactionType::Fee,
        ft.timestamp == 0,
        ft.inputs@.len() == 0,
        ft.message@.len() == 0,
        ft.outputs@.len() == 2,
        ft.outputs@[0].publickey@ == pk0,
        ft.outputs@[0].uuid@ == uuid,
        ft.outputs@[0].amount == a0,
        ft.outputs@[0].slip_type == SlipType::MinerOutput,
        ft.outputs@[0].slip_ordinal == 0,
        ft.outputs@[1].publickey@ == pk1,
        ft.outputs@[1].uuid@ == uuid,
        ft.outputs@[1].amount == a1,
        ft.outputs@[1].slip_type == SlipType::RouterOutput,
        ft.outputs@[1].slip_ordinal == 1,
    ensures
        tx_sig_wire(ft) == u64_be_bytes(0) + slip_fields_wire(
            pk0,
            uuid,
            a0,
            SlipType::MinerOutput,
            0,
        ) + slip_fields_wire(pk1, uuid, a1, SlipType::RouterOutput, 1) + seq![
            crate::transaction::tx_type_byte(TransactionType::Fee),
        ],
{
    assert(crate::transaction::slips_wire(ft.inputs@) =~= Seq::<u8>::empty());
    let outs = ft.outputs@;
    assert(outs.drop_last() =~= seq![outs[0]]);
    assert(outs.last() == outs[1]);
    assert(seq![outs[0]].drop_last().len() == 0);
    assert(crate::transaction::slips_wire(seq![outs[0]].drop_last()) =~= Seq::<u8>::empty());
    assert(seq![outs[0]].last() == outs[0]);
    assert(crate::transaction::slips_wire(seq![outs[0]]) =~= slip_wire(outs[0]));
    assert(crate::transaction::slips_wire(outs) == crate::transaction::slips_wire(
        outs.drop_last(),
    ) + slip_wire(outs.last()));
    assert(slip_wire(outs[0]) =~= slip_fields_wire(pk0, uuid, a0, SlipType::MinerOutput, 0));
    assert(slip_wire(outs[1]) =~= slip_fields_wire(pk1, uuid, a1, SlipType::RouterOutput, 1));
    assert(tx_sig_wire(ft) =~= u64_be_bytes(0) + slip_fields_wire(
        pk0,
        uuid,
        a0,
        SlipType::MinerOutput,
        0,
    ) + slip_fields_wire(pk1, uuid, a1, SlipType::RouterOutput, 1) + seq![
        crate::transaction::tx_type_byte(TransactionType::Fee),
    ]);
}

/// The field facts of a rebroadcast transaction pin its signing bytes down
/// to [`atr_tx_sig_wire`] of its pair.
pub proof fn lemma_rebroadcast_tx_sig_wire(t: Transaction, orig: Transaction, out: Slip)
    requires
        t.transaction_type == TransactionType::ATR,
        t.timestamp == 0,
        t.path@.len() == 0,
        t.inputs@.len() == 1,
        crate::slip::slip_eq(t.inputs@[0], out),
        t.outputs@.len() == 1,
        crate::slip::slip_eq(t.outputs@[0], atr_out_slip(out)),
        t.message@ == tx_wire(orig),
    ensures
        tx_sig_wire(t) == atr_tx_sig_wire(orig, out),
{
    assert(t.inputs@.drop_last().len() == 0);
    assert(crate::transaction::slips_wire(t.inputs@.drop_last()) =~= Seq::<u8>::empty());
    assert(t.inputs@.last() == t.inputs@[0]);
    assert(slip_wire(t.inputs@[0]) =~= slip_wire(out));
    assert(crate::transaction::slips_wire(t.inputs@) =~= slip_wire(out));
    assert(t.outputs@.drop_last().len() == 0);
    assert(crate::transaction::slips_wire(t.outputs@.drop_last()) =~= Seq::<u8>::empty());
    assert(t.outputs@.last() == t.outputs@[0]);
    assert(slip_wire(t.outputs@[0]) =~= slip_wire(atr_out_slip(out)));
    assert(crate::transaction::slips_wire(t.outputs@) =~= slip_wire(atr_out_slip(out)));
    assert(tx_sig_wire(t) =~= atr_tx_sig_wire(orig, out));
}

/// The header part of a block's wire serialization: everything before the
/// transactions.
pub open spec fn block_wire_prefix(b: Block) -> Seq<u8> {
    u32_be_bytes(b.transactions@.len() as u32) + u64_be_bytes(b.id) + u64_be_bytes(b.timestamp)
        + b.previous_block_hash@ + b.creator@ + b.merkle_root@ + b.signature@ + u64_be_bytes(
        b.treasury,
    ) + u64_be_bytes(b.burnfee) + u64_be_bytes(b.difficulty)
}

/// Relies on rayon's `par_iter` and `ParallelIterator::all`: runs
/// `Transaction::validate` over the transactions in parallel; `all` returns
/// true exactly when the verified closure returns true for every element.
#[verifier::external_body]
fn all_transactions_valid(txs: &Vec<Transaction>, utxoset: &UtxoSet) -> (r: bool)
    ensures
        r == (forall|i: int| 0 <= i < txs@.len() ==> crate::transaction::tx_valid(
            #[trigger] txs@[i],
            utxo_entries(*utxoset),
        )),
{
    txs.par_iter().all(|tx| tx.validate(utxoset))
}

impl Block {
    /// Whether this block is valid against the chain and the UTXO set: see
    /// [`block_valid`]. The consensus values are recomputed and every
    /// committed value compared; transactions are checked in parallel.
    #[verifier::rlimit(100)]
    #[verifier::spinoff_prover]
    pub fn validate(&self, blockchain: &Blockchain, utxoset: &UtxoSet) -> (r: bool)
        requires
            forall|i: int| 0 <= i < blockchain.blocks@.len() ==> block_lens_ok(
                #[trigger] blockchain.blocks@[i],
            ),
            self.transactions@.len() < usize::MAX,
        ensures
            r == block_valid(*self, *blockchain, utxo_entries(*utxoset)),
    {
        let cv = self.generate_data_to_validate(blockchain);
        let ghost src = atr_source_txs(*self, *blockchain);
        let ghost chain_utxo = utxo_entries(blockchain.utxoset);
        let ghost total_spec = cv_total_fees(self.transactions@, txs_atr_fees(src, chain_utxo));

        match blockchain.get_block_by_hash(&self.previous_block_hash) {
            Some(previous_block) => {
                let new_burnfee =
                    crate::burnfee::BurnFee::return_burnfee_for_block_produced_at_current_timestamp_in_nolan(
                    previous_block.get_burnfee(),
                    self.timestamp,
                    previous_block.get_timestamp(),
                );
                if new_burnfee != self.burnfee {
                    return false;
                }
                let amount_of_routing_work_needed =
                    crate::burnfee::BurnFee::return_routing_work_needed_to_produce_block_in_nolan(
                    previous_block.get_burnfee(),
                    self.timestamp,
                    previous_block.get_timestamp(),
                );
                if self.routing_work_for_creator < amount_of_routing_work_needed {
                    return false;
                }
                proof {
                    if last_type_match(self.transactions@, TransactionType::GoldenTicket)
                        is Some {
                        lemma_last_type_match_range(
                            self.transactions@,
                            TransactionType::GoldenTicket,
                        );
                    }
                }
                match cv.gt_idx {
                    Some(gt_idx) => {
                        match crate::golden_ticket::GoldenTicket::deserialize_for_transaction(
                            self.transactions[gt_idx].get_message(),
                        ) {
                            Some(golden_ticket) => {
                                proof {
                                    let msg = self.transactions@[gt_idx as int].message@;
                                    assert(golden_ticket.target@ =~= gt_target_of(msg));
                                }
                                if !crate::bytes::bytes32_eq(
                                    &golden_ticket.target,
                                    &previous_block.hash,
                                ) {
                                    return false;
                                }
                                let solution = crate::golden_ticket::GoldenTicket::generate_solution(
                                    golden_ticket.get_random(),
                                    golden_ticket.get_publickey(),
                                );
                                proof {
                                    let msg = self.transactions@[gt_idx as int].message@;
                                    assert(golden_ticket.random@ + golden_ticket.publickey@
                                        =~= gt_random_of(msg) + gt_pubkey_of(msg));
                                }
                                if !crate::golden_ticket::GoldenTicket::is_valid_solution(
                                    previous_block.get_hash(),
                                    solution,
                                    previous_block.get_difficulty(),
                                ) {
                                    return false;
                                }
                            },
                            None => {
                                return false;
                            },
                        }
                    },
                    None => {},
                }
            },
            None => {},
        }

        // merkle root: it must equal the recomputed root, and a zero root
        // (an empty commitment) is always invalid
        let generated_root = self.generate_merkle_root();
        let z = zero32();
        if !crate::bytes::bytes32_eq(&self.merkle_root, &generated_root) {
            return false;
        }
        if crate::bytes::bytes32_eq(&self.merkle_root, &z) {
            return false;
        }

        // fee transaction: the block's fee transaction must hash to the
        // recomputed one, with the output uuids rewritten to its signing hash
        if let (Some(ft_idx), Some(fee_transaction)) = (cv.ft_idx, cv.fee_transaction) {
            proof {
                if last_type_match(self.transactions@, TransactionType::GoldenTicket) is None {
                    assert(false);
                }
                lemma_last_type_match_range(
                    self.transactions@,
                    TransactionType::GoldenTicket,
                );
                if last_type_match(self.transactions@, TransactionType::Fee) is None {
                    assert(false);
                }
                lemma_last_type_match_range(self.transactions@, TransactionType::Fee);
            }
            let ghost gt_g = last_type_match(
                self.transactions@,
                TransactionType::GoldenTicket,
            )->Some_0;
            let ghost msg = self.transactions@[gt_g].message@;
            let ghost winner = cv_winner_tx(
                self.transactions@,
                src,
                chain_utxo,
                total_spec,
                gt_random_of(msg),
            );
            let mut fee_transaction = fee_transaction;
            let sig_bytes0 = fee_transaction.serialize_for_signature();
            proof {
                if self.transactions@[gt_g].message@.len() != 97 || total_spec == 0 {
                    assert(false);
                }
                lemma_fee_tx_wire(
                    fee_transaction,
                    gt_pubkey_of(msg),
                    crate::transaction::winning_router_of(winner, sha256_of(gt_random_of(msg))),
                    (total_spec / 2) as u64,
                    (total_spec - total_spec / 2) as u64,
                    zero32_seq(),
                );
                assert(sig_bytes0@ =~= fee_tx_sig_wire_with_uuid(
                    msg,
                    winner,
                    total_spec,
                    zero32_seq(),
                ));
            }
            let fee_transaction_hash_for_signature = hash(&sig_bytes0);
            let mut out0 = fee_transaction.outputs[0];
            out0.set_uuid(fee_transaction_hash_for_signature);
            fee_transaction.outputs[0] = out0;
            let mut out1 = fee_transaction.outputs[1];
            out1.set_uuid(fee_transaction_hash_for_signature);
            fee_transaction.outputs[1] = out1;
            let sig_bytes1 = fee_transaction.serialize_for_signature();
            proof {
                lemma_fee_tx_wire(
                    fee_transaction,
                    gt_pubkey_of(msg),
                    crate::transaction::winning_router_of(winner, sha256_of(gt_random_of(msg))),
                    (total_spec / 2) as u64,
                    (total_spec - total_spec / 2) as u64,
                    fee_transaction_hash_for_signature@,
                );
                assert(sig_bytes1@ =~= expected_fee_tx_final_wire(msg, winner, total_spec));
            }
            let cv_ft_hash = hash(&sig_bytes1);
            let blk_sig_bytes = self.transactions[ft_idx].serialize_for_signature();
            let block_ft_hash = hash(&blk_sig_bytes);
            if !crate::bytes::bytes32_eq(&cv_ft_hash, &block_ft_hash) {
                return false;
            }
        }

        // difficulty
        if cv.expected_difficulty != self.difficulty {
            return false;
        }

        // rebroadcast tallies
        if cv.total_rebroadcast_slips != self.total_rebroadcast_slips {
            return false;
        }
        if cv.total_rebroadcast_nolan != self.total_rebroadcast_nolan {
            return false;
        }
        if !crate::bytes::bytes32_eq(&cv.rebroadcast_hash, &self.rebroadcast_hash) {
            return false;
        }

        // every transaction, in parallel
        all_transactions_valid(&self.transactions, utxoset)
    }

    /// Produces a block at the given timestamp on top of
    /// `previous_block_hash`: the mempool transactions are taken over, a
    /// genesis block is seeded with ten VIP grants of 100 000 nolan to the
    /// creator, the rebroadcast set and payout transaction demanded by the
    /// consensus values are appended, and the block is hashed and signed.
    #[verifier::rlimit(100)]
    #[verifier::spinoff_prover]
    pub fn generate_with_timestamp(
        transactions: &mut Vec<Transaction>,
        previous_block_hash: SaitoHash,
        publickey: &SaitoPublicKey,
        privatekey: &SaitoPrivateKey,
        blockchain: &Blockchain,
        current_timestamp: u64,
    ) -> (r: Block)
        requires
            forall|i: int| 0 <= i < blockchain.blocks@.len() ==> block_lens_ok(
                #[trigger] blockchain.blocks@[i],
            ),
        ensures
            r.previous_block_hash == previous_block_hash,
            r.timestamp == current_timestamp,
            r.creator == *publickey,
            r.hash@ == sha256_of(block_sig_wire(r)),
            r.merkle_root@ == merkle_root_of(txs_sig_hashes(r.transactions@)),
            (match crate::blockchain::find_block_by_hash(
                blockchain.blocks@,
                previous_block_hash@,
            ) {
                Some(p) => r.id == sat_add64(blockchain.blocks@[p].id, 1) && r.burnfee
                    == crate::burnfee::burnfee_for_next_block(
                    blockchain.blocks@[p].burnfee,
                    current_timestamp,
                    blockchain.blocks@[p].timestamp,
                ),
                None => r.id == 1 && r.burnfee == crate::burnfee::burnfee_for_next_block(
                    0,
                    current_timestamp,
                    0,
                ),
            }),
            r.transactions@.len() >= old(transactions)@.len(),
            forall|k: int| 0 <= k < old(transactions)@.len() ==> r.transactions@[k] == old(
                transactions,
            )@[k],
            r.has_golden_ticket == txs_has_type(
                old(transactions)@,
                TransactionType::GoldenTicket,
            ),
            (match crate::blockchain::find_block_by_hash(
                blockchain.blocks@,
                previous_block_hash@,
            ) {
                Some(p) => r.difficulty == expected_difficulty_with_parent(
                    blockchain.blocks@[p],
                    r,
                ),
                None => r.difficulty == 0,
            }),
            final(transactions)@.len() == 0,
            crate::blockchain::find_block_by_hash(blockchain.blocks@, previous_block_hash@)
                is None ==> (forall|j: int| 0 <= j < 10 ==> #[trigger] vip_grant_matches(
                r.transactions@[old(transactions)@.len() + j],
                publickey@,
                100000,
                j as u8,
            )),
            producer_sections_match(
                r,
                old(transactions)@,
                *blockchain,
                previous_block_hash@,
            ),
            crate::crypto::sk_valid(privatekey@) ==> r.signature@ == ecdsa_sign_of(
                sha256_of(block_sig_wire(r)),
                privatekey@,
            ),
    {
        let mut previous_block_id: u64 = 0;
        let mut previous_block_burnfee: u64 = 0;
        let mut previous_block_timestamp: u64 = 0;
        let mut previous_block_difficulty: u64 = 0;
        match blockchain.get_block_by_hash(&previous_block_hash) {
            Some(previous_block) => {
                previous_block_id = previous_block.get_id();
                previous_block_burnfee = previous_block.get_burnfee();
                previous_block_timestamp = previous_block.get_timestamp();
                previous_block_difficulty = previous_block.get_difficulty();
            },
            None => {},
        }

        let mut block = Block::new();
        block.set_timestamp(current_timestamp);
        let current_burnfee =
            crate::burnfee::BurnFee::return_burnfee_for_block_produced_at_current_timestamp_in_nolan(
            previous_block_burnfee,
            current_timestamp,
            previous_block_timestamp,
        );
        block.set_id(previous_block_id.saturating_add(1));
        block.set_previous_block_hash(previous_block_hash);
        block.set_burnfee(current_burnfee);
        block.set_difficulty(previous_block_difficulty);

        core::mem::swap(&mut block.transactions, transactions);
        let ghost taken = block.transactions@;

        let mut has_gt = false;
        let mut gi: usize = 0;
        while gi < block.transactions.len()
            invariant
                gi <= block.transactions@.len(),
                transactions@.len() == 0,
                block.transactions@ == taken,
                has_gt == txs_has_type(taken.take(gi as int), TransactionType::GoldenTicket),
                block.difficulty == previous_block_difficulty,
                block.id == sat_add64(previous_block_id, 1),
                block.timestamp == current_timestamp,
                block.previous_block_hash == previous_block_hash,
                block.burnfee == current_burnfee,
            decreases block.transactions@.len() - gi,
        {
            proof {
                assert(taken.take(gi + 1).drop_last() =~= taken.take(gi as int));
                assert(taken.take(gi + 1).last() == taken[gi as int]);
            }
            if block.transactions[gi].is_golden_ticket() {
                has_gt = true;
            }
            gi = gi + 1;
        }
        proof {
            assert(taken.take(taken.len() as int) =~= taken);
        }
        block.set_has_golden_ticket(has_gt);

        // a genesis block grants the creator ten VIP outputs
        if previous_block_id == 0 {
            let mut v: usize = 0;
            while v < 10
                invariant
                    v <= 10,
                    transactions@.len() == 0,
                    block.transactions@.len() == taken.len() + v,
                    forall|k: int| 0 <= k < taken.len() ==> block.transactions@[k] == taken[k],
                    forall|j: int| 0 <= j < v ==> vip_grant_matches(
                        #[trigger] block.transactions@[taken.len() + j],
                        publickey@,
                        100000,
                        j as u8,
                    ),
                    block.difficulty == previous_block_difficulty,
                    block.id == sat_add64(previous_block_id, 1),
                    block.timestamp == current_timestamp,
                    block.previous_block_hash == previous_block_hash,
                    block.burnfee == current_burnfee,
                    block.has_golden_ticket == txs_has_type(
                        taken,
                        TransactionType::GoldenTicket,
                    ),
                decreases 10 - v,
            {
                let mut transaction = Transaction::generate_vip_transaction(publickey, 100000);
                // distinct ordinals keep the ten grants distinct in the UTXO set
                let mut granted = transaction.outputs[0];
                granted.set_slip_ordinal(v as u8);
                transaction.outputs[0] = granted;
                let _signed = transaction.sign(*privatekey);
                block.add_transaction(transaction);
                v = v + 1;
            }
        }

        let mut cv: DataToValidate = block.generate_data_to_validate(blockchain);
        let expected_difficulty = cv.expected_difficulty;
        let ghost mid = block.transactions@;
        let ghost src0 = atr_source_txs(block, *blockchain);
        let ghost utxo0 = utxo_entries(blockchain.utxoset);
        let ghost pairs0 = txs_atr_pairs(src0, utxo0);
        let ghost ft0 = cv.fee_transaction;

        // rebroadcast transactions join the block before the payout is
        // identified, since they contribute routing work
        let mut ri: usize = 0;
        while ri < cv.rebroadcasts.len()
            invariant
                ri <= cv.rebroadcasts@.len(),
                transactions@.len() == 0,
                cv.rebroadcasts@.len() == pairs0.len(),
                cv.fee_transaction == ft0,
                forall|j: int| ri <= j < pairs0.len() ==> rebroadcast_tx_matches(
                    #[trigger] cv.rebroadcasts@[j],
                    pairs0[j],
                ),
                block.transactions@.len() == mid.len() + ri,
                block.transactions@.take(mid.len() as int) == mid,
                taken == old(transactions)@,
                previous_block_id == 0 ==> mid.len() == taken.len() + 10,
                previous_block_id != 0 ==> mid.len() == taken.len(),
                previous_block_id == 0 ==> (forall|j: int| 0 <= j < 10
                    ==> #[trigger] vip_grant_matches(
                    mid[taken.len() + j],
                    publickey@,
                    100000,
                    j as u8,
                )),
                mid.take(taken.len() as int) == taken,
                forall|k: int| 0 <= k < ri ==> rebroadcast_tx_wire_matches(
                    #[trigger] block.transactions@[mid.len() + k],
                    pairs0[k],
                ),
                block.difficulty == previous_block_difficulty,
                block.id == sat_add64(previous_block_id, 1),
                block.timestamp == current_timestamp,
                block.previous_block_hash == previous_block_hash,
                block.burnfee == current_burnfee,
                block.has_golden_ticket == txs_has_type(
                    taken,
                    TransactionType::GoldenTicket,
                ),
            decreases cv.rebroadcasts@.len() - ri,
        {
            let mut tx = Transaction::new();
            cv.rebroadcasts.set_and_swap(ri, &mut tx);
            let _hashed = tx.generate_metadata_hashes();
            block.add_transaction(tx);
            proof {
                assert(block.transactions@.take(mid.len() as int) =~= mid);
            }
            ri = ri + 1;
        }

        // the payout transaction, signed by the producer
        let ghost paid = cv.fee_transaction is Some;
        match cv.fee_transaction {
            Some(fee_tx) => {
                let mut fee_tx = fee_tx;
                let _signed = fee_tx.sign(*privatekey);
                block.add_transaction(fee_tx);
                block.set_has_fee_transaction(true);
                proof {
                    assert(block.transactions@.take(mid.len() as int) =~= mid);
                }
            },
            None => {},
        }

        // the validator accepts exactly the expected difficulty, so the
        // producer commits to it unconditionally
        block.set_difficulty(expected_difficulty);

        let block_merkle_root = block.generate_merkle_root();
        block.set_merkle_root(block_merkle_root);
        let block_hash = block.generate_hash();
        block.set_hash(block_hash);
        let _signed = block.sign(*publickey, *privatekey);
        proof {
            assert(atr_source_txs(block, *blockchain) == src0);
            assert(block.transactions@.take(mid.len() as int) == mid);
            let fnd = crate::blockchain::find_block_by_hash(
                blockchain.blocks@,
                previous_block_hash@,
            );
            assert(previous_block_id == 0 <==> (match fnd {
                None => true,
                Some(p) => blockchain.blocks@[p].id == 0,
            }));
            if previous_block_id == 0 {
                assert forall|j: int| 0 <= j < 10 implies #[trigger] vip_grant_matches(
                    block.transactions@[taken.len() + j],
                    publickey@,
                    100000,
                    j as u8,
                ) by {
                    assert(block.transactions@[taken.len() + j] == mid[taken.len() + j]);
                }
            }
            assert(mid =~= block.transactions@.take(mid.len() as int));
            assert(producer_sections_match(
                block,
                taken,
                *blockchain,
                previous_block_hash@,
            ));
        }
        block
    }
}

} // verus!
