//! Consensus core of a proof-of-work / proof-of-stake hybrid blockchain in
//! which transaction fees pay both miners (who solve a hash puzzle) and
//! routers (who propagated the transactions).
//!
//! The crate covers block production and validation, automatic transaction
//! rebroadcasting (ATR), the staking-table lifecycle, the burn-fee engine,
//! and the deterministic wire formats these commit to.
use vstd::prelude::*;

pub mod bignum;
pub mod block;
pub mod blockchain;
pub mod burnfee;
pub mod bytes;
pub mod crypto;
pub mod golden_ticket;
pub mod hop;
pub mod laws;
pub mod mempool;
pub mod merkle;
pub mod peer;
pub mod transaction;
pub mod slip;
pub mod staking;
pub mod utxoset;

verus! {

/// Number of blocks in one epoch: the staking treasury is paid out over this
/// many blocks, and unspent outputs are rebroadcast after this window.
pub const GENESIS_PERIOD: u64 = 10;

/// Target block interval in milliseconds for the burn-fee controller.
pub const HEARTBEAT: u64 = 2_000;

/// Fee in nolan deducted from an output when it is automatically rebroadcast.
/// Outputs worth this much or less are dust: their whole value is collected
/// as fee and no rebroadcast transaction is emitted.
pub const ATR_FEE: u64 = 200_000_000;

/// Blocks pull their rebroadcast set from the block exactly this many blocks
/// behind the tip.
pub const ATR_LAG: u64 = 2;

/// Serialized size of a slip in bytes: publickey 33, uuid 32, amount 8,
/// slip type 1, ordinal 1.
pub const SLIP_SIZE: usize = 75;

/// Serialized size of a hop in bytes: from 33, to 33, signature 64.
pub const HOP_SIZE: usize = 130;

/// Serialized size of the fixed part of a transaction: four u32 lengths,
/// timestamp u64, signature 64, type byte.
pub const TRANSACTION_SIZE: usize = 89;

/// Serialized size of a block header on the wire: transaction count u32,
/// id u64, timestamp u64, previous hash 32, creator 33, merkle root 32,
/// signature 64, treasury u64, burnfee u64, difficulty u64.
pub const BLOCK_HEADER_SIZE: usize = 205;

} // verus!
