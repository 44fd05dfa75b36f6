//! The UTXO set: a map from a slip's serialized key to its spend state.
//!
//! The map itself is ahash's `AHashMap`, held behind a struct that Verus
//! does not look into; its contents are named by [`utxo_entries`] and every
//! operation the consensus logic uses carries a contract over that name.
//!
//! Values encode the ladder of §slip lifecycle: a value `b >= 1` means the
//! output is spendable and was created by the block with id `b` (id 0 uses
//! [`SPENDABLE`]); the value [`SPENT`] (0) means the output has been
//! consumed. A key that is absent is unknown.
use vstd::prelude::*;

verus! {

/// Value marking an entry as consumed.
pub const SPENT: u64 = 0;

/// Smallest value marking an entry as spendable.
pub const SPENDABLE: u64 = 1;

/// The UTXO set. The underlying hash map is outside code; all knowledge
/// about a value of this type flows through [`utxo_entries`].
#[verifier::external_body]
pub struct UtxoSet {
    map: ahash::AHashMap<Vec<u8>, u64>,
}

/// The entries of the UTXO set: serialized slip key to spend state.
pub uninterp spec fn utxo_entries(u: UtxoSet) -> Map<Seq<u8>, u64>;

impl UtxoSet {
    /// Relies on ahash's `AHashMap::new`: the new map is empty.
    #[verifier::external_body]
    pub fn new() -> (r: UtxoSet)
        ensures
            utxo_entries(r) =~= Map::empty(),
    {
        UtxoSet { map: ahash::AHashMap::new() }
    }

    /// Relies on ahash's `AHashMap::insert`: maps `key` to `value`, leaving
    /// every other entry unchanged.
    #[verifier::external_body]
    pub fn insert(&mut self, key: &Vec<u8>, value: u64)
        ensures
            utxo_entries(*final(self)) == utxo_entries(*old(self)).insert(key@, value),
    {
        self.map.insert(key.clone(), value);
    }

    /// Relies on ahash's `AHashMap::remove`: removes the entry of `key`,
    /// leaving every other entry unchanged.
    #[verifier::external_body]
    pub fn remove(&mut self, key: &Vec<u8>)
        ensures
            utxo_entries(*final(self)) == utxo_entries(*old(self)).remove(key@),
    {
        self.map.remove(key);
    }

    /// Relies on ahash's `AHashMap::get`: returns the value of `key` when
    /// the map holds it, and nothing otherwise.
    #[verifier::external_body]
    pub fn get(&self, key: &Vec<u8>) -> (r: Option<u64>)
        ensures
            utxo_entries(*self).contains_key(key@) ==> r == Some(utxo_entries(*self)[key@]),
            !utxo_entries(*self).contains_key(key@) ==> r is None,
    {
        self.map.get(key).copied()
    }

    /// Relies on ahash's `AHashMap::len` (via std's `HashMap::len`): the
    /// number of entries in the map.
    #[verifier::external_body]
    pub fn len(&self) -> (n: usize)
        ensures
            n == utxo_entries(*self).dom().len(),
    {
        self.map.len()
    }
}

} // verus!
