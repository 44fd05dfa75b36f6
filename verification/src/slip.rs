//! Slips: the spendable transaction outputs of the chain.
//!
//! A slip names its owner, an amount in nolan, the uuid of what created it,
//! a type, and its ordinal among the outputs of its transaction. Its
//! serialized form doubles as its key in the UTXO set: two slips with equal
//! key are the same output.
use crate::bytes::{
    bytes32_eq, bytes33_eq, push_bytes32, push_bytes33, push_u64_be, read_bytes32, read_bytes33,
    read_u64_be, u64_be_bytes, u64_from_be,
};
use crate::crypto::{SaitoHash, SaitoPublicKey};
use crate::utxoset::{utxo_entries, UtxoSet, SPENT};
use vstd::prelude::*;

verus! {

/// The role a slip plays in consensus.
#[derive(Debug, Clone, Copy, PartialEq, Eq, Structural)]
pub enum SlipType {
    Normal,
    StakerDeposit,
    StakerOutput,
    MinerOutput,
    RouterOutput,
    VIP,
    ATR,
}

/// The byte that encodes a slip type on the wire.
pub open spec fn slip_type_byte(t: SlipType) -> u8 {
    match t {
        SlipType::Normal => 0,
        SlipType::StakerDeposit => 1,
        SlipType::StakerOutput => 2,
        SlipType::MinerOutput => 3,
        SlipType::RouterOutput => 4,
        SlipType::VIP => 5,
        SlipType::ATR => 6,
    }
}

/// The slip type a wire byte decodes to, if any.
pub open spec fn slip_type_of_byte(b: u8) -> Option<SlipType> {
    if b == 0 {
        Some(SlipType::Normal)
    } else if b == 1 {
        Some(SlipType::StakerDeposit)
    } else if b == 2 {
        Some(SlipType::StakerOutput)
    } else if b == 3 {
        Some(SlipType::MinerOutput)
    } else if b == 4 {
        Some(SlipType::RouterOutput)
    } else if b == 5 {
        Some(SlipType::VIP)
    } else if b == 6 {
        Some(SlipType::ATR)
    } else {
        None
    }
}

/// Decoding the encoding of a slip type yields the type back.
pub proof fn lemma_slip_type_round_trip(t: SlipType)
    ensures
        slip_type_of_byte(slip_type_byte(t)) == Some(t),
{
}

/// Encodes a slip type as its wire byte.
pub fn slip_type_to_u8(t: SlipType) -> (r: u8)
    ensures
        r == slip_type_byte(t),
{
    match t {
        SlipType::Normal => 0,
        SlipType::StakerDeposit => 1,
        SlipType::StakerOutput => 2,
        SlipType::MinerOutput => 3,
        SlipType::RouterOutput => 4,
        SlipType::VIP => 5,
        SlipType::ATR => 6,
    }
}

/// Decodes a wire byte to a slip type.
pub fn slip_type_from_u8(b: u8) -> (r: Option<SlipType>)
    ensures
        r == slip_type_of_byte(b),
{
    if b == 0 {
        Some(SlipType::Normal)
    } else if b == 1 {
        Some(SlipType::StakerDeposit)
    } else if b == 2 {
        Some(SlipType::StakerOutput)
    } else if b == 3 {
        Some(SlipType::MinerOutput)
    } else if b == 4 {
        Some(SlipType::RouterOutput)
    } else if b == 5 {
        Some(SlipType::VIP)
    } else if b == 6 {
        Some(SlipType::ATR)
    } else {
        None
    }
}

/// A spendable output.
#[derive(Debug, Clone, Copy, PartialEq)]
pub struct Slip {
    pub publickey: SaitoPublicKey,
    pub uuid: SaitoHash,
    pub amount: u64,
    pub slip_ordinal: u8,
    pub slip_type: SlipType,
}

/// The 75 serialized bytes of a slip: publickey, uuid, amount, type byte,
/// ordinal. This sequence is also the slip's key in the UTXO set.
pub open spec fn slip_wire(s: Slip) -> Seq<u8> {
    s.publickey@ + s.uuid@ + u64_be_bytes(s.amount) + seq![slip_type_byte(s.slip_type)]
        + seq![s.slip_ordinal]
}

/// Structural equality of two slips, field by field.
pub open spec fn slip_eq(a: Slip, b: Slip) -> bool {
    a.publickey@ == b.publickey@ && a.uuid@ == b.uuid@ && a.amount == b.amount
        && a.slip_ordinal == b.slip_ordinal && a.slip_type == b.slip_type
}

/// Whether a slip is spendable against the given UTXO entries: its amount
/// is positive and its key is recorded with a spendable (non-zero) state.
pub open spec fn slip_valid(s: Slip, entries: Map<Seq<u8>, u64>) -> bool {
    s.amount > 0 && entries.contains_key(slip_wire(s)) && entries[slip_wire(s)] >= 1
}

impl Slip {
    /// A zeroed slip of type `Normal`.
    pub fn new() -> (r: Slip)
        ensures
            r.publickey@ =~= Seq::new(33, |i: int| 0u8),
            r.uuid@ =~= Seq::new(32, |i: int| 0u8),
            r.amount == 0,
            r.slip_ordinal == 0,
            r.slip_type == SlipType::Normal,
    {
        Slip {
            publickey: [0u8; 33],
            uuid: [0u8; 32],
            amount: 0,
            slip_ordinal: 0,
            slip_type: SlipType::Normal,
        }
    }

    pub fn get_publickey(&self) -> (r: SaitoPublicKey)
        ensures
            r == self.publickey,
    {
        self.publickey
    }

    pub fn get_uuid(&self) -> (r: SaitoHash)
        ensures
            r == self.uuid,
    {
        self.uuid
    }

    pub fn get_amount(&self) -> (r: u64)
        ensures
            r == self.amount,
    {
        self.amount
    }

    pub fn get_slip_ordinal(&self) -> (r: u8)
        ensures
            r == self.slip_ordinal,
    {
        self.slip_ordinal
    }

    pub fn get_slip_type(&self) -> (r: SlipType)
        ensures
            r == self.slip_type,
    {
        self.slip_type
    }

    pub fn set_publickey(&mut self, publickey: SaitoPublicKey)
        ensures
            final(self).publickey == publickey,
            final(self).uuid == old(self).uuid && final(self).amount == old(self).amount && final(self).slip_ordinal == old(self).slip_ordinal && final(self).slip_type == old(self).slip_type,
    {
        self.publickey = publickey;
    }

    pub fn set_uuid(&mut self, uuid: SaitoHash)
        ensures
            final(self).uuid == uuid,
            final(self).publickey == old(self).publickey && final(self).amount == old(self).amount && final(self).slip_ordinal == old(self).slip_ordinal && final(self).slip_type == old(self).slip_type,
    {
        self.uuid = uuid;
    }

    pub fn set_amount(&mut self, amount: u64)
        ensures
            final(self).amount == amount,
            final(self).publickey == old(self).publickey && final(self).uuid == old(self).uuid && final(self).slip_ordinal == old(self).slip_ordinal && final(self).slip_type == old(self).slip_type,
    {
        self.amount = amount;
    }

    pub fn set_slip_ordinal(&mut self, slip_ordinal: u8)
        ensures
            final(self).slip_ordinal == slip_ordinal,
            final(self).publickey == old(self).publickey && final(self).uuid == old(self).uuid && final(self).amount == old(self).amount && final(self).slip_type == old(self).slip_type,
    {
        self.slip_ordinal = slip_ordinal;
    }

    pub fn set_slip_type(&mut self, slip_type: SlipType)
        ensures
            final(self).slip_type == slip_type,
            final(self).publickey == old(self).publickey && final(self).uuid == old(self).uuid && final(self).amount == old(self).amount && final(self).slip_ordinal == old(self).slip_ordinal,
    {
        self.slip_type = slip_type;
    }

    /// The slip's key in the UTXO set: its serialized bytes.
    pub fn get_utxoset_key(&self) -> (r: Vec<u8>)
        ensures
            r@ == slip_wire(*self),
    {
        self.serialize_for_net()
    }

    /// Serializes the slip for transport or disk: 75 bytes.
    pub fn serialize_for_net(&self) -> (r: Vec<u8>)
        ensures
            r@ == slip_wire(*self),
    {
        let mut v: Vec<u8> = Vec::new();
        push_bytes33(&mut v, &self.publickey);
        push_bytes32(&mut v, &self.uuid);
        push_u64_be(&mut v, self.amount);
        v.push(slip_type_to_u8(self.slip_type));
        v.push(self.slip_ordinal);
        proof {
            assert(v@ =~= slip_wire(*self));
        }
        v
    }

    /// Reads the slip serialized at `off`. Returns nothing when the type
    /// byte is not a slip type.
    pub fn deserialize_from_net_at(bytes: &Vec<u8>, off: usize) -> (r: Option<Slip>)
        requires
            off + 75 <= bytes@.len(),
        ensures
            r matches Some(s) ==> bytes@.subrange(off as int, off + 75) == slip_wire(s),
            r is None ==> slip_type_of_byte(bytes@[off + 73]) is None,
    {
        let n = bytes.len();
        let publickey = read_bytes33(bytes, off);
        let uuid = read_bytes32(bytes, off + 33);
        let amount = read_u64_be(bytes, off + 65);
        let type_byte = bytes[off + 73];
        let slip_ordinal = bytes[off + 74];
        match slip_type_from_u8(type_byte) {
            Some(slip_type) => {
                let s = Slip { publickey, uuid, amount, slip_ordinal, slip_type };
                proof {
                    crate::bytes::lemma_u64_be_inverse(
                        bytes@.subrange(off + 65, off + 73),
                    );
                    assert(bytes@.subrange(off as int, off + 75) =~= slip_wire(s));
                }
                Some(s)
            }
            None => None,
        }
    }

    /// Whether the slip is spendable: positive amount and recorded as
    /// unspent in the UTXO set.
    pub fn validate(&self, utxoset: &UtxoSet) -> (r: bool)
        ensures
            r == slip_valid(*self, utxo_entries(*utxoset)),
    {
        if self.amount == 0 {
            return false;
        }
        let key = self.get_utxoset_key();
        match utxoset.get(&key) {
            Some(state) => state >= 1,
            None => false,
        }
    }

    /// Applies or rolls back this slip's spend state. With `spendable` the
    /// entry is set to `block_id + 1` (saturating), the spendable state for
    /// an output created at `block_id`; otherwise it is set to [`SPENT`].
    pub fn on_chain_reorganization(
        &self,
        utxoset: &mut UtxoSet,
        spendable: bool,
        block_id: u64,
    )
        ensures
            spendable ==> utxo_entries(*final(utxoset)) == utxo_entries(*old(utxoset)).insert(
                slip_wire(*self),
                spendable_state(block_id),
            ),
            !spendable ==> utxo_entries(*final(utxoset)) == utxo_entries(*old(utxoset)).insert(
                slip_wire(*self),
                SPENT,
            ),
    {
        let key = self.get_utxoset_key();
        if spendable {
            let state = if block_id < u64::MAX {
                block_id + 1
            } else {
                u64::MAX
            };
            utxoset.insert(&key, state);
        } else {
            utxoset.insert(&key, SPENT);
        }
    }
}

/// The UTXO state recording an output of block `block_id` as spendable.
pub open spec fn spendable_state(block_id: u64) -> u64 {
    if block_id < u64::MAX {
        (block_id + 1) as u64
    } else {
        u64::MAX
    }
}

/// The UTXO state recording an output of block `block_id` as spendable.
pub fn spendable_state_value(block_id: u64) -> (r: u64)
    ensures
        r == spendable_state(block_id),
{
    if block_id < u64::MAX {
        block_id + 1
    } else {
        u64::MAX
    }
}

/// True exactly when the two slips are equal field by field.
pub fn slip_equal(a: &Slip, b: &Slip) -> (r: bool)
    ensures
        r == slip_eq(*a, *b),
{
    bytes33_eq(&a.publickey, &b.publickey) && bytes32_eq(&a.uuid, &b.uuid)
        && a.amount == b.amount && a.slip_ordinal == b.slip_ordinal
        && a.slip_type == b.slip_type
}

} // verus!
