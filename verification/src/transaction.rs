//! Transactions: slips in, slips out, a message, a routing path and a
//! signature, together with the derived metadata (fees, routing work,
//! cumulative sweeps) that consensus computes over them.
use crate::bytes::{
    push_bytes64, push_slice, push_u32_be, push_u64_be, read_bytes64, read_u32_be, read_u64_be,
    u32_be_bytes, u32_from_be, u64_be_bytes, u64_from_be,
};
use crate::crypto::{
    ecdsa_sign_of, ecdsa_verify_of, hash, sha256_of, sign, verify, SaitoHash, SaitoPrivateKey,
    SaitoPublicKey, SaitoSignature,
};
use crate::hop::{hop_eq, hop_wire, Hop};
use crate::slip::{slip_eq, slip_valid, slip_wire, Slip, SlipType};
use crate::utxoset::{utxo_entries, UtxoSet, SPENT};
use vstd::prelude::*;

verus! {

/// The role a transaction plays in consensus.
#[derive(Debug, Clone, Copy, PartialEq, Eq, Structural)]
pub enum TransactionType {
    Normal,
    Fee,
    GoldenTicket,
    ATR,
    VIP,
    StakerDeposit,
}

/// The byte that encodes a transaction type on the wire.
pub open spec fn tx_type_byte(t: TransactionType) -> u8 {
    match t {
        TransactionType::Normal => 0,
        TransactionType::Fee => 1,
        TransactionType::GoldenTicket => 2,
        TransactionType::ATR => 3,
        TransactionType::VIP => 4,
        TransactionType::StakerDeposit => 5,
    }
}

/// The transaction type a wire byte decodes to, if any.
pub open spec fn tx_type_of_byte(b: u8) -> Option<TransactionType> {
    if b == 0 {
        Some(TransactionType::Normal)
    } else if b == 1 {
        Some(TransactionType::Fee)
    } else if b == 2 {
        Some(TransactionType::GoldenTicket)
    } else if b == 3 {
        Some(TransactionType::ATR)
    } else if b == 4 {
        Some(TransactionType::VIP)
    } else if b == 5 {
        Some(TransactionType::StakerDeposit)
    } else {
        None
    }
}

/// Encodes a transaction type as its wire byte.
pub fn tx_type_to_u8(t: TransactionType) -> (r: u8)
    ensures
        r == tx_type_byte(t),
{
    match t {
        TransactionType::Normal => 0,
        TransactionType::Fee => 1,
        TransactionType::GoldenTicket => 2,
        TransactionType::ATR => 3,
        TransactionType::VIP => 4,
        TransactionType::StakerDeposit => 5,
    }
}

/// Decodes a wire byte to a transaction type.
pub fn tx_type_from_u8(b: u8) -> (r: Option<TransactionType>)
    ensures
        r == tx_type_of_byte(b),
{
    if b == 0 {
        Some(TransactionType::Normal)
    } else if b == 1 {
        Some(TransactionType::Fee)
    } else if b == 2 {
        Some(TransactionType::GoldenTicket)
    } else if b == 3 {
        Some(TransactionType::ATR)
    } else if b == 4 {
        Some(TransactionType::VIP)
    } else if b == 5 {
        Some(TransactionType::StakerDeposit)
    } else {
        None
    }
}

/// A transaction.
#[derive(Debug, Clone, PartialEq)]
pub struct Transaction {
    pub timestamp: u64,
    pub inputs: Vec<Slip>,
    pub outputs: Vec<Slip>,
    pub message: Vec<u8>,
    pub transaction_type: TransactionType,
    pub signature: SaitoSignature,
    pub path: Vec<Hop>,
    /// Hash of [`tx_sig_wire`], set by [`Transaction::sign`] and
    /// [`Transaction::generate_metadata`].
    pub hash_for_signature: Option<SaitoHash>,
    pub total_in: u64,
    pub total_out: u64,
    pub total_fees: u64,
    pub cumulative_fees: u64,
    pub cumulative_work: u64,
    pub routing_work_for_creator: u64,
}

/// The concatenated serializations of a sequence of slips.
pub open spec fn slips_wire(ss: Seq<Slip>) -> Seq<u8>
    decreases ss.len(),
{
    if ss.len() == 0 {
        Seq::empty()
    } else {
        slips_wire(ss.drop_last()) + slip_wire(ss.last())
    }
}

/// The concatenated serializations of a sequence of hops.
pub open spec fn hops_wire(hs: Seq<Hop>) -> Seq<u8>
    decreases hs.len(),
{
    if hs.len() == 0 {
        Seq::empty()
    } else {
        hops_wire(hs.drop_last()) + hop_wire(hs.last())
    }
}

/// A sequence of slips serializes to 75 bytes per slip.
pub proof fn lemma_slips_wire_len(ss: Seq<Slip>)
    ensures
        slips_wire(ss).len() == 75 * ss.len(),
    decreases ss.len(),
{
    if ss.len() > 0 {
        lemma_slips_wire_len(ss.drop_last());
    }
}

/// The serialization of slip `i` occupies bytes `75 * i .. 75 * (i + 1)` of
/// the serialization of the sequence.
pub proof fn lemma_slips_wire_index(ss: Seq<Slip>, i: int)
    requires
        0 <= i < ss.len(),
    ensures
        slips_wire(ss).subrange(75 * i, 75 * (i + 1)) == slip_wire(ss[i]),
    decreases ss.len(),
{
    lemma_slips_wire_len(ss);
    lemma_slips_wire_len(ss.drop_last());
    if i == ss.len() - 1 {
        assert(slips_wire(ss).subrange(75 * i, 75 * (i + 1)) =~= slip_wire(ss.last()));
    } else {
        lemma_slips_wire_index(ss.drop_last(), i);
        assert(slips_wire(ss).subrange(75 * i, 75 * (i + 1)) =~= slips_wire(
            ss.drop_last(),
        ).subrange(75 * i, 75 * (i + 1)));
    }
}

/// A sequence of hops serializes to 130 bytes per hop.
pub proof fn lemma_hops_wire_len(hs: Seq<Hop>)
    ensures
        hops_wire(hs).len() == 130 * hs.len(),
    decreases hs.len(),
{
    if hs.len() > 0 {
        lemma_hops_wire_len(hs.drop_last());
    }
}

/// The serialization of hop `i` occupies bytes `130 * i .. 130 * (i + 1)` of
/// the serialization of the sequence.
pub proof fn lemma_hops_wire_index(hs: Seq<Hop>, i: int)
    requires
        0 <= i < hs.len(),
    ensures
        hops_wire(hs).subrange(130 * i, 130 * (i + 1)) == hop_wire(hs[i]),
    decreases hs.len(),
{
    lemma_hops_wire_len(hs);
    lemma_hops_wire_len(hs.drop_last());
    if i == hs.len() - 1 {
        assert(hops_wire(hs).subrange(130 * i, 130 * (i + 1)) =~= hop_wire(hs.last()));
    } else {
        lemma_hops_wire_index(hs.drop_last(), i);
        assert(hops_wire(hs).subrange(130 * i, 130 * (i + 1)) =~= hops_wire(
            hs.drop_last(),
        ).subrange(130 * i, 130 * (i + 1)));
    }
}

/// Reading a transaction's wire bytes back: the length prefixes, the type
/// byte and the slip chunks of `tx_wire(t)` are exactly the fields of `t`.
#[verifier::rlimit(100)]
#[verifier::spinoff_prover]
pub proof fn lemma_tx_wire_parse_facts(t: Transaction)
    requires
        tx_lens_ok(t),
    ensures
        tx_wire(t).len() == 89 + 75 * t.inputs@.len() + 75 * t.outputs@.len() + t.message@.len()
            + 130 * t.path@.len(),
        u32_from_be(tx_wire(t).subrange(0, 4)) == t.inputs@.len(),
        u32_from_be(tx_wire(t).subrange(4, 8)) == t.outputs@.len(),
        u32_from_be(tx_wire(t).subrange(8, 12)) == t.message@.len(),
        u32_from_be(tx_wire(t).subrange(12, 16)) == t.path@.len(),
        tx_wire(t)[88] == tx_type_byte(t.transaction_type),
        forall|j: int| 0 <= j < t.inputs@.len() ==> tx_wire(t).subrange(
            89 + 75 * j,
            89 + 75 * (j + 1),
        ) == slip_wire(#[trigger] t.inputs@[j]),
        forall|j: int| 0 <= j < t.outputs@.len() ==> tx_wire(t).subrange(
            89 + 75 * (t.inputs@.len() as int) + 75 * j,
            89 + 75 * (t.inputs@.len() as int) + 75 * (j + 1),
        ) == slip_wire(#[trigger] t.outputs@[j]),
{
    let w = tx_wire(t);
    let ni = t.inputs@.len() as int;
    let no = t.outputs@.len() as int;
    lemma_slips_wire_len(t.inputs@);
    lemma_slips_wire_len(t.outputs@);
    lemma_hops_wire_len(t.path@);
    assert(w.subrange(0, 4) =~= u32_be_bytes(t.inputs@.len() as u32));
    crate::bytes::lemma_u32_be_round_trip(t.inputs@.len() as u32);
    assert(w.subrange(4, 8) =~= u32_be_bytes(t.outputs@.len() as u32));
    crate::bytes::lemma_u32_be_round_trip(t.outputs@.len() as u32);
    assert(w.subrange(8, 12) =~= u32_be_bytes(t.message@.len() as u32));
    crate::bytes::lemma_u32_be_round_trip(t.message@.len() as u32);
    assert(w.subrange(12, 16) =~= u32_be_bytes(t.path@.len() as u32));
    crate::bytes::lemma_u32_be_round_trip(t.path@.len() as u32);
    assert(w.subrange(88, 89) =~= seq![tx_type_byte(t.transaction_type)]);
    assert(w[88] == w.subrange(88, 89)[0]);
    assert(slips_wire(t.inputs@) =~= w.subrange(89, 89 + 75 * ni));
    assert forall|j: int| 0 <= j < ni implies w.subrange(89 + 75 * j, 89 + 75 * (j + 1))
        == slip_wire(#[trigger] t.inputs@[j]) by {
        lemma_slips_wire_index(t.inputs@, j);
        assert(w.subrange(89 + 75 * j, 89 + 75 * (j + 1)) =~= w.subrange(
            89,
            89 + 75 * ni,
        ).subrange(75 * j, 75 * (j + 1)));
    }
    assert(slips_wire(t.outputs@) =~= w.subrange(89 + 75 * ni, 89 + 75 * ni + 75 * no));
    assert forall|j: int| 0 <= j < no implies w.subrange(
        89 + 75 * ni + 75 * j,
        89 + 75 * ni + 75 * (j + 1),
    ) == slip_wire(#[trigger] t.outputs@[j]) by {
        lemma_slips_wire_index(t.outputs@, j);
        assert(w.subrange(89 + 75 * ni + 75 * j, 89 + 75 * ni + 75 * (j + 1)) =~= w.subrange(
            89 + 75 * ni,
            89 + 75 * ni + 75 * no,
        ).subrange(75 * j, 75 * (j + 1)));
    }
}

/// Every slip chunk of a transaction's wire carries a decodable type byte.
pub proof fn lemma_wire_slip_type_valid(t: Transaction, i: int, outputs: bool)
    requires
        tx_lens_ok(t),
        !outputs ==> 0 <= i < t.inputs@.len(),
        outputs ==> 0 <= i < t.outputs@.len(),
    ensures
        !outputs ==> crate::slip::slip_type_of_byte(
            tx_wire(t)[89 + 75 * i + 73],
        ) is Some,
        outputs ==> crate::slip::slip_type_of_byte(
            tx_wire(t)[89 + 75 * (t.inputs@.len() as int) + 75 * i + 73],
        ) is Some,
{
    lemma_tx_wire_parse_facts(t);
    let w = tx_wire(t);
    if !outputs {
        let sl = t.inputs@[i];
        assert(w[89 + 75 * i + 73] == w.subrange(89 + 75 * i, 89 + 75 * (i + 1))[73]);
        assert(slip_wire(sl).subrange(73, 74) =~= seq![
            crate::slip::slip_type_byte(sl.slip_type),
        ]);
        assert(slip_wire(sl)[73] == slip_wire(sl).subrange(73, 74)[0]);
        assert(crate::slip::slip_type_of_byte(crate::slip::slip_type_byte(sl.slip_type))
            == Some(sl.slip_type));
    } else {
        let sl = t.outputs@[i];
        let base = 89 + 75 * (t.inputs@.len() as int);
        assert(w[base + 75 * i + 73] == w.subrange(base + 75 * i, base + 75 * (i + 1))[73]);
        assert(slip_wire(sl).subrange(73, 74) =~= seq![
            crate::slip::slip_type_byte(sl.slip_type),
        ]);
        assert(slip_wire(sl)[73] == slip_wire(sl).subrange(73, 74)[0]);
        assert(crate::slip::slip_type_of_byte(crate::slip::slip_type_byte(sl.slip_type))
            == Some(sl.slip_type));
    }
}

/// Whether some transaction with wire-safe lengths serializes to exactly
/// these bytes.
pub open spec fn is_tx_wire(seg: Seq<u8>) -> bool {
    exists|t: Transaction| tx_lens_ok(t) && seg == #[trigger] tx_wire(t)
}

/// Whether the collection lengths of a transaction fit the u32 length
/// prefixes of the wire format.
pub open spec fn tx_lens_ok(t: Transaction) -> bool {
    t.inputs@.len() <= u32::MAX && t.outputs@.len() <= u32::MAX && t.message@.len() <= u32::MAX
        && t.path@.len() <= u32::MAX
}

/// The full wire serialization of a transaction: four u32 lengths,
/// timestamp, signature, type byte, then inputs, outputs, message and path.
pub open spec fn tx_wire(t: Transaction) -> Seq<u8> {
    u32_be_bytes(t.inputs@.len() as u32) + u32_be_bytes(t.outputs@.len() as u32)
        + u32_be_bytes(t.message@.len() as u32) + u32_be_bytes(t.path@.len() as u32)
        + u64_be_bytes(t.timestamp) + t.signature@ + seq![tx_type_byte(t.transaction_type)]
        + slips_wire(t.inputs@) + slips_wire(t.outputs@) + t.message@ + hops_wire(t.path@)
}

/// The bytes hashed to produce a transaction's signing hash: timestamp,
/// inputs, outputs, message and type byte. The signature and the routing
/// path are excluded, so signing is not self-referential and routers can
/// extend the path without invalidating the signature.
pub open spec fn tx_sig_wire(t: Transaction) -> Seq<u8> {
    u64_be_bytes(t.timestamp) + slips_wire(t.inputs@) + slips_wire(t.outputs@) + t.message@
        + seq![tx_type_byte(t.transaction_type)]
}

/// Structural equality of the serialized fields of two transactions.
pub open spec fn tx_core_eq(a: Transaction, b: Transaction) -> bool {
    a.timestamp == b.timestamp && a.inputs@.len() == b.inputs@.len() && a.outputs@.len()
        == b.outputs@.len() && a.message@ == b.message@ && a.transaction_type
        == b.transaction_type && a.signature@ == b.signature@ && a.path@.len() == b.path@.len()
        && (forall|i: int| 0 <= i < a.inputs@.len() ==> slip_eq(a.inputs@[i], b.inputs@[i]))
        && (forall|i: int| 0 <= i < a.outputs@.len() ==> slip_eq(a.outputs@[i], b.outputs@[i]))
        && (forall|i: int| 0 <= i < a.path@.len() ==> hop_eq(a.path@[i], b.path@[i]))
}

impl Transaction {
    /// A zeroed transaction of type `Normal` with no slips, message or path.
    pub fn new() -> (r: Transaction)
        ensures
            r.timestamp == 0,
            r.inputs@.len() == 0,
            r.outputs@.len() == 0,
            r.message@.len() == 0,
            r.transaction_type == TransactionType::Normal,
            r.signature@ =~= Seq::new(64, |i: int| 0u8),
            r.path@.len() == 0,
            r.hash_for_signature is None,
            r.total_in == 0,
            r.total_out == 0,
            r.total_fees == 0,
            r.cumulative_fees == 0,
            r.cumulative_work == 0,
            r.routing_work_for_creator == 0,
    {
        Transaction {
            timestamp: 0,
            inputs: Vec::new(),
            outputs: Vec::new(),
            message: Vec::new(),
            transaction_type: TransactionType::Normal,
            signature: [0u8; 64],
            path: Vec::new(),
            hash_for_signature: None,
            total_in: 0,
            total_out: 0,
            total_fees: 0,
            cumulative_fees: 0,
            cumulative_work: 0,
            routing_work_for_creator: 0,
        }
    }

    pub fn get_timestamp(&self) -> (r: u64)
        ensures
            r == self.timestamp,
    {
        self.timestamp
    }

    pub fn get_transaction_type(&self) -> (r: TransactionType)
        ensures
            r == self.transaction_type,
    {
        self.transaction_type
    }

    pub fn get_signature(&self) -> (r: SaitoSignature)
        ensures
            r == self.signature,
    {
        self.signature
    }

    pub fn get_message(&self) -> (r: &Vec<u8>)
        ensures
            r@ == self.message@,
    {
        &self.message
    }

    pub fn get_inputs(&self) -> (r: &Vec<Slip>)
        ensures
            r@ == self.inputs@,
    {
        &self.inputs
    }

    pub fn get_outputs(&self) -> (r: &Vec<Slip>)
        ensures
            r@ == self.outputs@,
    {
        &self.outputs
    }

    pub fn get_total_fees(&self) -> (r: u64)
        ensures
            r == self.total_fees,
    {
        self.total_fees
    }

    pub fn get_hash_for_signature(&self) -> (r: Option<SaitoHash>)
        ensures
            r == self.hash_for_signature,
    {
        self.hash_for_signature
    }

    pub fn set_timestamp(&mut self, timestamp: u64)
        ensures
            *final(self) == (Transaction { timestamp, ..*old(self) }),
    {
        self.timestamp = timestamp;
    }

    pub fn set_transaction_type(&mut self, transaction_type: TransactionType)
        ensures
            *final(self) == (Transaction { transaction_type, ..*old(self) }),
    {
        self.transaction_type = transaction_type;
    }

    pub fn set_signature(&mut self, signature: SaitoSignature)
        ensures
            *final(self) == (Transaction { signature, ..*old(self) }),
    {
        self.signature = signature;
    }

    pub fn set_message(&mut self, message: Vec<u8>)
        ensures
            *final(self) == (Transaction { message, ..*old(self) }),
    {
        self.message = message;
    }

    pub fn set_hash_for_signature(&mut self, h: SaitoHash)
        ensures
            *final(self) == (Transaction { hash_for_signature: Some(h), ..*old(self) }),
    {
        self.hash_for_signature = Some(h);
    }

    pub fn add_input(&mut self, slip: Slip)
        ensures
            final(self).inputs@ == old(self).inputs@.push(slip),
            *final(self) == (Transaction { inputs: final(self).inputs, ..*old(self) }),
    {
        self.inputs.push(slip);
    }

    pub fn add_output(&mut self, slip: Slip)
        ensures
            final(self).outputs@ == old(self).outputs@.push(slip),
            *final(self) == (Transaction { outputs: final(self).outputs, ..*old(self) }),
    {
        self.outputs.push(slip);
    }

    pub fn add_hop_to_path(&mut self, hop: Hop)
        ensures
            final(self).path@ == old(self).path@.push(hop),
            *final(self) == (Transaction { path: final(self).path, ..*old(self) }),
    {
        self.path.push(hop);
    }

    pub fn is_fee_transaction(&self) -> (r: bool)
        ensures
            r == (self.transaction_type == TransactionType::Fee),
    {
        self.transaction_type == TransactionType::Fee
    }

    pub fn is_golden_ticket(&self) -> (r: bool)
        ensures
            r == (self.transaction_type == TransactionType::GoldenTicket),
    {
        self.transaction_type == TransactionType::GoldenTicket
    }

    /// Serializes the bytes covered by the transaction signature.
    pub fn serialize_for_signature(&self) -> (r: Vec<u8>)
        ensures
            r@ == tx_sig_wire(*self),
    {
        let mut v: Vec<u8> = Vec::new();
        push_u64_be(&mut v, self.timestamp);
        serialize_slips_into(&mut v, &self.inputs);
        serialize_slips_into(&mut v, &self.outputs);
        push_slice(&mut v, &self.message);
        v.push(tx_type_to_u8(self.transaction_type));
        proof {
            assert(v@ =~= tx_sig_wire(*self));
        }
        v
    }

    /// Serializes the transaction for transport or disk.
    pub fn serialize_for_net(&self) -> (r: Vec<u8>)
        requires
            tx_lens_ok(*self),
        ensures
            r@ == tx_wire(*self),
    {
        let mut v: Vec<u8> = Vec::new();
        push_u32_be(&mut v, self.inputs.len() as u32);
        push_u32_be(&mut v, self.outputs.len() as u32);
        push_u32_be(&mut v, self.message.len() as u32);
        push_u32_be(&mut v, self.path.len() as u32);
        push_u64_be(&mut v, self.timestamp);
        push_bytes64(&mut v, &self.signature);
        v.push(tx_type_to_u8(self.transaction_type));
        serialize_slips_into(&mut v, &self.inputs);
        serialize_slips_into(&mut v, &self.outputs);
        push_slice(&mut v, &self.message);
        serialize_hops_into(&mut v, &self.path);
        proof {
            assert(v@ =~= tx_wire(*self));
        }
        v
    }

    /// Reads one transaction from the exact byte range
    /// Reads a transaction's fixed header at `off`: the four section
    /// lengths, the timestamp, the signature and the type byte. Returns
    /// nothing when the range is shorter than the header, does not hold
    /// exactly what the lengths demand, or carries an unknown type byte;
    /// on any byte range that some transaction serializes to, it succeeds.
    #[verifier::rlimit(100)]
    #[verifier::spinoff_prover]
    fn read_tx_header(bytes: &Vec<u8>, off: usize, length: usize) -> (r: Option<
        (usize, usize, usize, usize, u64, SaitoSignature, TransactionType),
    >)
        requires
            off + length <= bytes@.len(),
        ensures
            r matches Some(h) ==> length >= 89 && h.0 == u32_from_be(
                bytes@.subrange(off as int, off + 4),
            ) && h.1 == u32_from_be(bytes@.subrange(off + 4, off + 8)) && h.2 == u32_from_be(
                bytes@.subrange(off + 8, off + 12),
            ) && h.3 == u32_from_be(bytes@.subrange(off + 12, off + 16)) && h.4 == u64_from_be(
                bytes@.subrange(off + 16, off + 24),
            ) && h.5@ == bytes@.subrange(off + 24, off + 88) && tx_type_of_byte(
                bytes@[off + 88],
            ) == Some(h.6) && length == 89 + 75 * h.0 + 75 * h.1 + h.2 + 130 * h.3,
            is_tx_wire(bytes@.subrange(off as int, off + length)) ==> r is Some,
    {
        let ghost seg = bytes@.subrange(off as int, off + length);
        if length < 89 {
            proof {
                if is_tx_wire(seg) {
                    let t = choose|t: Transaction| tx_lens_ok(t) && seg == #[trigger] tx_wire(t);
                    lemma_tx_wire_parse_facts(t);
                    assert(false);
                }
            }
            return None;
        }
        let n = bytes.len();
        let inputs_len = read_u32_be(bytes, off) as usize;
        let outputs_len = read_u32_be(bytes, off + 4) as usize;
        let message_len = read_u32_be(bytes, off + 8) as usize;
        let path_len = read_u32_be(bytes, off + 12) as usize;
        let timestamp = read_u64_be(bytes, off + 16);
        let signature = read_bytes64(bytes, off + 24);
        let type_byte = bytes[off + 88];
        let transaction_type = match tx_type_from_u8(type_byte) {
            Some(t) => t,
            None => {
                proof {
                    if is_tx_wire(seg) {
                        let t = choose|t: Transaction| tx_lens_ok(t) && seg == #[trigger] tx_wire(
                            t,
                        );
                        lemma_tx_wire_parse_facts(t);
                        assert(seg[88] == bytes@[off + 88]);
                        assert(tx_type_of_byte(tx_type_byte(t.transaction_type)) == Some(
                            t.transaction_type,
                        ));
                        assert(false);
                    }
                }
                return None;
            },
        };
        // the body must hold exactly what the four length prefixes demand
        if (length - 89) / 75 < inputs_len {
            proof {
                if is_tx_wire(seg) {
                    let t = choose|t: Transaction| tx_lens_ok(t) && seg == #[trigger] tx_wire(t);
                    lemma_tx_wire_parse_facts(t);
                    assert(seg.subrange(0, 4) =~= bytes@.subrange(off as int, off + 4));
                    assert((length as int - 89) / 75 >= t.inputs@.len()) by (nonlinear_arith)
                        requires
                            length as int - 89 >= 75 * t.inputs@.len(),
                    ;
                    assert(false);
                }
            }
            return None;
        }
        let after_inputs_len: usize = 89 + 75 * inputs_len;
        if (length - after_inputs_len) / 75 < outputs_len {
            proof {
                if is_tx_wire(seg) {
                    let t = choose|t: Transaction| tx_lens_ok(t) && seg == #[trigger] tx_wire(t);
                    lemma_tx_wire_parse_facts(t);
                    assert(seg.subrange(0, 4) =~= bytes@.subrange(off as int, off + 4));
                    assert(seg.subrange(4, 8) =~= bytes@.subrange(off + 4, off + 8));
                    assert((length as int - after_inputs_len) / 75 >= t.outputs@.len())
                        by (nonlinear_arith)
                        requires
                            length as int - after_inputs_len >= 75 * t.outputs@.len(),
                    ;
                    assert(false);
                }
            }
            return None;
        }
        let after_outputs_len: usize = after_inputs_len + 75 * outputs_len;
        if length - after_outputs_len < message_len {
            proof {
                if is_tx_wire(seg) {
                    let t = choose|t: Transaction| tx_lens_ok(t) && seg == #[trigger] tx_wire(t);
                    lemma_tx_wire_parse_facts(t);
                    assert(seg.subrange(0, 4) =~= bytes@.subrange(off as int, off + 4));
                    assert(seg.subrange(4, 8) =~= bytes@.subrange(off + 4, off + 8));
                    assert(seg.subrange(8, 12) =~= bytes@.subrange(off + 8, off + 12));
                    assert(false);
                }
            }
            return None;
        }
        let after_message_len: usize = after_outputs_len + message_len;
        if (length - after_message_len) / 130 != path_len || (length - after_message_len) % 130
            != 0 {
            proof {
                if is_tx_wire(seg) {
                    let t = choose|t: Transaction| tx_lens_ok(t) && seg == #[trigger] tx_wire(t);
                    lemma_tx_wire_parse_facts(t);
                    assert(seg.subrange(0, 4) =~= bytes@.subrange(off as int, off + 4));
                    assert(seg.subrange(4, 8) =~= bytes@.subrange(off + 4, off + 8));
                    assert(seg.subrange(8, 12) =~= bytes@.subrange(off + 8, off + 12));
                    assert(seg.subrange(12, 16) =~= bytes@.subrange(off + 12, off + 16));
                    let np = t.path@.len() as int;
                    assert((130 * np) / 130 == np) by (nonlinear_arith);
                    assert((130 * np) % 130 == 0) by (nonlinear_arith);
                    assert(false);
                }
            }
            return None;
        }
        proof {
            assert(length - after_message_len == 130 * path_len) by (nonlinear_arith)
                requires
                    ((length - after_message_len) as int) / 130 == path_len,
                    ((length - after_message_len) as int) % 130 == 0,
                    length >= after_message_len,
            ;
        }
        Some((inputs_len, outputs_len, message_len, path_len, timestamp, signature,
            transaction_type))
    }

    /// Reads one transaction from the exact byte range
    /// `off .. off + length`. Returns nothing when the range is malformed:
    /// shorter than its length prefixes demand, longer than they demand, or
    /// holding an unknown type byte. On any byte range that some transaction
    /// serializes to, the read succeeds.
    #[verifier::rlimit(100)]
    #[verifier::spinoff_prover]
    pub fn deserialize_from_net_at(bytes: &Vec<u8>, off: usize, length: usize) -> (r: Option<
        Transaction,
    >)
        requires
            off + length <= bytes@.len(),
        ensures
            r matches Some(t) ==> tx_lens_ok(t) && bytes@.subrange(off as int, off + length)
                == tx_wire(t),
            r matches Some(t) ==> t.hash_for_signature is None && t.total_in == 0 && t.total_out
                == 0 && t.total_fees == 0 && t.cumulative_fees == 0 && t.cumulative_work == 0
                && t.routing_work_for_creator == 0,
            is_tx_wire(bytes@.subrange(off as int, off + length)) ==> r is Some,
    {
        let ghost seg = bytes@.subrange(off as int, off + length);
        let header = match Transaction::read_tx_header(bytes, off, length) {
            Some(h) => h,
            None => {
                return None;
            },
        };
        let (inputs_len, outputs_len, message_len, path_len, timestamp, signature,
            transaction_type) = header;
        let n = bytes.len();
        let after_inputs_len: usize = 89 + 75 * inputs_len;
        let after_outputs_len: usize = after_inputs_len + 75 * outputs_len;
        let after_message_len: usize = after_outputs_len + message_len;
        let mut inputs: Vec<Slip> = Vec::new();
        let mut i: usize = 0;
        while i < inputs_len
            invariant
                i <= inputs_len,
                off + length <= n,
                n == bytes@.len(),
                seg == bytes@.subrange(off as int, off + length),
                inputs_len == u32_from_be(bytes@.subrange(off as int, off + 4)),
                89 + 75 * inputs_len <= length,
                inputs@.len() == i,
                forall|j: int| 0 <= j < i ==> slip_wire(#[trigger] inputs@[j]) == bytes@.subrange(
                    off + 89 + 75 * j,
                    off + 89 + 75 * (j + 1),
                ),
            decreases inputs_len - i,
        {
            match Slip::deserialize_from_net_at(bytes, off + 89 + 75 * i) {
                Some(s) => inputs.push(s),
                None => {
                    proof {
                        if is_tx_wire(seg) {
                            let t = choose|t: Transaction| tx_lens_ok(t) && seg
                                == #[trigger] tx_wire(t);
                            lemma_tx_wire_parse_facts(t);
                            assert(seg.subrange(0, 4) =~= bytes@.subrange(
                                off as int,
                                off + 4,
                            ));
                            lemma_wire_slip_type_valid(t, i as int, false);
                            assert(bytes@[off + 89 + 75 * i + 73] == seg[89 + 75 * i + 73]);
                            assert(false);
                        }
                    }
                    return None;
                },
            }
            i = i + 1;
        }
        let mut outputs: Vec<Slip> = Vec::new();
        let mut i: usize = 0;
        while i < outputs_len
            invariant
                i <= outputs_len,
                off + length <= n,
                n == bytes@.len(),
                seg == bytes@.subrange(off as int, off + length),
                inputs_len == u32_from_be(bytes@.subrange(off as int, off + 4)),
                outputs_len == u32_from_be(bytes@.subrange(off + 4, off + 8)),
                after_inputs_len == 89 + 75 * inputs_len,
                after_inputs_len + 75 * outputs_len <= length,
                outputs@.len() == i,
                forall|j: int| 0 <= j < i ==> slip_wire(#[trigger] outputs@[j]) == bytes@.subrange(
                    off + after_inputs_len + 75 * j,
                    off + after_inputs_len + 75 * (j + 1),
                ),
            decreases outputs_len - i,
        {
            match Slip::deserialize_from_net_at(bytes, off + after_inputs_len + 75 * i) {
                Some(s) => outputs.push(s),
                None => {
                    proof {
                        if is_tx_wire(seg) {
                            let t = choose|t: Transaction| tx_lens_ok(t) && seg
                                == #[trigger] tx_wire(t);
                            lemma_tx_wire_parse_facts(t);
                            assert(seg.subrange(0, 4) =~= bytes@.subrange(
                                off as int,
                                off + 4,
                            ));
                            assert(seg.subrange(4, 8) =~= bytes@.subrange(off + 4, off + 8));
                            lemma_wire_slip_type_valid(t, i as int, true);
                            let base = 89 + 75 * (t.inputs@.len() as int);
                            assert(bytes@[off + base + 75 * i + 73] == seg[base + 75 * i + 73]);
                            assert(false);
                        }
                    }
                    return None;
                },
            }
            i = i + 1;
        }
        let mut message: Vec<u8> = Vec::new();
        let mut i: usize = 0;
        while i < message_len
            invariant
                i <= message_len,
                off + length <= n,
                n == bytes@.len(),
                after_outputs_len + message_len <= length,
                message@ == bytes@.subrange(
                    off + after_outputs_len,
                    off + after_outputs_len + i,
                ),
            decreases message_len - i,
        {
            message.push(bytes[off + after_outputs_len + i]);
            assert(message@ =~= bytes@.subrange(
                off + after_outputs_len,
                off + after_outputs_len + i + 1,
            ));
            i = i + 1;
        }
        let mut path: Vec<Hop> = Vec::new();
        let mut i: usize = 0;
        while i < path_len
            invariant
                i <= path_len,
                off + length <= n,
                n == bytes@.len(),
                after_message_len + 130 * path_len <= length,
                path@.len() == i,
                forall|j: int| 0 <= j < i ==> hop_wire(#[trigger] path@[j]) == bytes@.subrange(
                    off + after_message_len + 130 * j,
                    off + after_message_len + 130 * (j + 1),
                ),
            decreases path_len - i,
        {
            let h = Hop::deserialize_from_net_at(bytes, off + after_message_len + 130 * i);
            path.push(h);
            i = i + 1;
        }
        let t = Transaction {
            timestamp,
            inputs,
            outputs,
            message,
            transaction_type,
            signature,
            path,
            hash_for_signature: None,
            total_in: 0,
            total_out: 0,
            total_fees: 0,
            cumulative_fees: 0,
            cumulative_work: 0,
            routing_work_for_creator: 0,
        };
        proof {
            let w_in = bytes@.subrange(off + 89, off + after_inputs_len);
            assert forall|j: int| 0 <= j < t.inputs@.len() implies slip_wire(
                #[trigger] t.inputs@[j],
            ) == w_in.subrange(75 * j, 75 * (j + 1)) by {
                assert(w_in.subrange(75 * j, 75 * (j + 1)) =~= bytes@.subrange(
                    off + 89 + 75 * j,
                    off + 89 + 75 * (j + 1),
                ));
            }
            lemma_wire_chunks_eq_slips(w_in, t.inputs@);
            let w_out = bytes@.subrange(off + after_inputs_len, off + after_outputs_len);
            assert forall|j: int| 0 <= j < t.outputs@.len() implies slip_wire(
                #[trigger] t.outputs@[j],
            ) == w_out.subrange(75 * j, 75 * (j + 1)) by {
                assert(w_out.subrange(75 * j, 75 * (j + 1)) =~= bytes@.subrange(
                    off + after_inputs_len + 75 * j,
                    off + after_inputs_len + 75 * (j + 1),
                ));
            }
            lemma_wire_chunks_eq_slips(w_out, t.outputs@);
            let w_path = bytes@.subrange(off + after_message_len, off + length);
            assert forall|j: int| 0 <= j < t.path@.len() implies hop_wire(
                #[trigger] t.path@[j],
            ) == w_path.subrange(130 * j, 130 * (j + 1)) by {
                assert(w_path.subrange(130 * j, 130 * (j + 1)) =~= bytes@.subrange(
                    off + after_message_len + 130 * j,
                    off + after_message_len + 130 * (j + 1),
                ));
            }
            lemma_wire_chunks_eq_hops(w_path, t.path@);
            crate::bytes::lemma_u32_be_inverse(bytes@.subrange(off as int, off + 4));
            crate::bytes::lemma_u32_be_inverse(bytes@.subrange(off + 4, off + 8));
            crate::bytes::lemma_u32_be_inverse(bytes@.subrange(off + 8, off + 12));
            crate::bytes::lemma_u32_be_inverse(bytes@.subrange(off + 12, off + 16));
            crate::bytes::lemma_u64_be_inverse(bytes@.subrange(off + 16, off + 24));
            assert(bytes@.subrange(off as int, off + length) =~= tx_wire(t));
        }
        Some(t)
    }

    /// Deserializes a transaction from its exact wire bytes.
    pub fn deserialize_from_net(bytes: Vec<u8>) -> (r: Option<Transaction>)
        ensures
            r matches Some(t) ==> tx_lens_ok(t) && bytes@ == tx_wire(t),
            is_tx_wire(bytes@) ==> r is Some,
    {
        let n = bytes.len();
        let r = Transaction::deserialize_from_net_at(&bytes, 0, n);
        proof {
            assert(bytes@.subrange(0, n as int) =~= bytes@);
        }
        r
    }
}

/// Appends the serializations of all slips in `ss` to `v`.
pub fn serialize_slips_into(v: &mut Vec<u8>, ss: &Vec<Slip>)
    ensures
        final(v)@ == old(v)@ + slips_wire(ss@),
{
    let mut i: usize = 0;
    while i < ss.len()
        invariant
            i <= ss@.len(),
            v@ == old(v)@ + slips_wire(ss@.take(i as int)),
        decreases ss@.len() - i,
    {
        let sw = ss[i].serialize_for_net();
        push_slice(v, &sw);
        proof {
            assert(ss@.take(i + 1).drop_last() =~= ss@.take(i as int));
            assert(ss@.take(i + 1).last() == ss@[i as int]);
        }
        i = i + 1;
    }
    proof {
        assert(ss@.take(ss@.len() as int) =~= ss@);
    }
}

/// Appends the serializations of all hops in `hs` to `v`.
pub fn serialize_hops_into(v: &mut Vec<u8>, hs: &Vec<Hop>)
    ensures
        final(v)@ == old(v)@ + hops_wire(hs@),
{
    let mut i: usize = 0;
    while i < hs.len()
        invariant
            i <= hs@.len(),
            v@ == old(v)@ + hops_wire(hs@.take(i as int)),
        decreases hs@.len() - i,
    {
        let hw = hs[i].serialize_for_net();
        push_slice(v, &hw);
        proof {
            assert(hs@.take(i + 1).drop_last() =~= hs@.take(i as int));
            assert(hs@.take(i + 1).last() == hs@[i as int]);
        }
        i = i + 1;
    }
    proof {
        assert(hs@.take(hs@.len() as int) =~= hs@);
    }
}

/// A count capped at the largest u64.
pub open spec fn cap_count(n: nat) -> u64 {
    if n > u64::MAX {
        u64::MAX
    } else {
        n as u64
    }
}

/// A machine count as a u64.
pub fn count_as_u64(n: usize) -> (r: u64)
    ensures
        r == cap_count(n as nat),
{
    n as u64
}

/// Addition on u64 that sticks at the maximum instead of wrapping. All fee
/// and work accumulation in consensus saturates.
pub open spec fn sat_add64(a: u64, b: u64) -> u64 {
    if a + b > u64::MAX {
        u64::MAX
    } else {
        (a + b) as u64
    }
}

/// Subtraction on u64 that stops at zero.
pub open spec fn sat_sub64(a: u64, b: u64) -> u64 {
    if a >= b {
        (a - b) as u64
    } else {
        0
    }
}

/// The saturating sum of the amounts of a sequence of slips.
pub open spec fn slips_amount_sum(ss: Seq<Slip>) -> u64
    decreases ss.len(),
{
    if ss.len() == 0 {
        0
    } else {
        sat_add64(slips_amount_sum(ss.drop_last()), ss.last().amount)
    }
}

/// The fee a transaction pays: inputs minus outputs. Fee transactions pay
/// nothing by definition, and rebroadcast transactions' fees are accounted
/// through the rebroadcast totals instead, so both count as zero here.
pub open spec fn tx_fees(t: Transaction) -> u64 {
    if t.transaction_type == TransactionType::Fee || t.transaction_type == TransactionType::ATR {
        0
    } else {
        sat_sub64(slips_amount_sum(t.inputs@), slips_amount_sum(t.outputs@))
    }
}

/// `f` halved `i` times, truncating: the work share of routing position `i`.
pub open spec fn half_pow(f: u64, i: int) -> u64
    decreases i,
{
    if i <= 0 {
        f
    } else {
        half_pow(f, i - 1) / 2
    }
}

/// The routing work inside `path` credited to `pk`, where the fee share
/// arriving at the first hop of `path` is `f / 2`. Only the first position
/// held by `pk` earns.
pub open spec fn router_work_in_path(path: Seq<Hop>, f: u64, pk: Seq<u8>) -> u64
    decreases path.len(),
{
    if path.len() == 0 {
        0
    } else if path[0].to@ == pk {
        f / 2
    } else {
        router_work_in_path(path.drop_first(), f / 2, pk)
    }
}

/// The routing work of transaction `t` credited to the node `pk`: the whole
/// fee for the originator, half for the first hop, a quarter for the second,
/// and so on.
pub open spec fn tx_routing_work_for(t: Transaction, pk: Seq<u8>) -> u64 {
    if t.path@.len() == 0 {
        if t.inputs@.len() > 0 && t.inputs@[0].publickey@ == pk {
            tx_fees(t)
        } else {
            0
        }
    } else if t.path@[0].from@ == pk {
        tx_fees(t)
    } else {
        router_work_in_path(t.path@, tx_fees(t), pk)
    }
}

/// The lottery weights of a transaction's routing positions: position 0 is
/// the originator with the whole fee, position `i` the `i`-th hop with the
/// fee halved `i` times.
pub open spec fn routing_weights(t: Transaction) -> Seq<u64> {
    Seq::new(t.path@.len() + 1, |i: int| half_pow(tx_fees(t), i))
}

/// The saturating sum of a sequence of weights, head first.
pub open spec fn sat_sum64(ws: Seq<u64>) -> u64
    decreases ws.len(),
{
    if ws.len() == 0 {
        0
    } else {
        sat_add64(ws[0], sat_sum64(ws.drop_first()))
    }
}

/// The position whose cumulative weight band contains `r`: the least `k`
/// with `r < ws[0] + .. + ws[k]`, or the last position as a floor.
pub open spec fn winner_index(ws: Seq<u64>, r: u64) -> int
    decreases ws.len(),
{
    if ws.len() <= 1 {
        0
    } else if r < ws[0] {
        0
    } else {
        1 + winner_index(ws.drop_first(), (r - ws[0]) as u64)
    }
}

/// The public key of a transaction's originator: the first routing hop's
/// sender, or the owner of the first input when there is no path.
pub open spec fn origin_pubkey(t: Transaction) -> Seq<u8> {
    if t.path@.len() > 0 {
        t.path@[0].from@
    } else if t.inputs@.len() > 0 {
        t.inputs@[0].publickey@
    } else {
        Seq::new(33, |i: int| 0u8)
    }
}

/// The public key of the routing position that `k` names: position 0 is the
/// originator, position `k >= 1` the receiver of hop `k - 1`.
pub open spec fn routing_position_pubkey(t: Transaction, k: int) -> Seq<u8> {
    if k == 0 {
        origin_pubkey(t)
    } else {
        t.path@[k - 1].to@
    }
}

/// The winning router of a transaction for a 32-byte random value: the
/// random value is reduced modulo the total routing work and the position
/// whose cumulative band holds it wins. With no work at stake the
/// originator wins.
pub open spec fn winning_router_of(t: Transaction, rand: Seq<u8>) -> Seq<u8> {
    let ws = routing_weights(t);
    let total = sat_sum64(ws);
    if total == 0 {
        origin_pubkey(t)
    } else {
        routing_position_pubkey(t, winner_index(ws, (crate::bignum::be_nat(rand) % (
        total as nat)) as u64))
    }
}

/// The message a hop signs: the previous signature in the chain (the
/// transaction signature for the first hop) followed by the receiver's key.
pub open spec fn hop_msg(t: Transaction, i: int) -> Seq<u8> {
    (if i == 0 {
        t.signature@
    } else {
        t.path@[i - 1].sig@
    }) + t.path@[i].to@
}

/// Whether a transaction's routing path is valid: the first hop leaves the
/// transaction's first input owner, and every hop's signature verifies over
/// the previous signature and the receiver.
pub open spec fn tx_path_valid(t: Transaction) -> bool {
    t.path@.len() == 0 || {
        &&& (t.inputs@.len() > 0 ==> t.path@[0].from@ == t.inputs@[0].publickey@)
        &&& (forall|i: int| 0 <= i < t.path@.len() ==> ecdsa_verify_of(
            sha256_of(hop_msg(t, i)),
            t.path@[i].sig@,
            t.path@[i].from@,
        ))
    }
}

/// Whether a transaction is valid against the given UTXO entries. Fee and
/// rebroadcast transactions are validated at the block level against the
/// recomputed consensus values, and VIP grants carry no inputs; every other
/// transaction must be signed by its first input's owner, spend at least as
/// much as it sends, spend only spendable slips, and carry a valid path.
pub open spec fn tx_valid(t: Transaction, entries: Map<Seq<u8>, u64>) -> bool {
    match t.transaction_type {
        TransactionType::Fee => true,
        TransactionType::ATR => true,
        TransactionType::VIP => true,
        _ => {
            &&& t.inputs@.len() > 0
            &&& ecdsa_verify_of(sha256_of(tx_sig_wire(t)), t.signature@, t.inputs@[0].publickey@)
            &&& slips_amount_sum(t.inputs@) >= slips_amount_sum(t.outputs@)
            &&& (forall|i: int| 0 <= i < t.inputs@.len() ==> slip_valid(
                #[trigger] t.inputs@[i],
                entries,
            ))
            &&& tx_path_valid(t)
        },
    }
}

/// The UTXO entries after setting every slip of `ss` to state `v`.
pub open spec fn set_slips_state(m: Map<Seq<u8>, u64>, ss: Seq<Slip>, v: u64) -> Map<Seq<u8>, u64>
    decreases ss.len(),
{
    if ss.len() == 0 {
        m
    } else {
        set_slips_state(m, ss.drop_last(), v).insert(slip_wire(ss.last()), v)
    }
}

/// The UTXO entries after removing every slip of `ss`.
pub open spec fn remove_slips(m: Map<Seq<u8>, u64>, ss: Seq<Slip>) -> Map<Seq<u8>, u64>
    decreases ss.len(),
{
    if ss.len() == 0 {
        m
    } else {
        remove_slips(m, ss.drop_last()).remove(slip_wire(ss.last()))
    }
}

/// The UTXO entries after applying a transaction: winding marks its inputs
/// spent and its outputs spendable at `block_id`; unwinding restores the
/// inputs to spendable (creation block unknown, recorded as the floor) and
/// forgets the outputs.
pub open spec fn tx_ocr_entries(
    m: Map<Seq<u8>, u64>,
    t: Transaction,
    longest_chain: bool,
    block_id: u64,
) -> Map<Seq<u8>, u64> {
    if longest_chain {
        set_slips_state(
            set_slips_state(m, t.inputs@, SPENT),
            t.outputs@,
            crate::slip::spendable_state(block_id),
        )
    } else {
        remove_slips(set_slips_state(m, t.inputs@, crate::utxoset::SPENDABLE), t.outputs@)
    }
}

impl Transaction {
    /// The saturating sum of the input amounts.
    pub fn sum_inputs(&self) -> (r: u64)
        ensures
            r == slips_amount_sum(self.inputs@),
    {
        sum_slip_amounts(&self.inputs)
    }

    /// The saturating sum of the output amounts.
    pub fn sum_outputs(&self) -> (r: u64)
        ensures
            r == slips_amount_sum(self.outputs@),
    {
        sum_slip_amounts(&self.outputs)
    }

    /// The fee this transaction pays, recomputed from its slips.
    pub fn calculate_total_fees(&self) -> (r: u64)
        ensures
            r == tx_fees(*self),
    {
        match self.transaction_type {
            TransactionType::Fee => 0,
            TransactionType::ATR => 0,
            _ => {
                let total_in = self.sum_inputs();
                let total_out = self.sum_outputs();
                total_in.saturating_sub(total_out)
            },
        }
    }

    /// The routing work of this transaction credited to `publickey`.
    pub fn get_routing_work_for_publickey(&self, publickey: &SaitoPublicKey) -> (r: u64)
        ensures
            r == tx_routing_work_for(*self, publickey@),
    {
        let f = self.calculate_total_fees();
        if self.path.len() == 0 {
            if self.inputs.len() > 0 && crate::bytes::bytes33_eq(
                &self.inputs[0].publickey,
                publickey,
            ) {
                return f;
            }
            return 0;
        }
        if crate::bytes::bytes33_eq(&self.path[0].from, publickey) {
            return f;
        }
        let mut w = f;
        let mut i: usize = 0;
        proof {
            assert(self.path@.skip(0) =~= self.path@);
        }
        while i < self.path.len()
            invariant
                i <= self.path@.len(),
                self.path@.len() > 0,
                self.path@[0].from@ != publickey@,
                f == tx_fees(*self),
                router_work_in_path(self.path@.skip(i as int), w, publickey@)
                    == router_work_in_path(self.path@, f, publickey@),
            decreases self.path@.len() - i,
        {
            proof {
                assert(self.path@.skip(i as int).drop_first() =~= self.path@.skip(i + 1));
                assert(self.path@.skip(i as int)[0] == self.path@[i as int]);
            }
            let w2 = w / 2;
            if crate::bytes::bytes33_eq(&self.path[i].to, publickey) {
                proof {
                    assert(router_work_in_path(self.path@.skip(i as int), w, publickey@)
                        == w / 2);
                }
                return w2;
            }
            w = w2;
            i = i + 1;
        }
        proof {
            assert(self.path@.skip(self.path@.len() as int) =~= Seq::<Hop>::empty());
        }
        0
    }

    /// The winning routing node of this transaction for a 32-byte random
    /// value, chosen by weighted lottery over the routing positions.
    pub fn get_winning_routing_node(&self, random_number: SaitoHash) -> (r: SaitoPublicKey)
        ensures
            r@ == winning_router_of(*self, random_number@),
    {
        let f = self.calculate_total_fees();
        let path_len = self.path.len();
        let mut weights: Vec<u64> = Vec::new();
        let mut w = f;
        weights.push(w);
        let mut i: usize = 0;
        while i < path_len
            invariant
                i <= path_len,
                path_len == self.path@.len(),
                weights@.len() == i + 1,
                w == half_pow(f, i as int),
                forall|j: int| 0 <= j <= i ==> weights@[j] == half_pow(f, j),
            decreases path_len - i,
        {
            w = w / 2;
            weights.push(w);
            i = i + 1;
        }
        proof {
            assert(weights@ =~= routing_weights(*self));
        }
        let total = sat_sum_weights(&weights);
        if total == 0 {
            return self.origin_publickey();
        }
        let r0 = crate::bignum::u256_rem_u64(&random_number, total);
        let mut rem = r0;
        let mut k: usize = 0;
        proof {
            assert(weights@.skip(0) =~= weights@);
        }
        while k < path_len && rem >= weights[k]
            invariant
                0 <= k <= path_len,
                path_len == self.path@.len(),
                weights@.len() == path_len + 1,
                winner_index(weights@, r0) == k + winner_index(weights@.skip(k as int), rem),
            decreases path_len - k,
        {
            proof {
                assert(weights@.skip(k as int).drop_first() =~= weights@.skip(k + 1));
                assert(weights@.skip(k as int)[0] == weights@[k as int]);
            }
            rem = rem - weights[k];
            k = k + 1;
        }
        proof {
            assert(weights@.skip(k as int)[0] == weights@[k as int]);
            if k < path_len {
                assert(winner_index(weights@.skip(k as int), rem) == 0);
            } else {
                assert(weights@.skip(k as int).len() == 1);
            }
            assert(winner_index(weights@, r0) == k as int);
        }
        if k == 0 {
            self.origin_publickey()
        } else {
            self.path[k - 1].to
        }
    }

    /// The originator's public key: the first hop's sender, or the first
    /// input's owner when there is no path.
    pub fn origin_publickey(&self) -> (r: SaitoPublicKey)
        ensures
            r@ == origin_pubkey(*self),
    {
        if self.path.len() > 0 {
            self.path[0].from
        } else if self.inputs.len() > 0 {
            self.inputs[0].publickey
        } else {
            let z = [0u8; 33];
            proof {
                assert(z@ =~= Seq::new(33, |i: int| 0u8));
            }
            z
        }
    }

    /// Recomputes this transaction's derived metadata: the signing hash, the
    /// amount totals, the fee, and the routing work credited to the block
    /// creator.
    pub fn generate_metadata(&mut self, creator_publickey: SaitoPublicKey) -> (r: bool)
        ensures
            r,
            tx_core_eq(*final(self), *old(self)),
            final(self).inputs@ == old(self).inputs@ && final(self).outputs@ == old(
                self,
            ).outputs@ && final(self).path@ == old(self).path@,
            final(self).hash_for_signature matches Some(h) && h@ == sha256_of(
                tx_sig_wire(*old(self)),
            ),
            final(self).total_in == slips_amount_sum(old(self).inputs@),
            final(self).total_out == slips_amount_sum(old(self).outputs@),
            final(self).total_fees == tx_fees(*old(self)),
            final(self).routing_work_for_creator == tx_routing_work_for(
                *old(self),
                creator_publickey@,
            ),
            final(self).cumulative_fees == old(self).cumulative_fees,
            final(self).cumulative_work == old(self).cumulative_work,
    {
        let sig_bytes = self.serialize_for_signature();
        self.hash_for_signature = Some(hash(&sig_bytes));
        self.total_in = self.sum_inputs();
        self.total_out = self.sum_outputs();
        self.total_fees = self.calculate_total_fees();
        self.routing_work_for_creator = self.get_routing_work_for_publickey(&creator_publickey);
        true
    }

    /// Recomputes only the signing hash.
    pub fn generate_metadata_hashes(&mut self) -> (r: bool)
        ensures
            r,
            final(self).hash_for_signature matches Some(h) && h@ == sha256_of(
                tx_sig_wire(*old(self)),
            ),
            *final(self) == (Transaction {
                hash_for_signature: final(self).hash_for_signature,
                ..*old(self)
            }),
    {
        let sig_bytes = self.serialize_for_signature();
        self.hash_for_signature = Some(hash(&sig_bytes));
        true
    }

    /// Records the running fee total of the block up to and including this
    /// transaction; the bands of the running total drive the block lottery.
    pub fn generate_metadata_cumulative_fees(&mut self, cumulative_fees: u64) -> (r: u64)
        ensures
            r == sat_add64(cumulative_fees, old(self).total_fees),
            *final(self) == (Transaction { cumulative_fees: r, ..*old(self) }),
    {
        let c = cumulative_fees.saturating_add(self.total_fees);
        self.cumulative_fees = c;
        c
    }

    /// Records the running routing-work total of the block up to and
    /// including this transaction.
    pub fn generate_metadata_cumulative_work(&mut self, cumulative_work: u64) -> (r: u64)
        ensures
            r == sat_add64(cumulative_work, old(self).routing_work_for_creator),
            *final(self) == (Transaction { cumulative_work: r, ..*old(self) }),
    {
        let c = cumulative_work.saturating_add(self.routing_work_for_creator);
        self.cumulative_work = c;
        c
    }

    /// Signs the transaction: stores the signing hash and the deterministic
    /// signature of it under `privatekey`. Succeeds exactly on valid
    /// secp256k1 secret keys, and the signature then verifies under the
    /// derived public key; an invalid key leaves the signature untouched.
    pub fn sign(&mut self, privatekey: SaitoPrivateKey) -> (r: bool)
        ensures
            r == crate::crypto::sk_valid(privatekey@),
            final(self).hash_for_signature matches Some(h) && h@ == sha256_of(
                tx_sig_wire(*old(self)),
            ),
            r ==> final(self).signature@ == ecdsa_sign_of(
                sha256_of(tx_sig_wire(*old(self))),
                privatekey@,
            ),
            r ==> ecdsa_verify_of(
                sha256_of(tx_sig_wire(*old(self))),
                final(self).signature@,
                crate::crypto::pubkey_of(privatekey@),
            ),
            !r ==> final(self).signature@ == old(self).signature@,
            final(self).timestamp == old(self).timestamp && final(self).inputs@ == old(
                self,
            ).inputs@ && final(self).outputs@ == old(self).outputs@ && final(self).message@
                == old(self).message@ && final(self).transaction_type == old(
                self,
            ).transaction_type && final(self).path@ == old(self).path@,
    {
        let sig_bytes = self.serialize_for_signature();
        let h = hash(&sig_bytes);
        self.hash_for_signature = Some(h);
        match sign(&h, &privatekey) {
            Some(s) => {
                self.signature = s;
                true
            },
            None => false,
        }
    }

    /// Whether this transaction is valid against the UTXO set: see
    /// [`tx_valid`].
    pub fn validate(&self, utxoset: &UtxoSet) -> (r: bool)
        ensures
            r == tx_valid(*self, utxo_entries(*utxoset)),
    {
        match self.transaction_type {
            TransactionType::Fee => return true,
            TransactionType::ATR => return true,
            TransactionType::VIP => return true,
            _ => {},
        }
        if self.inputs.len() == 0 {
            return false;
        }
        let sig_bytes = self.serialize_for_signature();
        let h = hash(&sig_bytes);
        if !verify(&h, &self.signature, &self.inputs[0].publickey) {
            return false;
        }
        let total_in = self.sum_inputs();
        let total_out = self.sum_outputs();
        if total_in < total_out {
            return false;
        }
        let mut i: usize = 0;
        while i < self.inputs.len()
            invariant
                i <= self.inputs@.len(),
                self.transaction_type != TransactionType::Fee,
                self.transaction_type != TransactionType::ATR,
                self.transaction_type != TransactionType::VIP,
                self.inputs@.len() > 0,
                ecdsa_verify_of(
                    sha256_of(tx_sig_wire(*self)),
                    self.signature@,
                    self.inputs@[0].publickey@,
                ),
                slips_amount_sum(self.inputs@) >= slips_amount_sum(self.outputs@),
                forall|j: int| 0 <= j < i ==> slip_valid(
                    #[trigger] self.inputs@[j],
                    utxo_entries(*utxoset),
                ),
            decreases self.inputs@.len() - i,
        {
            if !self.inputs[i].validate(utxoset) {
                return false;
            }
            i = i + 1;
        }
        self.validate_routing_path()
    }

    /// Whether this transaction's routing path is valid: see
    /// [`tx_path_valid`].
    pub fn validate_routing_path(&self) -> (r: bool)
        ensures
            r == tx_path_valid(*self),
    {
        if self.path.len() == 0 {
            return true;
        }
        if self.inputs.len() > 0 && !crate::bytes::bytes33_eq(
            &self.path[0].from,
            &self.inputs[0].publickey,
        ) {
            return false;
        }
        let mut i: usize = 0;
        while i < self.path.len()
            invariant
                i <= self.path@.len(),
                forall|j: int| 0 <= j < i ==> ecdsa_verify_of(
                    sha256_of(hop_msg(*self, j)),
                    #[trigger] self.path@[j].sig@,
                    self.path@[j].from@,
                ),
            decreases self.path@.len() - i,
        {
            let mut msg: Vec<u8> = Vec::new();
            if i == 0 {
                push_bytes64(&mut msg, &self.signature);
            } else {
                push_bytes64(&mut msg, &self.path[i - 1].sig);
            }
            crate::bytes::push_bytes33(&mut msg, &self.path[i].to);
            proof {
                assert(msg@ =~= hop_msg(*self, i as int));
            }
            let mh = hash(&msg);
            if !verify(&mh, &self.path[i].sig, &self.path[i].from) {
                return false;
            }
            i = i + 1;
        }
        true
    }

    /// Applies or rolls back this transaction's effect on the UTXO set: see
    /// [`tx_ocr_entries`].
    pub fn on_chain_reorganization(
        &self,
        utxoset: &mut UtxoSet,
        longest_chain: bool,
        block_id: u64,
    )
        ensures
            utxo_entries(*final(utxoset)) == tx_ocr_entries(
                utxo_entries(*old(utxoset)),
                *self,
                longest_chain,
                block_id,
            ),
    {
        if longest_chain {
            set_slips_in_utxoset(utxoset, &self.inputs, SPENT);
            let state = crate::slip::spendable_state_value(block_id);
            set_slips_in_utxoset(utxoset, &self.outputs, state);
        } else {
            set_slips_in_utxoset(utxoset, &self.inputs, crate::utxoset::SPENDABLE);
            remove_slips_from_utxoset(utxoset, &self.outputs);
        }
    }

    /// Builds the automatic rebroadcast of `output`, an unspent slip of the
    /// transaction `transaction_to_rebroadcast` in the block leaving the
    /// epoch: a transaction of type `ATR` that spends the output, pays its
    /// value minus `with_fee` back to the owner, and carries the original
    /// transaction's serialization as its message.
    pub fn generate_rebroadcast_transaction(
        transaction_to_rebroadcast: &Transaction,
        output: &Slip,
        with_fee: u64,
    ) -> (r: Transaction)
        requires
            output.amount > with_fee,
            tx_lens_ok(*transaction_to_rebroadcast),
        ensures
            r.transaction_type == TransactionType::ATR,
            r.timestamp == 0,
            r.path@.len() == 0,
            r.inputs@.len() == 1 && slip_eq(r.inputs@[0], *output),
            r.outputs@.len() == 1,
            r.outputs@[0].publickey@ == output.publickey@,
            r.outputs@[0].uuid@ == output.uuid@,
            r.outputs@[0].amount == output.amount - with_fee,
            r.outputs@[0].slip_ordinal == 0,
            r.outputs@[0].slip_type == SlipType::ATR,
            r.message@ == tx_wire(*transaction_to_rebroadcast),
            r.signature@ =~= Seq::new(64, |i: int| 0u8),
            r.hash_for_signature is None,
            r.total_in == 0 && r.total_out == 0 && r.total_fees == 0 && r.cumulative_fees == 0
                && r.cumulative_work == 0 && r.routing_work_for_creator == 0,
    {
        let mut transaction = Transaction::new();
        transaction.set_transaction_type(TransactionType::ATR);
        transaction.add_input(*output);
        let mut rebroadcast_output = *output;
        rebroadcast_output.set_amount(output.amount - with_fee);
        rebroadcast_output.set_slip_ordinal(0);
        rebroadcast_output.set_slip_type(SlipType::ATR);
        transaction.add_output(rebroadcast_output);
        transaction.set_message(transaction_to_rebroadcast.serialize_for_net());
        transaction
    }

    /// Builds a VIP grant of `amount` nolan to `publickey`: a transaction of
    /// type `VIP` with a single VIP output and no inputs.
    pub fn generate_vip_transaction(publickey: &SaitoPublicKey, amount: u64) -> (r: Transaction)
        ensures
            r.transaction_type == TransactionType::VIP,
            r.inputs@.len() == 0,
            r.outputs@.len() == 1,
            r.outputs@[0].publickey@ == publickey@,
            r.outputs@[0].amount == amount,
            r.outputs@[0].slip_type == SlipType::VIP,
            r.outputs@[0].slip_ordinal == 0,
            r.path@.len() == 0,
            r.message@.len() == 0,
    {
        let mut transaction = Transaction::new();
        transaction.set_transaction_type(TransactionType::VIP);
        let mut output = Slip::new();
        output.set_publickey(*publickey);
        output.set_amount(amount);
        output.set_slip_type(SlipType::VIP);
        output.set_slip_ordinal(0);
        transaction.add_output(output);
        transaction
    }
}

/// The saturating sum of the amounts of a vector of slips.
pub fn sum_slip_amounts(ss: &Vec<Slip>) -> (r: u64)
    ensures
        r == slips_amount_sum(ss@),
{
    let mut acc: u64 = 0;
    let mut i: usize = 0;
    while i < ss.len()
        invariant
            i <= ss@.len(),
            acc == slips_amount_sum(ss@.take(i as int)),
        decreases ss@.len() - i,
    {
        proof {
            assert(ss@.take(i + 1).drop_last() =~= ss@.take(i as int));
            assert(ss@.take(i + 1).last() == ss@[i as int]);
        }
        acc = acc.saturating_add(ss[i].amount);
        i = i + 1;
    }
    proof {
        assert(ss@.take(ss@.len() as int) =~= ss@);
    }
    acc
}

/// The saturating sum of a vector of weights.
pub fn sat_sum_weights(ws: &Vec<u64>) -> (r: u64)
    ensures
        r == sat_sum64(ws@),
{
    let mut acc: u64 = 0;
    let mut i: usize = ws.len();
    while i > 0
        invariant
            i <= ws@.len(),
            acc == sat_sum64(ws@.skip(i as int)),
        decreases i,
    {
        proof {
            assert(ws@.skip(i - 1).drop_first() =~= ws@.skip(i as int));
            assert(ws@.skip(i - 1)[0] == ws@[i - 1]);
        }
        i = i - 1;
        acc = ws[i].saturating_add(acc);
    }
    proof {
        assert(ws@.skip(0) =~= ws@);
    }
    acc
}

/// Sets the state of every slip of `ss` in the UTXO set to `v`.
pub fn set_slips_in_utxoset(utxoset: &mut UtxoSet, ss: &Vec<Slip>, v: u64)
    ensures
        utxo_entries(*final(utxoset)) == set_slips_state(utxo_entries(*old(utxoset)), ss@, v),
{
    let mut i: usize = 0;
    while i < ss.len()
        invariant
            i <= ss@.len(),
            utxo_entries(*utxoset) == set_slips_state(
                utxo_entries(*old(utxoset)),
                ss@.take(i as int),
                v,
            ),
        decreases ss@.len() - i,
    {
        proof {
            assert(ss@.take(i + 1).drop_last() =~= ss@.take(i as int));
            assert(ss@.take(i + 1).last() == ss@[i as int]);
        }
        let key = ss[i].get_utxoset_key();
        utxoset.insert(&key, v);
        i = i + 1;
    }
    proof {
        assert(ss@.take(ss@.len() as int) =~= ss@);
    }
}

/// Removes every slip of `ss` from the UTXO set.
pub fn remove_slips_from_utxoset(utxoset: &mut UtxoSet, ss: &Vec<Slip>)
    ensures
        utxo_entries(*final(utxoset)) == remove_slips(utxo_entries(*old(utxoset)), ss@),
{
    let mut i: usize = 0;
    while i < ss.len()
        invariant
            i <= ss@.len(),
            utxo_entries(*utxoset) == remove_slips(
                utxo_entries(*old(utxoset)),
                ss@.take(i as int),
            ),
        decreases ss@.len() - i,
    {
        proof {
            assert(ss@.take(i + 1).drop_last() =~= ss@.take(i as int));
            assert(ss@.take(i + 1).last() == ss@[i as int]);
        }
        let key = ss[i].get_utxoset_key();
        utxoset.remove(&key);
        i = i + 1;
    }
    proof {
        assert(ss@.take(ss@.len() as int) =~= ss@);
    }
}

/// If every 75-byte chunk of `w` is the serialization of the matching slip
/// of `ss`, then `w` is the serialization of `ss`.
pub proof fn lemma_wire_chunks_eq_slips(w: Seq<u8>, ss: Seq<Slip>)
    requires
        w.len() == 75 * ss.len(),
        forall|j: int| 0 <= j < ss.len() ==> slip_wire(#[trigger] ss[j]) == w.subrange(
            75 * j,
            75 * (j + 1),
        ),
    ensures
        w == slips_wire(ss),
    decreases ss.len(),
{
    lemma_slips_wire_len(ss);
    if ss.len() == 0 {
        assert(w =~= slips_wire(ss));
    } else {
        let m = ss.len() - 1;
        let w0 = w.subrange(0, 75 * m);
        assert forall|j: int| 0 <= j < m implies slip_wire(#[trigger] ss.drop_last()[j])
            == w0.subrange(75 * j, 75 * (j + 1)) by {
            assert(ss.drop_last()[j] == ss[j]);
            assert(w0.subrange(75 * j, 75 * (j + 1)) =~= w.subrange(75 * j, 75 * (j + 1)));
        }
        lemma_wire_chunks_eq_slips(w0, ss.drop_last());
        assert(slip_wire(ss.last()) == w.subrange(75 * m, 75 * ss.len() as int));
        assert(w =~= slips_wire(ss.drop_last()) + slip_wire(ss.last()));
    }
}

/// If every 130-byte chunk of `w` is the serialization of the matching hop
/// of `hs`, then `w` is the serialization of `hs`.
pub proof fn lemma_wire_chunks_eq_hops(w: Seq<u8>, hs: Seq<Hop>)
    requires
        w.len() == 130 * hs.len(),
        forall|j: int| 0 <= j < hs.len() ==> hop_wire(#[trigger] hs[j]) == w.subrange(
            130 * j,
            130 * (j + 1),
        ),
    ensures
        w == hops_wire(hs),
    decreases hs.len(),
{
    lemma_hops_wire_len(hs);
    if hs.len() == 0 {
        assert(w =~= hops_wire(hs));
    } else {
        let m = hs.len() - 1;
        let w0 = w.subrange(0, 130 * m);
        assert forall|j: int| 0 <= j < m implies hop_wire(#[trigger] hs.drop_last()[j])
            == w0.subrange(130 * j, 130 * (j + 1)) by {
            assert(hs.drop_last()[j] == hs[j]);
            assert(w0.subrange(130 * j, 130 * (j + 1)) =~= w.subrange(130 * j, 130 * (j + 1)));
        }
        lemma_wire_chunks_eq_hops(w0, hs.drop_last());
        assert(hop_wire(hs.last()) == w.subrange(130 * m, 130 * hs.len() as int));
        assert(w =~= hops_wire(hs.drop_last()) + hop_wire(hs.last()));
    }
}

} // verus!
