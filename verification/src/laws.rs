//! The laws the library promises across functions: wire round-trips, the
//! payout split, and the monotonic life of an output in the UTXO set.
use crate::block::{block_lens_ok, block_wire, fee_tx_matches, txs_wire, Block};
use crate::bytes::{lemma_u32_be_round_trip, lemma_u64_be_round_trip, u32_be_bytes, u32_from_be, u64_be_bytes};
use crate::slip::{slip_eq, slip_type_byte, slip_wire, spendable_state, Slip};
use crate::transaction::{
    hops_wire, lemma_hops_wire_index, lemma_hops_wire_len, lemma_slips_wire_index,
    lemma_slips_wire_len, remove_slips, set_slips_state, slips_wire, tx_core_eq, tx_lens_ok,
    tx_ocr_entries, tx_wire, Transaction,
};
use crate::utxoset::SPENT;
use vstd::prelude::*;

verus! {

/// Two slips with the same 75 serialized bytes are the same slip, field by
/// field. With serialization's exactness this is the slip round-trip: a slip
/// read back from its bytes equals the slip that produced them.
pub proof fn lemma_slip_wire_injective(a: Slip, b: Slip)
    requires
        slip_wire(a) == slip_wire(b),
    ensures
        slip_eq(a, b),
{
    let w = slip_wire(a);
    assert(a.publickey@ =~= w.subrange(0, 33));
    assert(b.publickey@ =~= w.subrange(0, 33));
    assert(a.uuid@ =~= w.subrange(33, 65));
    assert(b.uuid@ =~= w.subrange(33, 65));
    assert(u64_be_bytes(a.amount) =~= w.subrange(65, 73));
    assert(u64_be_bytes(b.amount) =~= w.subrange(65, 73));
    lemma_u64_be_round_trip(a.amount);
    lemma_u64_be_round_trip(b.amount);
    assert(slip_type_byte(a.slip_type) == w[73]);
    assert(slip_type_byte(b.slip_type) == w[73]);
    assert(a.slip_ordinal == w[74]);
    assert(b.slip_ordinal == w[74]);
}

/// Matching slip lists follow from matching serializations of equal length.
proof fn lemma_slips_wire_injective(a: Seq<Slip>, b: Seq<Slip>)
    requires
        a.len() == b.len(),
        slips_wire(a) == slips_wire(b),
    ensures
        forall|i: int| 0 <= i < a.len() ==> slip_eq(#[trigger] a[i], b[i]),
{
    assert forall|i: int| 0 <= i < a.len() implies slip_eq(#[trigger] a[i], b[i]) by {
        lemma_slips_wire_index(a, i);
        lemma_slips_wire_index(b, i);
        lemma_slip_wire_injective(a[i], b[i]);
    }
}

/// Two transactions with the same wire bytes are the same transaction on
/// every serialized field. With serialization's exactness this is the
/// transaction round-trip: a transaction read back from its bytes equals the
/// transaction that produced them on every field of the wire.
#[verifier::rlimit(100)]
#[verifier::spinoff_prover]
pub proof fn lemma_tx_wire_injective(a: Transaction, b: Transaction)
    requires
        tx_lens_ok(a),
        tx_lens_ok(b),
        tx_wire(a) == tx_wire(b),
    ensures
        tx_core_eq(a, b),
{
    let w = tx_wire(a);
    lemma_slips_wire_len(a.inputs@);
    lemma_slips_wire_len(b.inputs@);
    lemma_slips_wire_len(a.outputs@);
    lemma_slips_wire_len(b.outputs@);
    lemma_hops_wire_len(a.path@);
    lemma_hops_wire_len(b.path@);
    // the four length prefixes agree, so the section boundaries agree
    assert(u32_be_bytes(a.inputs@.len() as u32) =~= w.subrange(0, 4));
    assert(u32_be_bytes(b.inputs@.len() as u32) =~= w.subrange(0, 4));
    lemma_u32_be_round_trip(a.inputs@.len() as u32);
    lemma_u32_be_round_trip(b.inputs@.len() as u32);
    assert(a.inputs@.len() == b.inputs@.len());
    assert(u32_be_bytes(a.outputs@.len() as u32) =~= w.subrange(4, 8));
    assert(u32_be_bytes(b.outputs@.len() as u32) =~= w.subrange(4, 8));
    lemma_u32_be_round_trip(a.outputs@.len() as u32);
    lemma_u32_be_round_trip(b.outputs@.len() as u32);
    assert(a.outputs@.len() == b.outputs@.len());
    assert(u32_be_bytes(a.message@.len() as u32) =~= w.subrange(8, 12));
    assert(u32_be_bytes(b.message@.len() as u32) =~= w.subrange(8, 12));
    lemma_u32_be_round_trip(a.message@.len() as u32);
    lemma_u32_be_round_trip(b.message@.len() as u32);
    assert(a.message@.len() == b.message@.len());
    assert(u32_be_bytes(a.path@.len() as u32) =~= w.subrange(12, 16));
    assert(u32_be_bytes(b.path@.len() as u32) =~= w.subrange(12, 16));
    lemma_u32_be_round_trip(a.path@.len() as u32);
    lemma_u32_be_round_trip(b.path@.len() as u32);
    assert(a.path@.len() == b.path@.len());
    // the scalar fields
    assert(u64_be_bytes(a.timestamp) =~= w.subrange(16, 24));
    assert(u64_be_bytes(b.timestamp) =~= w.subrange(16, 24));
    lemma_u64_be_round_trip(a.timestamp);
    lemma_u64_be_round_trip(b.timestamp);
    assert(a.signature@ =~= w.subrange(24, 88));
    assert(b.signature@ =~= w.subrange(24, 88));
    assert(crate::transaction::tx_type_byte(a.transaction_type) == w[88]);
    assert(crate::transaction::tx_type_byte(b.transaction_type) == w[88]);
    // the sections
    let ni = a.inputs@.len() as int;
    let no = a.outputs@.len() as int;
    let nm = a.message@.len() as int;
    let np = a.path@.len() as int;
    assert(slips_wire(a.inputs@) =~= w.subrange(89, 89 + 75 * ni));
    assert(slips_wire(b.inputs@) =~= w.subrange(89, 89 + 75 * ni));
    lemma_slips_wire_injective(a.inputs@, b.inputs@);
    assert(slips_wire(a.outputs@) =~= w.subrange(89 + 75 * ni, 89 + 75 * ni + 75 * no));
    assert(slips_wire(b.outputs@) =~= w.subrange(89 + 75 * ni, 89 + 75 * ni + 75 * no));
    lemma_slips_wire_injective(a.outputs@, b.outputs@);
    assert(a.message@ =~= w.subrange(89 + 75 * (ni + no), 89 + 75 * (ni + no) + nm));
    assert(b.message@ =~= w.subrange(89 + 75 * (ni + no), 89 + 75 * (ni + no) + nm));
    let hs = 89 + 75 * (ni + no) + nm;
    assert(hops_wire(a.path@) =~= w.subrange(hs, hs + 130 * np));
    assert(hops_wire(b.path@) =~= w.subrange(hs, hs + 130 * np));
    assert forall|i: int| 0 <= i < np implies crate::hop::hop_eq(
        #[trigger] a.path@[i],
        b.path@[i],
    ) by {
        lemma_hops_wire_index(a.path@, i);
        lemma_hops_wire_index(b.path@, i);
        let hw = crate::hop::hop_wire(a.path@[i]);
        assert(crate::hop::hop_wire(b.path@[i]) == hw);
        assert(a.path@[i].from@ =~= hw.subrange(0, 33));
        assert(b.path@[i].from@ =~= hw.subrange(0, 33));
        assert(a.path@[i].to@ =~= hw.subrange(33, 66));
        assert(b.path@[i].to@ =~= hw.subrange(33, 66));
        assert(a.path@[i].sig@ =~= hw.subrange(66, 130));
        assert(b.path@[i].sig@ =~= hw.subrange(66, 130));
    }
}

/// Transaction lists distribute over concatenation on the wire.
pub proof fn lemma_txs_wire_concat(a: Seq<Transaction>, b: Seq<Transaction>)
    ensures
        txs_wire(a + b) == txs_wire(a) + txs_wire(b),
    decreases b.len(),
{
    if b.len() == 0 {
        assert(a + b =~= a);
        assert(txs_wire(a) + txs_wire(b) =~= txs_wire(a));
    } else {
        lemma_txs_wire_concat(a, b.drop_last());
        assert((a + b).drop_last() =~= a + b.drop_last());
        assert((a + b).last() == b.last());
        assert(txs_wire(a) + txs_wire(b) =~= (txs_wire(a) + txs_wire(b.drop_last())) + tx_wire(
            b.last(),
        ));
    }
}

/// The wire length of a transaction, from its section lengths.
proof fn lemma_tx_wire_len(t: Transaction)
    ensures
        tx_wire(t).len() == 89 + 75 * t.inputs@.len() + 75 * t.outputs@.len() + t.message@.len()
            + 130 * t.path@.len(),
{
    lemma_slips_wire_len(t.inputs@);
    lemma_slips_wire_len(t.outputs@);
    lemma_hops_wire_len(t.path@);
}

/// Equal serializations of two non-empty transaction lists split at the
/// first transaction: its length prefixes fix where it ends.
#[verifier::rlimit(100)]
#[verifier::spinoff_prover]
proof fn lemma_txs_wire_head_split(a: Seq<Transaction>, b: Seq<Transaction>)
    requires
        a.len() == b.len(),
        a.len() > 0,
        tx_lens_ok(a[0]),
        tx_lens_ok(b[0]),
        txs_wire(a) == txs_wire(b),
    ensures
        tx_wire(a[0]) == tx_wire(b[0]),
        txs_wire(a.drop_first()) == txs_wire(b.drop_first()),
{
    let a0 = a[0];
    let b0 = b[0];
    assert(a =~= seq![a0] + a.drop_first());
    assert(b =~= seq![b0] + b.drop_first());
    lemma_txs_wire_concat(seq![a0], a.drop_first());
    lemma_txs_wire_concat(seq![b0], b.drop_first());
    assert(seq![a0].drop_last().len() == 0);
    assert(txs_wire(seq![a0].drop_last()) =~= Seq::<u8>::empty());
    assert(seq![a0].last() == a0);
    assert(txs_wire(seq![a0]) =~= tx_wire(a0));
    assert(seq![b0].drop_last().len() == 0);
    assert(txs_wire(seq![b0].drop_last()) =~= Seq::<u8>::empty());
    assert(seq![b0].last() == b0);
    assert(txs_wire(seq![b0]) =~= tx_wire(b0));
    let w = txs_wire(a);
    assert(w =~= tx_wire(a0) + txs_wire(a.drop_first()));
    assert(w =~= tx_wire(b0) + txs_wire(b.drop_first()));
    lemma_tx_wire_len(a0);
    lemma_tx_wire_len(b0);
    // the first sixteen bytes carry both transactions' section lengths
    assert(u32_be_bytes(a0.inputs@.len() as u32) =~= w.subrange(0, 4));
    assert(u32_be_bytes(b0.inputs@.len() as u32) =~= w.subrange(0, 4));
    lemma_u32_be_round_trip(a0.inputs@.len() as u32);
    lemma_u32_be_round_trip(b0.inputs@.len() as u32);
    assert(u32_be_bytes(a0.outputs@.len() as u32) =~= w.subrange(4, 8));
    assert(u32_be_bytes(b0.outputs@.len() as u32) =~= w.subrange(4, 8));
    lemma_u32_be_round_trip(a0.outputs@.len() as u32);
    lemma_u32_be_round_trip(b0.outputs@.len() as u32);
    assert(u32_be_bytes(a0.message@.len() as u32) =~= w.subrange(8, 12));
    assert(u32_be_bytes(b0.message@.len() as u32) =~= w.subrange(8, 12));
    lemma_u32_be_round_trip(a0.message@.len() as u32);
    lemma_u32_be_round_trip(b0.message@.len() as u32);
    assert(u32_be_bytes(a0.path@.len() as u32) =~= w.subrange(12, 16));
    assert(u32_be_bytes(b0.path@.len() as u32) =~= w.subrange(12, 16));
    lemma_u32_be_round_trip(a0.path@.len() as u32);
    lemma_u32_be_round_trip(b0.path@.len() as u32);
    let len0 = tx_wire(a0).len() as int;
    assert(tx_wire(b0).len() == len0);
    assert(tx_wire(a0) =~= w.subrange(0, len0));
    assert(tx_wire(b0) =~= w.subrange(0, len0));
    assert(txs_wire(a.drop_first()) =~= w.subrange(len0, w.len() as int));
    assert(txs_wire(b.drop_first()) =~= w.subrange(len0, w.len() as int));
}

/// A consumed prefix of a transaction list's wire determines the remaining
/// bytes: the lengths in each transaction's header fix every boundary, so
/// what follows `parsed` transactions is the wire of the remaining ones.
#[verifier::rlimit(100)]
#[verifier::spinoff_prover]
pub proof fn lemma_txs_wire_skip(parsed: Seq<Transaction>, rest: Seq<u8>, full: Seq<Transaction>)
    requires
        parsed.len() <= full.len(),
        forall|i: int| 0 <= i < parsed.len() ==> tx_lens_ok(#[trigger] parsed[i]),
        forall|i: int| 0 <= i < full.len() ==> tx_lens_ok(#[trigger] full[i]),
        txs_wire(parsed) + rest == txs_wire(full),
    ensures
        rest == txs_wire(full.skip(parsed.len() as int)),
    decreases parsed.len(),
{
    if parsed.len() == 0 {
        assert(txs_wire(parsed).len() == 0);
        assert(full.skip(0) =~= full);
        assert(rest =~= txs_wire(full));
    } else {
        let p0 = parsed[0];
        let f0 = full[0];
        assert(parsed =~= seq![p0] + parsed.drop_first());
        assert(full =~= seq![f0] + full.drop_first());
        lemma_txs_wire_concat(seq![p0], parsed.drop_first());
        lemma_txs_wire_concat(seq![f0], full.drop_first());
        assert(seq![p0].drop_last().len() == 0);
        assert(txs_wire(seq![p0].drop_last()) =~= Seq::<u8>::empty());
        assert(seq![p0].last() == p0);
        assert(txs_wire(seq![p0]) =~= tx_wire(p0));
        assert(seq![f0].drop_last().len() == 0);
        assert(txs_wire(seq![f0].drop_last()) =~= Seq::<u8>::empty());
        assert(seq![f0].last() == f0);
        assert(txs_wire(seq![f0]) =~= tx_wire(f0));
        let w = txs_wire(full);
        assert(w =~= tx_wire(p0) + (txs_wire(parsed.drop_first()) + rest));
        assert(w =~= tx_wire(f0) + txs_wire(full.drop_first()));
        crate::transaction::lemma_tx_wire_parse_facts(p0);
        crate::transaction::lemma_tx_wire_parse_facts(f0);
        assert(tx_wire(p0).subrange(0, 4) =~= w.subrange(0, 4));
        assert(tx_wire(f0).subrange(0, 4) =~= w.subrange(0, 4));
        assert(tx_wire(p0).subrange(4, 8) =~= w.subrange(4, 8));
        assert(tx_wire(f0).subrange(4, 8) =~= w.subrange(4, 8));
        assert(tx_wire(p0).subrange(8, 12) =~= w.subrange(8, 12));
        assert(tx_wire(f0).subrange(8, 12) =~= w.subrange(8, 12));
        assert(tx_wire(p0).subrange(12, 16) =~= w.subrange(12, 16));
        assert(tx_wire(f0).subrange(12, 16) =~= w.subrange(12, 16));
        let len0 = tx_wire(p0).len() as int;
        assert(tx_wire(f0).len() == len0);
        assert(txs_wire(parsed.drop_first()) + rest =~= w.subrange(len0, w.len() as int));
        assert(txs_wire(full.drop_first()) =~= w.subrange(len0, w.len() as int));
        assert(forall|i: int| 0 <= i < parsed.drop_first().len() ==> tx_lens_ok(
            #[trigger] parsed.drop_first()[i],
        ));
        assert(forall|i: int| 0 <= i < full.drop_first().len() ==> tx_lens_ok(
            #[trigger] full.drop_first()[i],
        ));
        lemma_txs_wire_skip(parsed.drop_first(), rest, full.drop_first());
        assert(full.drop_first().skip(parsed.len() - 1) =~= full.skip(parsed.len() as int));
    }
}

/// Matching transaction lists follow from matching serializations of equal
/// count: the lists split identically at each transaction boundary.
pub proof fn lemma_txs_wire_injective(a: Seq<Transaction>, b: Seq<Transaction>)
    requires
        a.len() == b.len(),
        forall|i: int| 0 <= i < a.len() ==> tx_lens_ok(#[trigger] a[i]),
        forall|i: int| 0 <= i < b.len() ==> tx_lens_ok(#[trigger] b[i]),
        txs_wire(a) == txs_wire(b),
    ensures
        forall|i: int| 0 <= i < a.len() ==> tx_core_eq(#[trigger] a[i], b[i]),
    decreases a.len(),
{
    if a.len() > 0 {
        lemma_txs_wire_head_split(a, b);
        lemma_tx_wire_injective(a[0], b[0]);
        assert(forall|i: int| 0 <= i < a.drop_first().len() ==> tx_lens_ok(
            #[trigger] a.drop_first()[i],
        ));
        assert(forall|i: int| 0 <= i < b.drop_first().len() ==> tx_lens_ok(
            #[trigger] b.drop_first()[i],
        ));
        lemma_txs_wire_injective(a.drop_first(), b.drop_first());
        assert forall|i: int| 0 <= i < a.len() implies tx_core_eq(#[trigger] a[i], b[i]) by {
            if i > 0 {
                assert(a.drop_first()[i - 1] == a[i]);
                assert(b.drop_first()[i - 1] == b[i]);
            }
        }
    }
}

/// Reading a block's wire bytes back: the count prefix is the transaction
/// count and everything after the header is the transactions' wire.
pub proof fn lemma_block_wire_parse_facts(b: Block)
    requires
        block_lens_ok(b),
    ensures
        block_wire(b).len() >= 205,
        u32_from_be(block_wire(b).subrange(0, 4)) == b.transactions@.len(),
        block_wire(b).subrange(205, block_wire(b).len() as int) == txs_wire(b.transactions@),
{
    let w = block_wire(b);
    assert(w.subrange(0, 4) =~= u32_be_bytes(b.transactions@.len() as u32));
    lemma_u32_be_round_trip(b.transactions@.len() as u32);
    assert(w.subrange(205, w.len() as int) =~= txs_wire(b.transactions@));
}

/// The transaction a block's wire holds next, once `parsed` transactions
/// have been consumed: the bytes from `start` begin with the wire of
/// transaction number `parsed.len()`, whose header lengths they carry.
#[verifier::rlimit(100)]
#[verifier::spinoff_prover]
pub proof fn lemma_block_wire_next_tx(
    b: Block,
    bytes: Seq<u8>,
    parsed: Seq<Transaction>,
    start: int,
)
    requires
        block_lens_ok(b),
        bytes == block_wire(b),
        forall|i: int| 0 <= i < parsed.len() ==> tx_lens_ok(#[trigger] parsed[i]),
        parsed.len() < b.transactions@.len(),
        205 <= start <= bytes.len(),
        txs_wire(parsed) == bytes.subrange(205, start),
    ensures
        ({
            let t0 = b.transactions@[parsed.len() as int];
            &&& tx_lens_ok(t0)
            &&& tx_wire(t0).len() == 89 + 75 * t0.inputs@.len() + 75 * t0.outputs@.len()
                + t0.message@.len() + 130 * t0.path@.len()
            &&& start + tx_wire(t0).len() <= bytes.len()
            &&& bytes.subrange(start, start + tx_wire(t0).len() as int) == tx_wire(t0)
            &&& (start + 16 <= bytes.len())
            &&& u32_from_be(bytes.subrange(start, start + 4)) == t0.inputs@.len()
            &&& u32_from_be(bytes.subrange(start + 4, start + 8)) == t0.outputs@.len()
            &&& u32_from_be(bytes.subrange(start + 8, start + 12)) == t0.message@.len()
            &&& u32_from_be(bytes.subrange(start + 12, start + 16)) == t0.path@.len()
        }),
{
    lemma_block_wire_parse_facts(b);
    let k = parsed.len() as int;
    let full = b.transactions@;
    let rest = bytes.subrange(start, bytes.len() as int);
    assert(txs_wire(parsed) + rest =~= bytes.subrange(205, bytes.len() as int));
    lemma_txs_wire_skip(parsed, rest, full);
    let tail = full.skip(k);
    let t0 = full[k];
    assert(tail[0] == t0);
    assert(tail =~= seq![t0] + tail.drop_first());
    lemma_txs_wire_concat(seq![t0], tail.drop_first());
    assert(seq![t0].drop_last().len() == 0);
    assert(txs_wire(seq![t0].drop_last()) =~= Seq::<u8>::empty());
    assert(seq![t0].last() == t0);
    assert(txs_wire(seq![t0]) =~= tx_wire(t0));
    assert(rest =~= tx_wire(t0) + txs_wire(tail.drop_first()));
    crate::transaction::lemma_tx_wire_parse_facts(t0);
    let len0 = tx_wire(t0).len() as int;
    assert(bytes.subrange(start, start + len0) =~= tx_wire(t0));
    assert(bytes.subrange(start, start + 4) =~= tx_wire(t0).subrange(0, 4));
    assert(bytes.subrange(start + 4, start + 8) =~= tx_wire(t0).subrange(4, 8));
    assert(bytes.subrange(start + 8, start + 12) =~= tx_wire(t0).subrange(8, 12));
    assert(bytes.subrange(start + 12, start + 16) =~= tx_wire(t0).subrange(12, 16));
}

/// Round-trip: two blocks with the same wire bytes agree on every header
/// field, on the transaction count, and on every serialized field of every
/// transaction. Together with the serializer's exactness and the
/// deserializer's guarantee that its result reserializes to the input, a
/// block read back from its own serialization equals the block that produced
/// it.
#[verifier::rlimit(100)]
#[verifier::spinoff_prover]
pub proof fn lemma_block_wire_injective(a: Block, b: Block)
    requires
        block_lens_ok(a),
        block_lens_ok(b),
        block_wire(a) == block_wire(b),
    ensures
        a.id == b.id,
        a.timestamp == b.timestamp,
        a.previous_block_hash@ == b.previous_block_hash@,
        a.creator@ == b.creator@,
        a.merkle_root@ == b.merkle_root@,
        a.signature@ == b.signature@,
        a.treasury == b.treasury,
        a.burnfee == b.burnfee,
        a.difficulty == b.difficulty,
        a.transactions@.len() == b.transactions@.len(),
        forall|i: int| 0 <= i < a.transactions@.len() ==> tx_core_eq(
            #[trigger] a.transactions@[i],
            b.transactions@[i],
        ),
{
    let w = block_wire(a);
    assert(u32_be_bytes(a.transactions@.len() as u32) =~= w.subrange(0, 4));
    assert(u32_be_bytes(b.transactions@.len() as u32) =~= w.subrange(0, 4));
    lemma_u32_be_round_trip(a.transactions@.len() as u32);
    lemma_u32_be_round_trip(b.transactions@.len() as u32);
    assert(u64_be_bytes(a.id) =~= w.subrange(4, 12));
    assert(u64_be_bytes(b.id) =~= w.subrange(4, 12));
    lemma_u64_be_round_trip(a.id);
    lemma_u64_be_round_trip(b.id);
    assert(u64_be_bytes(a.timestamp) =~= w.subrange(12, 20));
    assert(u64_be_bytes(b.timestamp) =~= w.subrange(12, 20));
    lemma_u64_be_round_trip(a.timestamp);
    lemma_u64_be_round_trip(b.timestamp);
    assert(a.previous_block_hash@ =~= w.subrange(20, 52));
    assert(b.previous_block_hash@ =~= w.subrange(20, 52));
    assert(a.creator@ =~= w.subrange(52, 85));
    assert(b.creator@ =~= w.subrange(52, 85));
    assert(a.merkle_root@ =~= w.subrange(85, 117));
    assert(b.merkle_root@ =~= w.subrange(85, 117));
    assert(a.signature@ =~= w.subrange(117, 181));
    assert(b.signature@ =~= w.subrange(117, 181));
    assert(u64_be_bytes(a.treasury) =~= w.subrange(181, 189));
    assert(u64_be_bytes(b.treasury) =~= w.subrange(181, 189));
    lemma_u64_be_round_trip(a.treasury);
    lemma_u64_be_round_trip(b.treasury);
    assert(u64_be_bytes(a.burnfee) =~= w.subrange(189, 197));
    assert(u64_be_bytes(b.burnfee) =~= w.subrange(189, 197));
    lemma_u64_be_round_trip(a.burnfee);
    lemma_u64_be_round_trip(b.burnfee);
    assert(u64_be_bytes(a.difficulty) =~= w.subrange(197, 205));
    assert(u64_be_bytes(b.difficulty) =~= w.subrange(197, 205));
    lemma_u64_be_round_trip(a.difficulty);
    lemma_u64_be_round_trip(b.difficulty);
    assert(txs_wire(a.transactions@) =~= w.subrange(205, w.len() as int));
    assert(txs_wire(b.transactions@) =~= w.subrange(205, w.len() as int));
    lemma_txs_wire_injective(a.transactions@, b.transactions@);
}

/// The payout covers the released fees exactly: the miner's output and the
/// router's output of the expected fee transaction sum to the block's total
/// fees, with nothing created or destroyed.
pub proof fn lemma_payout_covers_released_fees(
    ft: Transaction,
    msg: Seq<u8>,
    winner: Transaction,
    total: u64,
)
    requires
        fee_tx_matches(ft, msg, winner, total),
    ensures
        ft.outputs@[0].amount + ft.outputs@[1].amount == total,
{
}

/// The exact total of a slip list's amounts, without saturation.
pub open spec fn amounts_total(ss: Seq<Slip>) -> nat
    decreases ss.len(),
{
    if ss.len() == 0 {
        0
    } else {
        amounts_total(ss.drop_last()) + ss.last().amount as nat
    }
}

/// Below the u64 range, the saturating amount total is the exact total.
proof fn lemma_amount_sum_exact(ss: Seq<Slip>)
    requires
        amounts_total(ss) <= u64::MAX,
    ensures
        crate::transaction::slips_amount_sum(ss) == amounts_total(ss),
    decreases ss.len(),
{
    if ss.len() > 0 {
        lemma_amount_sum_exact(ss.drop_last());
    }
}

/// The exact total of the reset profits of a slip list: each stake's share
/// of the average payout, floored.
pub open spec fn profits_total(ss: Seq<Slip>, p: u64, avg: u64) -> nat
    decreases ss.len(),
{
    if ss.len() == 0 {
        0
    } else {
        profits_total(ss.drop_last(), p, avg) + ((ss.last().amount * p) as nat / (avg as nat))
    }
}

/// Every element is at most the total.
proof fn lemma_amount_le_total(ss: Seq<Slip>, i: int)
    requires
        0 <= i < ss.len(),
    ensures
        ss[i].amount <= amounts_total(ss),
    decreases ss.len(),
{
    if i < ss.len() - 1 {
        lemma_amount_le_total(ss.drop_last(), i);
    }
}

/// The floored profit shares bracket the exact proportional total:
/// `avg * profits <= p * total`, strictly within one `avg` per share.
proof fn lemma_profits_total_bounds(ss: Seq<Slip>, p: u64, avg: u64)
    requires
        avg > 0,
    ensures
        (avg as int) * profits_total(ss, p, avg) <= (p as int) * amounts_total(ss),
        ss.len() > 0 ==> (p as int) * amounts_total(ss) < (avg as int) * (profits_total(
            ss,
            p,
            avg,
        ) + ss.len()),
    decreases ss.len(),
{
    if ss.len() == 0 {
        assert((avg as int) * profits_total(ss, p, avg) == 0) by (nonlinear_arith)
            requires
                profits_total(ss, p, avg) == 0,
        ;
        assert((p as int) * amounts_total(ss) == 0) by (nonlinear_arith)
            requires
                amounts_total(ss) == 0,
        ;
    } else {
        lemma_profits_total_bounds(ss.drop_last(), p, avg);
        let a = ss.last().amount as int;
        let x = a * (p as int);
        let d = avg as int;
        let q = x / d;
        assert(x >= 0) by (nonlinear_arith)
            requires
                x == a * (p as int),
                a >= 0,
                p >= 0,
        ;
        vstd::arithmetic::div_mod::lemma_fundamental_div_mod(x, d);
        vstd::arithmetic::div_mod::lemma_mod_bound(x, d);
        let tp = profits_total(ss.drop_last(), p, avg) as int;
        let ta = amounts_total(ss.drop_last()) as int;
        assert(profits_total(ss, p, avg) == tp + q);
        assert(amounts_total(ss) == ta + a);
        let n = ss.len() as int;
        assert(d * (tp + q) == d * tp + d * q) by (nonlinear_arith);
        assert((p as int) * (ta + a) == (p as int) * ta + x) by (nonlinear_arith)
            requires
                x == a * (p as int),
        ;
        assert(d * ((tp + q) + n) == d * tp + d * q + d * n) by (nonlinear_arith);
        if ss.drop_last().len() == 0 {
            assert(ta == 0 && tp == 0);
            assert((p as int) * ta == 0) by (nonlinear_arith)
                requires
                    ta == 0,
            ;
            assert(d * tp == 0) by (nonlinear_arith)
                requires
                    tp == 0,
            ;
            assert(d * n == d) by (nonlinear_arith)
                requires
                    n == 1,
            ;
        } else {
            assert(d * (tp + (n - 1)) == d * tp + d * (n - 1)) by (nonlinear_arith);
            assert(d * n == d * (n - 1) + d) by (nonlinear_arith);
        }
    }
}

/// Staking reset pays out one epoch share of the treasury: on a non-empty
/// pool whose average stake divides evenly and whose totals stay in range,
/// the rewritten amounts exceed the old ones by the per-block treasury
/// payout, less at most one nolan of rounding per staker.
pub proof fn lemma_staking_reset_pays_epoch_share(m: crate::staking::StakingModel, treasury: u64)
    requires
        ({
            let merged = m.stakers + m.pending + m.deposits;
            let n = merged.len();
            let ppb = (treasury / crate::GENESIS_PERIOD) as nat;
            &&& n > 0
            &&& n <= u64::MAX
            &&& amounts_total(merged) + ppb <= u64::MAX
            &&& ppb % n == 0
            &&& amounts_total(merged) % n == 0
            &&& amounts_total(merged) / n > 0
        }),
    ensures
        ({
            let merged = m.stakers + m.pending + m.deposits;
            let ppb = (treasury / crate::GENESIS_PERIOD) as nat;
            let after = amounts_total(crate::staking::sm_reset(m, treasury).stakers);
            &&& after <= amounts_total(merged) + ppb
            &&& after + merged.len() > amounts_total(merged) + ppb
        }),
{
    let merged = m.stakers + m.pending + m.deposits;
    let n = merged.len();
    let s_total = amounts_total(merged);
    let ppb = (treasury / crate::GENESIS_PERIOD) as nat;
    let p = average_staker_payout_value(treasury, n);
    lemma_amount_sum_exact(merged);
    let avg = (crate::transaction::slips_amount_sum(merged) / (n as u64)) as u64;
    // exact divisibility pins the average and the per-staker payout
    vstd::arithmetic::div_mod::lemma_fundamental_div_mod(s_total as int, n as int);
    vstd::arithmetic::div_mod::lemma_fundamental_div_mod(ppb as int, n as int);
    assert(avg as int * n as int == s_total) by (nonlinear_arith)
        requires
            s_total as int == n as int * (s_total as int / n as int) + s_total as int % (
            n as int),
            s_total % n == 0,
            avg == s_total / n,
            n > 0,
    ;
    assert(p as int * n as int == ppb) by (nonlinear_arith)
        requires
            ppb as int == n as int * (ppb as int / n as int) + ppb as int % (n as int),
            ppb % n == 0,
            p == ppb / n,
            n > 0,
    ;
    assert(avg > 0);
    lemma_profits_total_bounds(merged, p as u64, avg);
    let profits = profits_total(merged, p as u64, avg);
    // the bracketed profit total collapses to the epoch share
    assert(profits <= ppb) by (nonlinear_arith)
        requires
            (avg as int) * profits <= (p as int) * (s_total as int),
            avg as int * n as int == s_total,
            p as int * n as int == ppb,
            avg > 0,
    ;
    assert(profits + n > ppb) by (nonlinear_arith)
        requires
            (p as int) * (s_total as int) < (avg as int) * (profits + n),
            avg as int * n as int == s_total,
            p as int * n as int == ppb,
            avg > 0,
    ;
    lemma_reset_amounts_sum(m, treasury, merged, p as u64, avg);
}

/// The per-staker payout, as the reset computes it.
pub open spec fn average_staker_payout_value(treasury: u64, n: nat) -> nat {
    ((treasury / crate::GENESIS_PERIOD) as nat) / n
}

/// The reset table's exact amount total is the old total plus the exact
/// profit total, provided nothing saturates.
proof fn lemma_reset_amounts_sum(
    m: crate::staking::StakingModel,
    treasury: u64,
    merged: Seq<Slip>,
    p: u64,
    avg: u64,
)
    requires
        merged == m.stakers + m.pending + m.deposits,
        merged.len() > 0,
        merged.len() <= u64::MAX,
        avg > 0,
        avg == (crate::transaction::slips_amount_sum(merged) / (merged.len() as u64)) as u64,
        p == crate::staking::average_staker_payout(treasury, merged.len()),
        amounts_total(merged) + (treasury / crate::GENESIS_PERIOD) <= u64::MAX,
        (avg as int) * (merged.len() as int) == amounts_total(merged),
        (p as int) * (merged.len() as int) == (treasury / crate::GENESIS_PERIOD) as nat,
    ensures
        amounts_total(crate::staking::sm_reset(m, treasury).stakers) == amounts_total(merged)
            + profits_total(merged, p, avg),
{
    let stakers = crate::staking::sm_reset(m, treasury).stakers;
    lemma_reset_amounts_sum_prefix(merged, p, avg, stakers, merged.len() as int);
    assert(stakers.subrange(0, merged.len() as int) =~= stakers);
    assert(merged.subrange(0, merged.len() as int) =~= merged);
}

/// Prefixes of the reset table total the old prefix plus its profits.
proof fn lemma_reset_amounts_sum_prefix(
    merged: Seq<Slip>,
    p: u64,
    avg: u64,
    stakers: Seq<Slip>,
    k: int,
)
    requires
        0 <= k <= merged.len(),
        avg > 0,
        stakers.len() == merged.len(),
        forall|i: int| 0 <= i < merged.len() ==> stakers[i] == crate::staking::reset_slip(
            merged[i],
            p,
            avg,
        ),
        (avg as int) * (merged.len() as int) == amounts_total(merged),
        amounts_total(merged) + (p as int) * (merged.len() as int) <= u64::MAX,
    ensures
        amounts_total(stakers.subrange(0, k)) == amounts_total(merged.subrange(0, k))
            + profits_total(merged.subrange(0, k), p, avg),
    decreases k,
{
    if k > 0 {
        lemma_reset_amounts_sum_prefix(merged, p, avg, stakers, k - 1);
        assert(stakers.subrange(0, k).drop_last() =~= stakers.subrange(0, k - 1));
        assert(merged.subrange(0, k).drop_last() =~= merged.subrange(0, k - 1));
        assert(stakers.subrange(0, k).last() == stakers[k - 1]);
        assert(merged.subrange(0, k).last() == merged[k - 1]);
        // this element's profit does not cap and its payout does not saturate
        let a = merged[k - 1].amount;
        let x = (a as int) * (p as int);
        let d = avg as int;
        vstd::arithmetic::div_mod::lemma_fundamental_div_mod(x, d);
        vstd::arithmetic::div_mod::lemma_mod_bound(x, d);
        lemma_amount_le_total_full(merged, k - 1);
        assert(x / d <= (p as int) * (merged.len() as int)) by (nonlinear_arith)
            requires
                x == (a as int) * (p as int),
                a <= amounts_total(merged),
                (avg as int) * (merged.len() as int) == amounts_total(merged),
                d == avg as int,
                d > 0,
                x == d * (x / d) + x % d,
                0 <= x % d < d,
        ;
        assert(crate::staking::reset_slip(merged[k - 1], p, avg).amount == a + x / d);
        assert(amounts_total(merged.subrange(0, k)) + profits_total(
            merged.subrange(0, k),
            p,
            avg,
        ) == amounts_total(merged.subrange(0, k - 1)) + profits_total(
            merged.subrange(0, k - 1),
            p,
            avg,
        ) + a + x / d);
    } else {
        assert(stakers.subrange(0, 0).len() == 0);
        assert(merged.subrange(0, 0).len() == 0);
    }
}

/// Every element is at most the total, stated over the whole list.
proof fn lemma_amount_le_total_full(ss: Seq<Slip>, i: int)
    requires
        0 <= i < ss.len(),
    ensures
        ss[i].amount <= amounts_total(ss),
    decreases ss.len(),
{
    if i < ss.len() - 1 {
        assert(ss.drop_last()[i] == ss[i]);
        lemma_amount_le_total_full(ss.drop_last(), i);
    }
}

/// Setting the state of a slip list leaves every other key untouched.
proof fn lemma_set_slips_frame(m: Map<Seq<u8>, u64>, ss: Seq<Slip>, v: u64, k: Seq<u8>)
    requires
        forall|i: int| 0 <= i < ss.len() ==> slip_wire(#[trigger] ss[i]) != k,
    ensures
        set_slips_state(m, ss, v).contains_key(k) == m.contains_key(k),
        m.contains_key(k) ==> set_slips_state(m, ss, v)[k] == m[k],
    decreases ss.len(),
{
    if ss.len() > 0 {
        lemma_set_slips_frame(m, ss.drop_last(), v, k);
        assert(ss.drop_last().len() == ss.len() - 1);
        assert(forall|i: int| 0 <= i < ss.drop_last().len() ==> slip_wire(
            #[trigger] ss.drop_last()[i],
        ) != k);
    }
}

/// Setting the state of a slip list records every listed key at that state.
proof fn lemma_set_slips_hit(m: Map<Seq<u8>, u64>, ss: Seq<Slip>, v: u64, k: Seq<u8>)
    requires
        exists|i: int| 0 <= i < ss.len() && slip_wire(#[trigger] ss[i]) == k,
    ensures
        set_slips_state(m, ss, v).contains_key(k),
        set_slips_state(m, ss, v)[k] == v,
    decreases ss.len(),
{
    if ss.len() > 0 {
        if slip_wire(ss.last()) == k {
        } else {
            let i = choose|i: int| 0 <= i < ss.len() && slip_wire(#[trigger] ss[i]) == k;
            assert(ss.drop_last()[i] == ss[i]);
            lemma_set_slips_hit(m, ss.drop_last(), v, k);
        }
    }
}

/// Removing a slip list's keys leaves every other key untouched.
proof fn lemma_remove_slips_frame(m: Map<Seq<u8>, u64>, ss: Seq<Slip>, k: Seq<u8>)
    requires
        forall|i: int| 0 <= i < ss.len() ==> slip_wire(#[trigger] ss[i]) != k,
    ensures
        remove_slips(m, ss).contains_key(k) == m.contains_key(k),
        m.contains_key(k) ==> remove_slips(m, ss)[k] == m[k],
    decreases ss.len(),
{
    if ss.len() > 0 {
        lemma_remove_slips_frame(m, ss.drop_last(), k);
        assert(forall|i: int| 0 <= i < ss.drop_last().len() ==> slip_wire(
            #[trigger] ss.drop_last()[i],
        ) != k);
    }
}

/// Whether a key names any input or output of a transaction.
pub open spec fn tx_touches_key(t: Transaction, k: Seq<u8>) -> bool {
    (exists|i: int| 0 <= i < t.inputs@.len() && slip_wire(#[trigger] t.inputs@[i]) == k)
        || (exists|i: int| 0 <= i < t.outputs@.len() && slip_wire(#[trigger] t.outputs@[i]) == k)
}

/// An output never rebroadcast and never spent stays exactly as it is: a
/// transaction that names the key in no input and no output leaves the key's
/// state untouched, wound or unwound. A spendable output therefore remains
/// spendable through every block that does not touch it.
pub proof fn lemma_untouched_key_keeps_state(
    m: Map<Seq<u8>, u64>,
    t: Transaction,
    longest_chain: bool,
    block_id: u64,
    k: Seq<u8>,
)
    requires
        !tx_touches_key(t, k),
    ensures
        tx_ocr_entries(m, t, longest_chain, block_id).contains_key(k) == m.contains_key(k),
        m.contains_key(k) ==> tx_ocr_entries(m, t, longest_chain, block_id)[k] == m[k],
{
    if longest_chain {
        lemma_set_slips_frame(m, t.inputs@, SPENT, k);
        lemma_set_slips_frame(
            set_slips_state(m, t.inputs@, SPENT),
            t.outputs@,
            spendable_state(block_id),
            k,
        );
    } else {
        lemma_set_slips_frame(m, t.inputs@, crate::utxoset::SPENDABLE, k);
        lemma_remove_slips_frame(
            set_slips_state(m, t.inputs@, crate::utxoset::SPENDABLE),
            t.outputs@,
            k,
        );
    }
}

/// An output rebroadcast or otherwise spent stops being spendable: winding a
/// transaction that names the key among its inputs and not among its outputs
/// records the key as spent, so no slip with that key validates at that or
/// any later state until the chain recreates it.
pub proof fn lemma_spent_key_not_spendable(
    m: Map<Seq<u8>, u64>,
    t: Transaction,
    block_id: u64,
    k: Seq<u8>,
)
    requires
        exists|i: int| 0 <= i < t.inputs@.len() && slip_wire(#[trigger] t.inputs@[i]) == k,
        forall|i: int| 0 <= i < t.outputs@.len() ==> slip_wire(#[trigger] t.outputs@[i]) != k,
    ensures
        tx_ocr_entries(m, t, true, block_id).contains_key(k),
        tx_ocr_entries(m, t, true, block_id)[k] == SPENT,
        forall|s: Slip| slip_wire(s) == k ==> !crate::slip::slip_valid(
            s,
            tx_ocr_entries(m, t, true, block_id),
        ),
{
    lemma_set_slips_hit(m, t.inputs@, SPENT, k);
    lemma_set_slips_frame(
        set_slips_state(m, t.inputs@, SPENT),
        t.outputs@,
        spendable_state(block_id),
        k,
    );
}

} // verus!
