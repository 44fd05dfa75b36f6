//! The staking pool: three ordered tables of slips. Fresh deposits wait in
//! `deposits`, the active lottery pool is `stakers`, and paid stakers wait
//! in `pending` until the table resets. One staker is paid per qualifying
//! block; when the active pool empties, pending and deposits are folded back
//! in with each stake grown by its share of the epoch payout.
use crate::bignum::be_nat;
use crate::burnfee::cap_u64;
use crate::crypto::SaitoHash;
use crate::slip::{slip_wire, Slip, SlipType};
use crate::transaction::{sat_add64, Transaction, TransactionType};
use crate::GENESIS_PERIOD;
use vstd::prelude::*;

verus! {

/// The staking pool.
#[derive(Debug, Clone)]
pub struct Staking {
    /// Deposits waiting to join the staking table for the first time.
    pub deposits: Vec<Slip>,
    /// The active table, waiting for selection and payout.
    pub stakers: Vec<Slip>,
    /// Paid stakers waiting for the table to reset.
    pub pending: Vec<Slip>,
}

/// The position of the first slip in `ss` whose UTXO key is `key`.
pub open spec fn first_key_match(ss: Seq<Slip>, key: Seq<u8>) -> Option<int>
    decreases ss.len(),
{
    if ss.len() == 0 {
        None
    } else if slip_wire(ss[0]) == key {
        Some(0int)
    } else {
        match first_key_match(ss.drop_first(), key) {
            None => None,
            Some(i) => Some(i + 1),
        }
    }
}

/// Scanning from the front: if the first `i` slips do not match, the first
/// match of the whole list is the first match of the rest, shifted by `i`.
pub proof fn lemma_first_match_skip(ss: Seq<Slip>, key: Seq<u8>, i: int)
    requires
        0 <= i <= ss.len(),
        forall|j: int| 0 <= j < i ==> slip_wire(#[trigger] ss[j]) != key,
    ensures
        first_key_match(ss, key) == match first_key_match(ss.skip(i), key) {
            None => None::<int>,
            Some(k) => Some(k + i),
        },
    decreases i,
{
    if i > 0 {
        lemma_first_match_skip(ss, key, i - 1);
        assert(ss.skip(i - 1).drop_first() =~= ss.skip(i));
        assert(ss.skip(i - 1)[0] == ss[i - 1]);
    } else {
        assert(ss.skip(0) =~= ss);
    }
}

/// The per-block payout for one staker of average stake: the treasury is
/// paid out over an epoch, split across the stakers.
pub open spec fn average_staker_payout(staking_treasury: u64, n: nat) -> u64 {
    (((staking_treasury / GENESIS_PERIOD) as nat) / n) as u64
}

/// A staker's profit on reset: its stake's share of the average payout,
/// `amount * avg_payout / avg_staked`, capped at the largest u64. A pool
/// whose average stake truncates to zero earns nothing.
pub open spec fn reset_profit(amount: u64, avg_payout: u64, avg_staked: u64) -> u64 {
    if avg_staked == 0 {
        0
    } else {
        cap_u64(((amount as nat) * (avg_payout as nat)) / (avg_staked as nat))
    }
}

/// A staker's slip after a table reset: its amount grown by its profit,
/// saturating, and its type rewritten to `StakerOutput`.
pub open spec fn reset_slip(s: Slip, avg_payout: u64, avg_staked: u64) -> Slip {
    Slip {
        amount: sat_add64(s.amount, reset_profit(s.amount, avg_payout, avg_staked)),
        slip_type: SlipType::StakerOutput,
        ..s
    }
}

/// `amount * avg_payout / avg_staked`, capped at the largest u64.
fn mul_div_cap_u64(a: u64, b: u64, c: u64) -> (r: u64)
    requires
        c > 0,
    ensures
        r == cap_u64(((a as nat) * (b as nat)) / (c as nat)),
{
    proof {
        assert((a as u128) * (b as u128) <= (u64::MAX as u128) * (u64::MAX as u128))
            by (nonlinear_arith)
            requires
                a <= u64::MAX,
                b <= u64::MAX,
        ;
        assert((u64::MAX as u128) * (u64::MAX as u128) <= u128::MAX) by (nonlinear_arith);
    }
    let v: u128 = ((a as u128) * (b as u128)) / (c as u128);
    if v > u64::MAX as u128 {
        u64::MAX
    } else {
        v as u64
    }
}

impl Staking {
    /// An empty pool.
    pub fn new() -> (r: Staking)
        ensures
            r.deposits@.len() == 0,
            r.stakers@.len() == 0,
            r.pending@.len() == 0,
    {
        Staking { deposits: Vec::new(), stakers: Vec::new(), pending: Vec::new() }
    }

    pub fn add_deposit(&mut self, slip: Slip)
        ensures
            final(self).deposits@ == old(self).deposits@.push(slip),
            *final(self) == (Staking { deposits: final(self).deposits, ..*old(self) }),
    {
        self.deposits.push(slip);
    }

    pub fn add_staker(&mut self, slip: Slip)
        ensures
            final(self).stakers@ == old(self).stakers@.push(slip),
            *final(self) == (Staking { stakers: final(self).stakers, ..*old(self) }),
    {
        self.stakers.push(slip);
    }

    pub fn add_pending(&mut self, slip: Slip)
        ensures
            final(self).pending@ == old(self).pending@.push(slip),
            *final(self) == (Staking { pending: final(self).pending, ..*old(self) }),
    {
        self.pending.push(slip);
    }

    /// Inserts a staker at the position the random number picks, modulo one
    /// more than the table size, so insertion order is deterministic across
    /// nodes.
    pub fn add_staker_with_number(&mut self, slip: Slip, random_number: SaitoHash)
        requires
            old(self).stakers@.len() < usize::MAX,
        ensures
            final(self).stakers@ == old(self).stakers@.insert(
                (be_nat(random_number@) % (old(self).stakers@.len() + 1)) as int,
                slip,
            ),
            *final(self) == (Staking { stakers: final(self).stakers, ..*old(self) }),
    {
        let m: u64 = (self.stakers.len() as u64) + 1;
        let pos = crate::bignum::u256_rem_u64(&random_number, m);
        self.stakers.insert(pos as usize, slip);
    }

    /// The staker the random number picks from the active table, if the
    /// table is not empty.
    pub fn find_winning_staker(&self, random_number: SaitoHash) -> (r: Option<Slip>)
        ensures
            self.stakers@.len() == 0 ==> r is None,
            self.stakers@.len() > 0 ==> r == Some(
                self.stakers@[(be_nat(random_number@) % self.stakers@.len()) as int],
            ),
    {
        if self.stakers.len() == 0 {
            return None;
        }
        let idx = crate::bignum::u256_rem_u64(&random_number, self.stakers.len() as u64);
        Some(self.stakers[idx as usize])
    }

    /// Removes the first deposit with the slip's UTXO key, if any.
    pub fn remove_deposit(&mut self, slip: Slip) -> (r: bool)
        ensures
            r == (first_key_match(old(self).deposits@, slip_wire(slip)) is Some),
            first_key_match(old(self).deposits@, slip_wire(slip)) matches Some(i) ==> final(self).deposits@ == old(self).deposits@.remove(i),
            first_key_match(old(self).deposits@, slip_wire(slip)) is None ==> final(self).deposits@ == old(self).deposits@,
            *final(self) == (Staking { deposits: final(self).deposits, ..*old(self) }),
    {
        let r = remove_first_key_match(&mut self.deposits, &slip);
        r
    }

    /// Removes the first active staker with the slip's UTXO key, if any.
    pub fn remove_staker(&mut self, slip: Slip) -> (r: bool)
        ensures
            r == (first_key_match(old(self).stakers@, slip_wire(slip)) is Some),
            first_key_match(old(self).stakers@, slip_wire(slip)) matches Some(i) ==> final(self).stakers@ == old(self).stakers@.remove(i),
            first_key_match(old(self).stakers@, slip_wire(slip)) is None ==> final(self).stakers@ == old(self).stakers@,
            *final(self) == (Staking { stakers: final(self).stakers, ..*old(self) }),
    {
        let r = remove_first_key_match(&mut self.stakers, &slip);
        r
    }

    /// Removes the first pending slip with the slip's UTXO key, if any.
    pub fn remove_pending(&mut self, slip: Slip) -> (r: bool)
        ensures
            r == (first_key_match(old(self).pending@, slip_wire(slip)) is Some),
            first_key_match(old(self).pending@, slip_wire(slip)) matches Some(i) ==> final(self).pending@ == old(self).pending@.remove(i),
            first_key_match(old(self).pending@, slip_wire(slip)) is None ==> final(self).pending@ == old(self).pending@,
            *final(self) == (Staking { pending: final(self).pending, ..*old(self) }),
    {
        let r = remove_first_key_match(&mut self.pending, &slip);
        r
    }

    /// Resets the staking table: pending slips and fresh deposits join the
    /// active table, and every entry's amount grows by its share of the
    /// treasury's per-block payout, without floating-point division. The
    /// three returned vectors name slips whose on-disk UTXO entries must be
    /// spent, unspent and deleted; this bookkeeping is not yet tracked, so
    /// they are empty.
    pub fn reset_staker_table(&mut self, staking_treasury: u64) -> (r: (
        Vec<Slip>,
        Vec<Slip>,
        Vec<Slip>,
    ))
        ensures
            r.0@.len() == 0 && r.1@.len() == 0 && r.2@.len() == 0,
            sm_view(*final(self)) == sm_reset(sm_view(*old(self)), staking_treasury),
            final(self).pending@.len() == 0,
            final(self).deposits@.len() == 0,
            final(self).stakers@.len() == old(self).stakers@.len() + old(self).pending@.len()
                + old(self).deposits@.len(),
            forall|i: int| 0 <= i < final(self).stakers@.len() ==> final(self).stakers@[i]
                == reset_slip(
                (old(self).stakers@ + old(self).pending@ + old(self).deposits@)[i],
                average_staker_payout(
                    staking_treasury,
                    (old(self).stakers@.len() + old(self).pending@.len() + old(self).deposits@.len()) as nat,
                ),
                crate::transaction::slips_amount_sum(
                    old(self).stakers@ + old(self).pending@ + old(self).deposits@,
                ) / (old(self).stakers@.len() + old(self).pending@.len() + old(self).deposits@.len()) as u64,
            ),
    {
        let ghost merged: Seq<Slip> = old(self).stakers@ + old(self).pending@ + old(self).deposits@;
        let res_spend: Vec<Slip> = Vec::new();
        let res_unspend: Vec<Slip> = Vec::new();
        let res_delete: Vec<Slip> = Vec::new();

        let mut i: usize = 0;
        while i < self.pending.len()
            invariant
                i <= self.pending@.len(),
                self.pending@ == old(self).pending@,
                self.deposits@ == old(self).deposits@,
                self.stakers@ == old(self).stakers@ + old(self).pending@.take(i as int),
            decreases self.pending@.len() - i,
        {
            let s = self.pending[i];
            self.stakers.push(s);
            proof {
                assert(self.stakers@ =~= old(self).stakers@ + old(self).pending@.take(i + 1));
            }
            i = i + 1;
        }
        let mut i: usize = 0;
        while i < self.deposits.len()
            invariant
                i <= self.deposits@.len(),
                self.deposits@ == old(self).deposits@,
                self.stakers@ == old(self).stakers@ + old(self).pending@ + old(self).deposits@.take(i as int),
            decreases self.deposits@.len() - i,
        {
            let s = self.deposits[i];
            self.stakers.push(s);
            proof {
                assert(self.stakers@ =~= old(self).stakers@ + old(self).pending@ + old(self).deposits@.take(i + 1));
            }
            i = i + 1;
        }
        proof {
            assert(old(self).pending@.take(old(self).pending@.len() as int) =~= old(self).pending@);
            assert(old(self).deposits@.take(old(self).deposits@.len() as int) =~= old(self).deposits@);
            assert(self.stakers@ =~= merged);
        }
        self.pending = Vec::new();
        self.deposits = Vec::new();

        if self.stakers.len() == 0 {
            proof {
                assert(sm_view(*self) =~= sm_reset(sm_view(*old(self)), staking_treasury));
            }
            return (res_spend, res_unspend, res_delete);
        }

        let staking_payout_per_block: u64 = staking_treasury / GENESIS_PERIOD;
        let total_staked = crate::transaction::sum_slip_amounts(&self.stakers);
        let n = self.stakers.len();
        let average_staked = total_staked / (n as u64);
        let average_payout = staking_payout_per_block / (n as u64);

        let mut i: usize = 0;
        while i < self.stakers.len()
            invariant
                i <= self.stakers@.len(),
                self.stakers@.len() == merged.len(),
                self.pending@.len() == 0,
                self.deposits@.len() == 0,
                forall|j: int| i <= j < merged.len() ==> self.stakers@[j] == merged[j],
                forall|j: int| 0 <= j < i ==> self.stakers@[j] == reset_slip(
                    merged[j],
                    average_payout,
                    average_staked,
                ),
            decreases self.stakers@.len() - i,
        {
            let a = self.stakers[i].amount;
            let profit: u64 = if average_staked == 0 {
                0
            } else {
                mul_div_cap_u64(a, average_payout, average_staked)
            };
            let payout = a.saturating_add(profit);
            let mut s = self.stakers[i];
            s.set_amount(payout);
            s.set_slip_type(SlipType::StakerOutput);
            self.stakers[i] = s;
            i = i + 1;
        }
        proof {
            let m0 = sm_view(*old(self));
            let sm_merged = m0.stakers + m0.pending + m0.deposits;
            assert(sm_merged == merged);
            assert(n == merged.len());
            assert(average_payout == average_staker_payout(staking_treasury, merged.len()));
            assert(average_staked == crate::transaction::slips_amount_sum(merged) / (
            merged.len() as u64));
            assert forall|j: int| 0 <= j < merged.len() implies self.stakers@[j] == sm_reset(
                m0,
                staking_treasury,
            ).stakers[j] by {
                assert(self.stakers@[j] == reset_slip(merged[j], average_payout, average_staked));
            }
            assert(sm_view(*self).stakers =~= sm_reset(m0, staking_treasury).stakers);
            assert(sm_view(*self) =~= sm_reset(m0, staking_treasury));
        }
        (res_spend, res_unspend, res_delete)
    }
}

/// The three tables of the staking pool as sequences, for stating how
/// reorganization rewrites them.
#[verifier::ext_equal]
pub ghost struct StakingModel {
    pub deposits: Seq<Slip>,
    pub stakers: Seq<Slip>,
    pub pending: Seq<Slip>,
}

/// The model of a staking pool.
pub open spec fn sm_view(s: Staking) -> StakingModel {
    StakingModel { deposits: s.deposits@, stakers: s.stakers@, pending: s.pending@ }
}

/// A sequence with the first slip of the given key removed, if one is there.
pub open spec fn remove_key(ss: Seq<Slip>, key: Seq<u8>) -> Seq<Slip> {
    match first_key_match(ss, key) {
        None => ss,
        Some(i) => ss.remove(i),
    }
}

/// The model of a reset: pending and deposits fold into the active table
/// and every entry grows by its payout share; an empty merged table stays
/// empty.
pub open spec fn sm_reset(m: StakingModel, staking_treasury: u64) -> StakingModel {
    let merged = m.stakers + m.pending + m.deposits;
    if merged.len() == 0 {
        StakingModel { deposits: Seq::empty(), stakers: merged, pending: Seq::empty() }
    } else {
        let avg_payout = average_staker_payout(staking_treasury, merged.len());
        let avg_staked = crate::transaction::slips_amount_sum(merged) / (merged.len() as u64);
        StakingModel {
            deposits: Seq::empty(),
            pending: Seq::empty(),
            stakers: Seq::new(merged.len(), |i: int| reset_slip(merged[i], avg_payout, avg_staked)),
        }
    }
}

/// The deposit table after scanning one transaction's outputs: winding adds
/// every staker-deposit output of a staker-deposit transaction, unwinding
/// removes it again by key.
pub open spec fn scan_deposit_outputs(
    dep: Seq<Slip>,
    t: Transaction,
    outs: Seq<Slip>,
    longest_chain: bool,
) -> Seq<Slip>
    decreases outs.len(),
{
    if outs.len() == 0 {
        dep
    } else {
        let prev = scan_deposit_outputs(dep, t, outs.drop_last(), longest_chain);
        if t.transaction_type == TransactionType::StakerDeposit && outs.last().slip_type
            == SlipType::StakerDeposit {
            if longest_chain {
                prev.push(outs.last())
            } else {
                remove_key(prev, slip_wire(outs.last()))
            }
        } else {
            prev
        }
    }
}

/// The deposit table after scanning a block's transactions in order.
pub open spec fn scan_deposits(
    dep: Seq<Slip>,
    txs: Seq<Transaction>,
    longest_chain: bool,
) -> Seq<Slip>
    decreases txs.len(),
{
    if txs.len() == 0 {
        dep
    } else {
        scan_deposit_outputs(
            scan_deposits(dep, txs.drop_last(), longest_chain),
            txs.last(),
            txs.last().outputs@,
            longest_chain,
        )
    }
}

/// The position of the first transaction of the given type, if any.
pub open spec fn first_type_match(ts: Seq<Transaction>, ty: TransactionType) -> Option<int>
    decreases ts.len(),
{
    if ts.len() == 0 {
        None
    } else if ts[0].transaction_type == ty {
        Some(0int)
    } else {
        match first_type_match(ts.drop_first(), ty) {
            None => None,
            Some(i) => Some(i + 1),
        }
    }
}

/// The model of the payout bookkeeping when the block carries both a fee
/// transaction and a golden ticket. Winding resets an empty table, moves the
/// staker the lottery picks to pending, and resets again if the table
/// emptied. Unwinding folds everything back into the active table when it is
/// empty, removes the paid slip from pending, returns the paying input to
/// the active table (to the deposits when it was a fresh deposit), and folds
/// the deposits back in when pending stayed empty.
pub open spec fn sm_payout(
    m: StakingModel,
    ft: Transaction,
    staker_r: Seq<u8>,
    longest_chain: bool,
) -> StakingModel {
    if longest_chain {
        let m1 = if m.stakers.len() == 0 {
            sm_reset(m, 100_000_000)
        } else {
            m
        };
        let m2 = if m1.stakers.len() > 0 {
            let w = m1.stakers[(crate::bignum::be_nat(staker_r) % m1.stakers.len()) as int];
            StakingModel {
                stakers: remove_key(m1.stakers, slip_wire(w)),
                pending: m1.pending.push(w),
                deposits: m1.deposits,
            }
        } else {
            m1
        };
        if m2.stakers.len() == 0 {
            sm_reset(m2, 100_000_000)
        } else {
            m2
        }
    } else {
        let m1 = if m.stakers.len() == 0 {
            StakingModel {
                stakers: m.stakers + m.pending + m.deposits,
                pending: Seq::empty(),
                deposits: Seq::empty(),
            }
        } else {
            m
        };
        let m2 = StakingModel {
            pending: remove_key(m1.pending, slip_wire(ft.outputs@[2])),
            ..m1
        };
        let staker_input = ft.inputs@[0];
        let m3 = if staker_input.slip_type == SlipType::StakerDeposit {
            StakingModel { deposits: m2.deposits.push(staker_input), ..m2 }
        } else if staker_input.slip_type == SlipType::StakerOutput {
            StakingModel { stakers: m2.stakers.push(staker_input), ..m2 }
        } else {
            m2
        };
        if m3.pending.len() == 0 {
            StakingModel {
                stakers: m3.stakers + m3.deposits,
                pending: Seq::empty(),
                deposits: Seq::empty(),
            }
        } else {
            m3
        }
    }
}

/// The model of a full staking reorganization for one block: the deposit
/// scan, followed by the payout bookkeeping when the block carries a usable
/// fee transaction and golden ticket.
pub open spec fn staking_ocr_model(
    m: StakingModel,
    b: crate::block::Block,
    longest_chain: bool,
) -> StakingModel {
    let scanned = StakingModel {
        deposits: scan_deposits(m.deposits, b.transactions@, longest_chain),
        stakers: m.stakers,
        pending: m.pending,
    };
    if b.has_fee_transaction && b.has_golden_ticket {
        match (
            first_type_match(b.transactions@, TransactionType::Fee),
            first_type_match(b.transactions@, TransactionType::GoldenTicket),
        ) {
            (Some(fi), Some(gi)) => {
                let ft = b.transactions@[fi];
                let msg = b.transactions@[gi].message@;
                if msg.len() == 97 && ft.outputs@.len() >= 3 && ft.inputs@.len() >= 1 {
                    sm_payout(
                        scanned,
                        ft,
                        crate::crypto::sha256_of(
                            crate::crypto::sha256_of(msg.subrange(0, 32)),
                        ),
                        longest_chain,
                    )
                } else {
                    scanned
                }
            },
            _ => scanned,
        }
    } else {
        scanned
    }
}

/// Scanning from the front: if the first `i` transactions do not match the
/// type, the first match of the whole list is that of the rest, shifted.
pub proof fn lemma_first_type_skip(ts: Seq<Transaction>, ty: TransactionType, i: int)
    requires
        0 <= i <= ts.len(),
        forall|j: int| 0 <= j < i ==> (#[trigger] ts[j]).transaction_type != ty,
    ensures
        first_type_match(ts, ty) == match first_type_match(ts.skip(i), ty) {
            None => None::<int>,
            Some(k) => Some(k + i),
        },
    decreases i,
{
    if i > 0 {
        lemma_first_type_skip(ts, ty, i - 1);
        assert(ts.skip(i - 1).drop_first() =~= ts.skip(i));
        assert(ts.skip(i - 1)[0] == ts[i - 1]);
    } else {
        assert(ts.skip(0) =~= ts);
    }
}

/// A found first-type position is a position of the list, and the
/// transaction there has the type.
pub proof fn lemma_first_type_in_range(ts: Seq<Transaction>, ty: TransactionType)
    requires
        first_type_match(ts, ty) is Some,
    ensures
        0 <= first_type_match(ts, ty)->Some_0 < ts.len(),
        ts[first_type_match(ts, ty)->Some_0].transaction_type == ty,
    decreases ts.len(),
{
    if ts.len() > 0 && ts[0].transaction_type != ty {
        lemma_first_type_in_range(ts.drop_first(), ty);
    }
}

/// The position of the first transaction of the given type in `ts`, if any.
fn find_first_type(ts: &Vec<Transaction>, ty: TransactionType) -> (r: Option<usize>)
    ensures
        first_type_match(ts@, ty) matches Some(i) ==> r == Some(i as usize),
        first_type_match(ts@, ty) is None ==> r is None,
{
    let n = ts.len();
    let mut i: usize = 0;
    while i < n
        invariant
            i <= n,
            n == ts@.len(),
            forall|j: int| 0 <= j < i ==> (#[trigger] ts@[j]).transaction_type != ty,
        decreases n - i,
    {
        if ts[i].get_transaction_type() == ty {
            proof {
                lemma_first_type_skip(ts@, ty, i as int);
                assert(ts@.skip(i as int)[0] == ts@[i as int]);
            }
            return Some(i);
        }
        i = i + 1;
    }
    proof {
        lemma_first_type_skip(ts@, ty, n as int);
        assert(ts@.skip(n as int).len() == 0);
    }
    None
}

impl Staking {
    /// Folds the pending and deposit tables back into the active table.
    fn fold_into_stakers(&mut self)
        ensures
            final(self).stakers@ == old(self).stakers@ + old(self).pending@ + old(
                self,
            ).deposits@,
            final(self).pending@.len() == 0,
            final(self).deposits@.len() == 0,
    {
        let mut i: usize = 0;
        while i < self.pending.len()
            invariant
                i <= self.pending@.len(),
                self.pending@ == old(self).pending@,
                self.deposits@ == old(self).deposits@,
                self.stakers@ == old(self).stakers@ + old(self).pending@.take(i as int),
            decreases self.pending@.len() - i,
        {
            let s = self.pending[i];
            self.stakers.push(s);
            proof {
                assert(self.stakers@ =~= old(self).stakers@ + old(self).pending@.take(i + 1));
            }
            i = i + 1;
        }
        let mut i: usize = 0;
        while i < self.deposits.len()
            invariant
                i <= self.deposits@.len(),
                self.deposits@ == old(self).deposits@,
                self.stakers@ == old(self).stakers@ + old(self).pending@ + old(
                    self,
                ).deposits@.take(i as int),
            decreases self.deposits@.len() - i,
        {
            let s = self.deposits[i];
            self.stakers.push(s);
            proof {
                assert(self.stakers@ =~= old(self).stakers@ + old(self).pending@ + old(
                    self,
                ).deposits@.take(i + 1));
            }
            i = i + 1;
        }
        proof {
            assert(old(self).pending@.take(old(self).pending@.len() as int) =~= old(
                self,
            ).pending@);
            assert(old(self).deposits@.take(old(self).deposits@.len() as int) =~= old(
                self,
            ).deposits@);
        }
        self.pending = Vec::new();
        self.deposits = Vec::new();
    }

    /// Rewrites the staking tables for a block joining or leaving the
    /// longest chain: see [`staking_ocr_model`]. The returned triples name
    /// slips whose on-disk UTXO entries must be spent, unspent and deleted;
    /// this bookkeeping is not yet tracked, so they are empty.
    #[verifier::rlimit(100)]
    #[verifier::spinoff_prover]
    pub fn on_chain_reorganization(&mut self, block: &crate::block::Block, longest_chain: bool)
        -> (r: (Vec<Slip>, Vec<Slip>, Vec<Slip>))
        ensures
            r.0@.len() == 0 && r.1@.len() == 0 && r.2@.len() == 0,
            sm_view(*final(self)) == staking_ocr_model(
                sm_view(*old(self)),
                *block,
                longest_chain,
            ),
    {
        let res_spend: Vec<Slip> = Vec::new();
        let res_unspend: Vec<Slip> = Vec::new();
        let res_delete: Vec<Slip> = Vec::new();

        // add or remove the block's staking deposits
        let txs = &block.transactions;
        let n = txs.len();
        let mut ti: usize = 0;
        while ti < n
            invariant
                ti <= n,
                n == txs@.len(),
                txs@ == block.transactions@,
                self.stakers@ == old(self).stakers@,
                self.pending@ == old(self).pending@,
                self.deposits@ == scan_deposits(
                    old(self).deposits@,
                    txs@.take(ti as int),
                    longest_chain,
                ),
            decreases n - ti,
        {
            let tx = &txs[ti];
            let ghost dep_pre = scan_deposits(
                old(self).deposits@,
                txs@.take(ti as int),
                longest_chain,
            );
            let m = tx.outputs.len();
            let mut oi: usize = 0;
            while oi < m
                invariant
                    oi <= m,
                    m == tx.outputs@.len(),
                    tx == &txs@[ti as int],
                    0 <= ti < txs@.len(),
                    self.stakers@ == old(self).stakers@,
                    self.pending@ == old(self).pending@,
                    dep_pre == scan_deposits(
                        old(self).deposits@,
                        txs@.take(ti as int),
                        longest_chain,
                    ),
                    self.deposits@ == scan_deposit_outputs(
                        dep_pre,
                        txs@[ti as int],
                        tx.outputs@.take(oi as int),
                        longest_chain,
                    ),
                decreases m - oi,
            {
                proof {
                    assert(tx.outputs@.take(oi + 1).drop_last() =~= tx.outputs@.take(oi as int));
                    assert(tx.outputs@.take(oi + 1).last() == tx.outputs@[oi as int]);
                }
                if tx.get_transaction_type() == TransactionType::StakerDeposit
                    && tx.outputs[oi].get_slip_type() == SlipType::StakerDeposit {
                    if longest_chain {
                        self.add_deposit(tx.outputs[oi]);
                    } else {
                        let _removed = self.remove_deposit(tx.outputs[oi]);
                    }
                }
                oi = oi + 1;
            }
            proof {
                assert(tx.outputs@.take(m as int) =~= tx.outputs@);
                assert(txs@.take(ti + 1).drop_last() =~= txs@.take(ti as int));
                assert(txs@.take(ti + 1).last() == txs@[ti as int]);
            }
            ti = ti + 1;
        }
        proof {
            assert(txs@.take(n as int) =~= txs@);
        }

        // the payout bookkeeping, when the block pays a staker
        if block.get_has_fee_transaction() && block.get_has_golden_ticket() {
            let ft_idx = match find_first_type(&block.transactions, TransactionType::Fee) {
                Some(i) => i,
                None => {
                    return (res_spend, res_unspend, res_delete);
                },
            };
            let gt_idx = match find_first_type(
                &block.transactions,
                TransactionType::GoldenTicket,
            ) {
                Some(i) => i,
                None => {
                    return (res_spend, res_unspend, res_delete);
                },
            };
            proof {
                lemma_first_type_in_range(block.transactions@, TransactionType::Fee);
                lemma_first_type_in_range(block.transactions@, TransactionType::GoldenTicket);
            }
            let golden_ticket = match crate::golden_ticket::GoldenTicket::deserialize_for_transaction(
                block.transactions[gt_idx].get_message(),
            ) {
                Some(g) => g,
                None => {
                    return (res_spend, res_unspend, res_delete);
                },
            };
            let ghost msg = block.transactions@[gt_idx as int].message@;
            let mut rv: Vec<u8> = Vec::new();
            crate::bytes::push_bytes32(&mut rv, &golden_ticket.random);
            proof {
                assert(rv@ =~= msg.subrange(0, 32));
            }
            let router_random_number1 = crate::crypto::hash(&rv);
            let mut rv2: Vec<u8> = Vec::new();
            crate::bytes::push_bytes32(&mut rv2, &router_random_number1);
            proof {
                assert(rv2@ =~= router_random_number1@);
            }
            let staker_random_number = crate::crypto::hash(&rv2);

            let fee_transaction = &block.transactions[ft_idx];
            if fee_transaction.outputs.len() < 3 {
                return (res_spend, res_unspend, res_delete);
            }
            if fee_transaction.inputs.len() < 1 {
                return (res_spend, res_unspend, res_delete);
            }
            let staker_output = fee_transaction.outputs[2];
            let staker_input = fee_transaction.inputs[0];

            let ghost scanned = sm_view(*self);
            if longest_chain {
                if self.stakers.len() == 0 {
                    let ghost m0 = sm_view(*self);
                    let _reset = self.reset_staker_table(100_000_000);
                    proof {
                        assert(sm_view(*self) == sm_reset(m0, 100_000_000));
                    }
                }
                let ghost m1 = sm_view(*self);
                match self.find_winning_staker(staker_random_number) {
                    Some(lucky_staker) => {
                        let _removed = self.remove_staker(lucky_staker);
                        self.add_pending(lucky_staker);
                    },
                    None => {},
                }
                let ghost m2 = sm_view(*self);
                if self.stakers.len() == 0 {
                    let _reset = self.reset_staker_table(100_000_000);
                    proof {
                        assert(sm_view(*self) == sm_reset(m2, 100_000_000));
                    }
                }
                proof {
                    assert(sm_view(*self) =~= sm_payout(
                        scanned,
                        block.transactions@[ft_idx as int],
                        staker_random_number@,
                        longest_chain,
                    ));
                }
            } else {
                if self.stakers.len() == 0 {
                    self.fold_into_stakers();
                }
                let ghost m1 = sm_view(*self);
                proof {
                    assert(m1 =~= (if scanned.stakers.len() == 0 {
                        StakingModel {
                            stakers: scanned.stakers + scanned.pending + scanned.deposits,
                            pending: Seq::empty(),
                            deposits: Seq::empty(),
                        }
                    } else {
                        scanned
                    }));
                }
                let _removed = self.remove_pending(staker_output);
                let ghost ftx = block.transactions@[ft_idx as int];
                proof {
                    assert(staker_output == ftx.outputs@[2]);
                    assert(sm_view(*self) =~= (StakingModel {
                        pending: remove_key(m1.pending, slip_wire(ftx.outputs@[2])),
                        ..m1
                    }));
                }
                let ghost m2 = sm_view(*self);
                if staker_input.get_slip_type() == SlipType::StakerDeposit {
                    self.add_deposit(staker_input);
                } else if staker_input.get_slip_type() == SlipType::StakerOutput {
                    self.add_staker(staker_input);
                }
                let ghost m3 = sm_view(*self);
                proof {
                    assert(staker_input == ftx.inputs@[0]);
                    assert(m3 =~= (if staker_input.slip_type == SlipType::StakerDeposit {
                        StakingModel { deposits: m2.deposits.push(staker_input), ..m2 }
                    } else if staker_input.slip_type == SlipType::StakerOutput {
                        StakingModel { stakers: m2.stakers.push(staker_input), ..m2 }
                    } else {
                        m2
                    }));
                }
                if self.pending.len() == 0 {
                    self.fold_into_stakers();
                    proof {
                        assert(sm_view(*self).stakers =~= m3.stakers + m3.deposits);
                    }
                }
                proof {
                    assert(sm_view(*self) =~= sm_payout(
                        scanned,
                        block.transactions@[ft_idx as int],
                        staker_random_number@,
                        longest_chain,
                    ));
                }
            }
        }
        (res_spend, res_unspend, res_delete)
    }
}

/// Removes the first slip of `v` whose UTXO key equals that of `slip`.
fn remove_first_key_match(v: &mut Vec<Slip>, slip: &Slip) -> (r: bool)
    ensures
        r == (first_key_match(old(v)@, slip_wire(*slip)) is Some),
        first_key_match(old(v)@, slip_wire(*slip)) matches Some(i) ==> final(v)@ == old(
            v,
        )@.remove(i),
        first_key_match(old(v)@, slip_wire(*slip)) is None ==> final(v)@ == old(v)@,
{
    let key = slip.get_utxoset_key();
    let mut i: usize = 0;
    while i < v.len()
        invariant
            i <= v@.len(),
            v@ == old(v)@,
            key@ == slip_wire(*slip),
            forall|j: int| 0 <= j < i ==> slip_wire(#[trigger] v@[j]) != slip_wire(*slip),
        decreases v@.len() - i,
    {
        let ikey = v[i].get_utxoset_key();
        if crate::bytes::vec_u8_eq(&ikey, &key) {
            proof {
                lemma_first_match_skip(v@, slip_wire(*slip), i as int);
                assert(v@.skip(i as int)[0] == v@[i as int]);
            }
            let _removed = v.remove(i);
            return true;
        }
        i = i + 1;
    }
    proof {
        lemma_first_match_skip(v@, slip_wire(*slip), v@.len() as int);
        assert(v@.skip(v@.len() as int).len() == 0);
    }
    false
}

} // verus!
