//! The burn-fee engine: the scalar that targets a constant block interval
//! by demanding more routing work when blocks arrive quickly.
//!
//! Both functions are pure integer arithmetic over `(previous burn fee,
//! current timestamp, previous timestamp)`; the square root is an exact
//! integer square root.
use crate::HEARTBEAT;
use vstd::prelude::*;

verus! {

/// Whether `r` is the integer square root of `n`.
pub open spec fn is_nat_sqrt(n: nat, r: nat) -> bool {
    r * r <= n && n < (r + 1) * (r + 1)
}

/// The integer square root of `n`: the unique `r` with
/// `r * r <= n < (r + 1) * (r + 1)`.
pub open spec fn nat_sqrt(n: nat) -> nat {
    choose|r: nat| is_nat_sqrt(n, r)
}

/// An integer square root exists for every `n`.
pub proof fn lemma_nat_sqrt_exists(n: nat)
    ensures
        nat_sqrt(n) * nat_sqrt(n) <= n,
        n < (nat_sqrt(n) + 1) * (nat_sqrt(n) + 1),
    decreases n,
{
    if n == 0 {
        assert(0 * 0 <= n && n < (0 + 1) * (0 + 1)) by (nonlinear_arith)
            requires
                n == 0,
        ;
        assert(is_nat_sqrt(n, 0));
        assert(is_nat_sqrt(n, nat_sqrt(n)));
    } else {
        lemma_nat_sqrt_exists((n - 1) as nat);
        let s = nat_sqrt((n - 1) as nat);
        if n < (s + 1) * (s + 1) {
            assert(is_nat_sqrt(n, s));
        } else {
            assert((s + 1) * (s + 1) <= n);
            assert(n == (s + 1) * (s + 1));
            assert((s + 1) * (s + 1) <= n && n < (s + 2) * (s + 2)) by (nonlinear_arith)
                requires
                    n == (s + 1) * (s + 1),
            ;
            assert(is_nat_sqrt(n, s + 1));
        }
        assert(is_nat_sqrt(n, nat_sqrt(n)));
    }
}

/// Any two integer square roots of `n` agree.
pub proof fn lemma_nat_sqrt_unique(n: nat, a: nat, b: nat)
    requires
        a * a <= n < (a + 1) * (a + 1),
        b * b <= n < (b + 1) * (b + 1),
    ensures
        a == b,
{
    if a < b {
        assert((a + 1) * (a + 1) <= b * b) by (nonlinear_arith)
            requires
                a + 1 <= b,
        ;
    }
    if b < a {
        assert((b + 1) * (b + 1) <= a * a) by (nonlinear_arith)
            requires
                b + 1 <= a,
        ;
    }
}

/// The elapsed milliseconds between two block timestamps, floored at one.
pub open spec fn elapsed_ms(current_ts: u64, previous_ts: u64) -> nat {
    if current_ts > previous_ts {
        (current_ts - previous_ts) as nat
    } else {
        1
    }
}

/// Caps an unbounded value at the largest u64.
pub open spec fn cap_u64(n: nat) -> u64 {
    if n > u64::MAX {
        u64::MAX
    } else {
        n as u64
    }
}

/// The burn fee a block produced now must carry, given its parent:
/// `prev_bf * sqrt(HEARTBEAT / elapsed)`, computed exactly as
/// `prev_bf * isqrt(HEARTBEAT * elapsed) / elapsed` and capped at the
/// largest u64. At the target interval the burn fee is unchanged; faster
/// blocks raise it, slower blocks lower it.
pub open spec fn burnfee_for_next_block(prev_bf: u64, current_ts: u64, previous_ts: u64) -> u64 {
    let d = elapsed_ms(current_ts, previous_ts);
    cap_u64((((prev_bf as nat) * nat_sqrt((HEARTBEAT as nat) * d)) / d) as nat)
}

/// The cumulative routing work a block produced now must present, given its
/// parent: the integral of the parent burn fee over the elapsed time,
/// `prev_bf * elapsed / HEARTBEAT`, capped at the largest u64.
pub open spec fn routing_work_needed(prev_bf: u64, current_ts: u64, previous_ts: u64) -> u64 {
    let d = elapsed_ms(current_ts, previous_ts);
    cap_u64((((prev_bf as nat) * d) / (HEARTBEAT as nat)) as nat)
}

/// The integer square root of a value below `2^96`.
pub fn isqrt(n: u128) -> (r: u64)
    requires
        n < (1u128 << 96),
    ensures
        r == nat_sqrt(n as nat),
        (r as nat) * (r as nat) <= n as nat,
        (n as nat) < ((r as nat) + 1) * ((r as nat) + 1),
{
    proof {
        assert((1u128 << 96) == 0x1000000000000000000000000u128) by (bit_vector);
        assert((1u128 << 48) == 0x1000000000000u128) by (bit_vector);
    }
    let mut lo: u64 = 0;
    let mut hi: u64 = 1u64 << 48;
    proof {
        assert((1u64 << 48) == 0x1000000000000u64) by (bit_vector);
        assert((0x1000000000000u128) * (0x1000000000000u128) == 0x1000000000000000000000000u128);
    }
    while lo + 1 < hi
        invariant
            lo < hi,
            hi <= 0x1000000000000u64,
            (lo as nat) * (lo as nat) <= n as nat,
            (n as nat) < (hi as nat) * (hi as nat),
        decreases hi - lo,
    {
        let mid = lo + (hi - lo) / 2;
        proof {
            assert((mid as u128) * (mid as u128) <= (0x1000000000000u128) * (
            0x1000000000000u128)) by (nonlinear_arith)
                requires
                    mid <= 0x1000000000000u64,
            ;
        }
        let sq: u128 = (mid as u128) * (mid as u128);
        if sq <= n {
            lo = mid;
        } else {
            hi = mid;
        }
    }
    proof {
        lemma_nat_sqrt_exists(n as nat);
        lemma_nat_sqrt_unique(n as nat, lo as nat, nat_sqrt(n as nat));
    }
    lo
}

/// The burn-fee calculations, as pure functions of the parent block's burn
/// fee and the two timestamps.
pub struct BurnFee {}

impl BurnFee {
    /// The burn fee for a block produced at `current_block_timestamp`: see
    /// [`burnfee_for_next_block`].
    pub fn return_burnfee_for_block_produced_at_current_timestamp_in_nolan(
        burnfee_previous_block: u64,
        current_block_timestamp: u64,
        previous_block_timestamp: u64,
    ) -> (r: u64)
        ensures
            r == burnfee_for_next_block(
                burnfee_previous_block,
                current_block_timestamp,
                previous_block_timestamp,
            ),
    {
        let d: u64 = if current_block_timestamp > previous_block_timestamp {
            current_block_timestamp - previous_block_timestamp
        } else {
            1
        };
        proof {
            assert((HEARTBEAT as u128) * (d as u128) <= (HEARTBEAT as u128) * (
            u64::MAX as u128)) by (nonlinear_arith)
                requires
                    d <= u64::MAX,
            ;
        }
        let arg: u128 = (HEARTBEAT as u128) * (d as u128);
        proof {
            assert((1u128 << 96) == 0x1000000000000000000000000u128) by (bit_vector);
            assert((HEARTBEAT as u128) * (d as u128) < (1u128 << 96)) by (nonlinear_arith)
                requires
                    d <= u64::MAX,
                    (1u128 << 96) == 0x1000000000000000000000000u128,
            ;
        }
        let s = isqrt(arg);
        proof {
            assert((burnfee_previous_block as u128) * (s as u128) <= (u64::MAX as u128) * (
            u64::MAX as u128)) by (nonlinear_arith)
                requires
                    burnfee_previous_block <= u64::MAX,
                    s <= u64::MAX,
            ;
            assert((u64::MAX as u128) * (u64::MAX as u128) <= u128::MAX) by (nonlinear_arith);
        }
        let v: u128 = ((burnfee_previous_block as u128) * (s as u128)) / (d as u128);
        if v > u64::MAX as u128 {
            u64::MAX
        } else {
            v as u64
        }
    }

    /// The routing work needed to produce a block at
    /// `current_block_timestamp`: see [`routing_work_needed`].
    pub fn return_routing_work_needed_to_produce_block_in_nolan(
        burnfee_previous_block: u64,
        current_block_timestamp: u64,
        previous_block_timestamp: u64,
    ) -> (r: u64)
        ensures
            r == routing_work_needed(
                burnfee_previous_block,
                current_block_timestamp,
                previous_block_timestamp,
            ),
    {
        let d: u64 = if current_block_timestamp > previous_block_timestamp {
            current_block_timestamp - previous_block_timestamp
        } else {
            1
        };
        proof {
            assert((burnfee_previous_block as u128) * (d as u128) <= (u64::MAX as u128) * (
            u64::MAX as u128)) by (nonlinear_arith)
                requires
                    burnfee_previous_block <= u64::MAX,
                    d <= u64::MAX,
            ;
            assert((u64::MAX as u128) * (u64::MAX as u128) <= u128::MAX) by (nonlinear_arith);
        }
        let v: u128 = ((burnfee_previous_block as u128) * (d as u128)) / (HEARTBEAT as u128);
        if v > u64::MAX as u128 {
            u64::MAX
        } else {
            v as u64
        }
    }
}

} // verus!
