//! 256-bit helpers for the consensus lotteries: a 32-byte random number is
//! interpreted as a big-endian integer and reduced modulo small totals.
use vstd::prelude::*;

verus! {

/// The natural number encoded by a byte sequence in big-endian order.
pub open spec fn be_nat(s: Seq<u8>) -> nat
    decreases s.len(),
{
    if s.len() == 0 {
        0
    } else {
        be_nat(s.drop_last()) * 256 + s.last() as nat
    }
}

/// Relies on bigint's `U256::from_big_endian`, `%` and `low_u64`: reduces
/// the big-endian 256-bit integer in `bytes` modulo `m`. The remainder is
/// below `m`, so `low_u64` returns it exactly.
#[verifier::external_body]
pub fn u256_rem_u64(bytes: &[u8; 32], m: u64) -> (r: u64)
    requires
        m > 0,
    ensures
        r == be_nat(bytes@) % (m as nat),
        r < m,
{
    let x = bigint::uint::U256::from_big_endian(bytes);
    let z = bigint::uint::U256::from(m);
    let (rem, _) = x.overflowing_rem(z);
    rem.low_u64()
}

} // verus!
