//! Golden tickets: mining solutions that release a block's fees. A ticket
//! names the random value the miner drew, the miner's public key, and the
//! previous block hash it targets; its solution is valid when the hash of
//! `random || publickey` has at least the parent's difficulty in leading
//! zero bits.
use crate::bytes::{push_bytes32, push_bytes33, read_bytes32, read_bytes33};
use crate::crypto::{hash, sha256_of, SaitoHash, SaitoPublicKey};
use vstd::prelude::*;

verus! {

/// A golden ticket.
#[derive(Debug, Clone, Copy)]
pub struct GoldenTicket {
    pub random: SaitoHash,
    pub publickey: SaitoPublicKey,
    pub target: SaitoHash,
}

/// The 97 bytes of a golden ticket inside a transaction message: random,
/// publickey, target.
pub open spec fn gt_wire(g: GoldenTicket) -> Seq<u8> {
    g.random@ + g.publickey@ + g.target@
}

/// The number of leading zero bits of a single byte.
pub open spec fn byte_leading_zeros(b: u8) -> nat {
    if b >= 128 {
        0
    } else if b >= 64 {
        1
    } else if b >= 32 {
        2
    } else if b >= 16 {
        3
    } else if b >= 8 {
        4
    } else if b >= 4 {
        5
    } else if b >= 2 {
        6
    } else if b >= 1 {
        7
    } else {
        8
    }
}

/// The number of leading zero bits of a byte sequence.
pub open spec fn leading_zero_bits(s: Seq<u8>) -> nat
    decreases s.len(),
{
    if s.len() == 0 {
        0
    } else if s[0] == 0 {
        8 + leading_zero_bits(s.drop_first())
    } else {
        byte_leading_zeros(s[0])
    }
}

/// Whether a candidate solution hash meets a difficulty: its leading zero
/// bits reach it.
pub open spec fn solution_meets_difficulty(solution: Seq<u8>, difficulty: u64) -> bool {
    leading_zero_bits(solution) >= difficulty
}

impl GoldenTicket {
    /// A golden ticket from its three fields.
    pub fn new(random: SaitoHash, publickey: SaitoPublicKey, target: SaitoHash) -> (r:
        GoldenTicket)
        ensures
            r.random == random,
            r.publickey == publickey,
            r.target == target,
    {
        GoldenTicket { random, publickey, target }
    }

    pub fn get_random(&self) -> (r: SaitoHash)
        ensures
            r == self.random,
    {
        self.random
    }

    pub fn get_publickey(&self) -> (r: SaitoPublicKey)
        ensures
            r == self.publickey,
    {
        self.publickey
    }

    pub fn get_target(&self) -> (r: SaitoHash)
        ensures
            r == self.target,
    {
        self.target
    }

    /// Serializes the ticket into the 97 message bytes of a golden-ticket
    /// transaction.
    pub fn serialize_for_transaction(&self) -> (r: Vec<u8>)
        ensures
            r@ == gt_wire(*self),
    {
        let mut v: Vec<u8> = Vec::new();
        push_bytes32(&mut v, &self.random);
        push_bytes33(&mut v, &self.publickey);
        push_bytes32(&mut v, &self.target);
        proof {
            assert(v@ =~= gt_wire(*self));
        }
        v
    }

    /// Reads a ticket back from a transaction message. Returns nothing
    /// unless the message is exactly 97 bytes.
    pub fn deserialize_for_transaction(bytes: &Vec<u8>) -> (r: Option<GoldenTicket>)
        ensures
            r matches Some(g) ==> bytes@ == gt_wire(g),
            r is None <==> bytes@.len() != 97,
    {
        if bytes.len() != 97 {
            return None;
        }
        let random = read_bytes32(bytes, 0);
        let publickey = read_bytes33(bytes, 32);
        let target = read_bytes32(bytes, 65);
        let g = GoldenTicket { random, publickey, target };
        proof {
            assert(bytes@ =~= gt_wire(g));
        }
        Some(g)
    }

    /// The candidate solution for a draw: the hash of `random || publickey`.
    pub fn generate_solution(random: SaitoHash, publickey: SaitoPublicKey) -> (r: SaitoHash)
        ensures
            r@ == sha256_of(random@ + publickey@),
    {
        let mut v: Vec<u8> = Vec::new();
        push_bytes32(&mut v, &random);
        push_bytes33(&mut v, &publickey);
        hash(&v)
    }

    /// Whether a solution meets the previous block's difficulty. The
    /// previous block hash is the ticket's stated target; validity depends
    /// on the solution's leading zero bits alone.
    pub fn is_valid_solution(
        _previous_block_hash: SaitoHash,
        solution: SaitoHash,
        difficulty: u64,
    ) -> (r: bool)
        ensures
            r == solution_meets_difficulty(solution@, difficulty),
    {
        let bits = count_leading_zero_bits(&solution);
        bits >= difficulty
    }
}

/// The number of leading zero bits of a 32-byte hash.
pub fn count_leading_zero_bits(solution: &SaitoHash) -> (r: u64)
    ensures
        r == leading_zero_bits(solution@),
{
    let mut i: usize = 0;
    let mut acc: u64 = 0;
    proof {
        assert(solution@.skip(0) =~= solution@);
    }
    while i < 32
        invariant
            i <= 32,
            acc == 8 * i,
            leading_zero_bits(solution@) == acc + leading_zero_bits(solution@.skip(i as int)),
            forall|j: int| 0 <= j < i ==> solution@[j] == 0,
        decreases 32 - i,
    {
        proof {
            assert(solution@.skip(i as int).drop_first() =~= solution@.skip(i + 1));
            assert(solution@.skip(i as int)[0] == solution@[i as int]);
        }
        let b = solution[i];
        if b != 0 {
            let lz = byte_lz(b);
            return acc + lz;
        }
        acc = acc + 8;
        i = i + 1;
    }
    proof {
        assert(solution@.skip(32).len() == 0);
    }
    acc
}

/// The number of leading zero bits of one byte.
fn byte_lz(b: u8) -> (r: u64)
    ensures
        r == byte_leading_zeros(b),
{
    if b >= 128 {
        0
    } else if b >= 64 {
        1
    } else if b >= 32 {
        2
    } else if b >= 16 {
        3
    } else if b >= 8 {
        4
    } else if b >= 4 {
        5
    } else if b >= 2 {
        6
    } else if b >= 1 {
        7
    } else {
        8
    }
}

} // verus!
