//! The merkle root over a block's transaction signing hashes: leaves are
//! hashed pairwise, an odd leaf is padded with 32 zero bytes, and the
//! process repeats layer by layer until one root remains.
use crate::bytes::zero32_seq;
use crate::crypto::{hash, sha256_of, SaitoHash};
use vstd::prelude::*;

verus! {

/// The byte sequences of a vector of 32-byte hashes.
pub open spec fn hashes_view(v: Seq<SaitoHash>) -> Seq<Seq<u8>> {
    Seq::new(v.len(), |i: int| v[i]@)
}

/// One layer step: hashes of adjacent pairs, the odd element padded with
/// 32 zero bytes.
pub open spec fn merkle_pair_up(s: Seq<Seq<u8>>) -> Seq<Seq<u8>> {
    Seq::new(
        (s.len() + 1) / 2,
        |i: int| sha256_of(
            s[2 * i] + if 2 * i + 1 < s.len() {
                s[2 * i + 1]
            } else {
                zero32_seq()
            },
        ),
    )
}

/// Repeated pairing of a non-empty layer down to its single root.
pub open spec fn merkle_down(s: Seq<Seq<u8>>) -> Seq<u8>
    decreases s.len(),
{
    if s.len() <= 1 {
        if s.len() == 1 {
            s[0]
        } else {
            zero32_seq()
        }
    } else {
        merkle_down(merkle_pair_up(s))
    }
}

/// The merkle root of a list of leaf hashes. Leaves are paired once even
/// when there is only one, so a single leaf has root `sha256(leaf || 0^32)`;
/// an empty list has the all-zero root.
pub open spec fn merkle_root_of(leaves: Seq<Seq<u8>>) -> Seq<u8> {
    if leaves.len() == 0 {
        zero32_seq()
    } else {
        merkle_down(merkle_pair_up(leaves))
    }
}

/// Computes one pairing layer over a non-empty vector of hashes.
fn pair_up_layer(v: &Vec<SaitoHash>) -> (r: Vec<SaitoHash>)
    requires
        v@.len() >= 1,
    ensures
        hashes_view(r@) == merkle_pair_up(hashes_view(v@)),
        r@.len() == (v@.len() + 1) / 2,
{
    let n = v.len();
    let half = n / 2;
    let mut out: Vec<SaitoHash> = Vec::new();
    let mut j: usize = 0;
    while j < half
        invariant
            n == v@.len(),
            half == n / 2,
            j <= half,
            out@.len() == j,
            forall|k: int| 0 <= k < out@.len() ==> (#[trigger] out@[k])@ == merkle_pair_up(
                hashes_view(v@),
            )[k],
        decreases half - j,
    {
        let mut buf: Vec<u8> = Vec::new();
        crate::bytes::push_bytes32(&mut buf, &v[2 * j]);
        crate::bytes::push_bytes32(&mut buf, &v[2 * j + 1]);
        let h = hash(&buf);
        proof {
            assert(buf@ =~= hashes_view(v@)[2 * j] + hashes_view(v@)[2 * j + 1]);
        }
        out.push(h);
        j = j + 1;
    }
    if n % 2 == 1 {
        let mut buf: Vec<u8> = Vec::new();
        crate::bytes::push_bytes32(&mut buf, &v[n - 1]);
        let z = crate::bytes::zero32();
        crate::bytes::push_bytes32(&mut buf, &z);
        let h = hash(&buf);
        proof {
            assert(buf@ =~= hashes_view(v@)[n - 1] + zero32_seq());
            assert(n - 1 == 2 * ((n / 2) as int));
        }
        out.push(h);
    }
    proof {
        assert(hashes_view(out@) =~= merkle_pair_up(hashes_view(v@)));
    }
    out
}

/// The merkle root of a vector of leaf hashes: see [`merkle_root_of`].
pub fn generate_merkle_root_from_hashes(leaves: &Vec<SaitoHash>) -> (r: SaitoHash)
    ensures
        r@ == merkle_root_of(hashes_view(leaves@)),
{
    if leaves.len() == 0 {
        return crate::bytes::zero32();
    }
    let mut layer = pair_up_layer(leaves);
    while layer.len() > 1
        invariant
            layer@.len() >= 1,
            merkle_down(hashes_view(layer@)) == merkle_root_of(hashes_view(leaves@)),
        decreases layer@.len(),
    {
        layer = pair_up_layer(&layer);
    }
    layer[0]
}

} // verus!
