//! Hops: the elements of a transaction's routing path. Each hop records the
//! hand-off of the transaction from one router to the next, signed by the
//! sender.
use crate::bytes::{push_bytes33, push_bytes64, read_bytes33, read_bytes64};
use crate::crypto::{SaitoPublicKey, SaitoSignature};
use vstd::prelude::*;

verus! {

/// One element of a routing path.
#[derive(Debug, Clone, PartialEq)]
pub struct Hop {
    pub from: SaitoPublicKey,
    pub to: SaitoPublicKey,
    pub sig: SaitoSignature,
}

/// The 130 serialized bytes of a hop: from, to, signature.
pub open spec fn hop_wire(h: Hop) -> Seq<u8> {
    h.from@ + h.to@ + h.sig@
}

/// Structural equality of two hops, field by field.
pub open spec fn hop_eq(a: Hop, b: Hop) -> bool {
    a.from@ == b.from@ && a.to@ == b.to@ && a.sig@ == b.sig@
}

impl Hop {
    /// A zeroed hop.
    pub fn new() -> (r: Hop)
        ensures
            r.from@ =~= Seq::new(33, |i: int| 0u8),
            r.to@ =~= Seq::new(33, |i: int| 0u8),
            r.sig@ =~= Seq::new(64, |i: int| 0u8),
    {
        Hop { from: [0u8; 33], to: [0u8; 33], sig: [0u8; 64] }
    }

    /// Serializes the hop for transport: 130 bytes.
    pub fn serialize_for_net(&self) -> (r: Vec<u8>)
        ensures
            r@ == hop_wire(*self),
    {
        let mut v: Vec<u8> = Vec::new();
        push_bytes33(&mut v, &self.from);
        push_bytes33(&mut v, &self.to);
        push_bytes64(&mut v, &self.sig);
        proof {
            assert(v@ =~= hop_wire(*self));
        }
        v
    }

    /// Reads the hop serialized at `off`.
    pub fn deserialize_from_net_at(bytes: &Vec<u8>, off: usize) -> (r: Hop)
        requires
            off + 130 <= bytes@.len(),
        ensures
            bytes@.subrange(off as int, off + 130) == hop_wire(r),
    {
        let n = bytes.len();
        let from = read_bytes33(bytes, off);
        let to = read_bytes33(bytes, off + 33);
        let sig = read_bytes64(bytes, off + 66);
        let h = Hop { from, to, sig };
        proof {
            assert(bytes@.subrange(off as int, off + 130) =~= hop_wire(h));
        }
        h
    }
}

} // verus!
