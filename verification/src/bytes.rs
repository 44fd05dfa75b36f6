//! Big-endian integer encoding and the small byte-level helpers that every
//! wire format in the crate is built from.
use vstd::prelude::*;

verus! {

/// The eight big-endian bytes of a `u64`.
pub open spec fn u64_be_bytes(x: u64) -> Seq<u8> {
    seq![
        (x >> 56) as u8,
        (x >> 48) as u8,
        (x >> 40) as u8,
        (x >> 32) as u8,
        (x >> 24) as u8,
        (x >> 16) as u8,
        (x >> 8) as u8,
        x as u8,
    ]
}

/// The four big-endian bytes of a `u32`.
pub open spec fn u32_be_bytes(x: u32) -> Seq<u8> {
    seq![(x >> 24) as u8, (x >> 16) as u8, (x >> 8) as u8, x as u8]
}

/// The `u64` read from eight big-endian bytes.
pub open spec fn u64_from_be(s: Seq<u8>) -> u64 {
    (((s[0] as u64) << 56) | ((s[1] as u64) << 48) | ((s[2] as u64) << 40)
        | ((s[3] as u64) << 32) | ((s[4] as u64) << 24) | ((s[5] as u64) << 16)
        | ((s[6] as u64) << 8) | (s[7] as u64)) as u64
}

/// The `u32` read from four big-endian bytes.
pub open spec fn u32_from_be(s: Seq<u8>) -> u32 {
    (((s[0] as u32) << 24) | ((s[1] as u32) << 16) | ((s[2] as u32) << 8)
        | (s[3] as u32)) as u32
}

/// Reading back the eight big-endian bytes of `x` yields `x`.
pub proof fn lemma_u64_be_round_trip(x: u64)
    ensures
        u64_from_be(u64_be_bytes(x)) == x,
{
    let b0 = (x >> 56) as u8;
    let b1 = (x >> 48) as u8;
    let b2 = (x >> 40) as u8;
    let b3 = (x >> 32) as u8;
    let b4 = (x >> 24) as u8;
    let b5 = (x >> 16) as u8;
    let b6 = (x >> 8) as u8;
    let b7 = x as u8;
    assert((((b0 as u64) << 56) | ((b1 as u64) << 48) | ((b2 as u64) << 40)
        | ((b3 as u64) << 32) | ((b4 as u64) << 24) | ((b5 as u64) << 16)
        | ((b6 as u64) << 8) | (b7 as u64)) as u64 == x) by (bit_vector)
        requires
            b0 == (x >> 56) as u8,
            b1 == (x >> 48) as u8,
            b2 == (x >> 40) as u8,
            b3 == (x >> 32) as u8,
            b4 == (x >> 24) as u8,
            b5 == (x >> 16) as u8,
            b6 == (x >> 8) as u8,
            b7 == x as u8,
    ;
}

/// Reading back the four big-endian bytes of `x` yields `x`.
pub proof fn lemma_u32_be_round_trip(x: u32)
    ensures
        u32_from_be(u32_be_bytes(x)) == x,
{
    let b0 = (x >> 24) as u8;
    let b1 = (x >> 16) as u8;
    let b2 = (x >> 8) as u8;
    let b3 = x as u8;
    assert((((b0 as u32) << 24) | ((b1 as u32) << 16) | ((b2 as u32) << 8)
        | (b3 as u32)) as u32 == x) by (bit_vector)
        requires
            b0 == (x >> 24) as u8,
            b1 == (x >> 16) as u8,
            b2 == (x >> 8) as u8,
            b3 == x as u8,
    ;
}

/// Any eight bytes are the big-endian encoding of the `u64` they decode to.
pub proof fn lemma_u64_be_inverse(s: Seq<u8>)
    requires
        s.len() == 8,
    ensures
        u64_be_bytes(u64_from_be(s)) =~= s,
{
    let b0 = s[0];
    let b1 = s[1];
    let b2 = s[2];
    let b3 = s[3];
    let b4 = s[4];
    let b5 = s[5];
    let b6 = s[6];
    let b7 = s[7];
    let x = u64_from_be(s);
    assert((x >> 56) as u8 == b0 && (x >> 48) as u8 == b1 && (x >> 40) as u8 == b2
        && (x >> 32) as u8 == b3 && (x >> 24) as u8 == b4 && (x >> 16) as u8 == b5
        && (x >> 8) as u8 == b6 && x as u8 == b7) by (bit_vector)
        requires
            x == (((b0 as u64) << 56) | ((b1 as u64) << 48) | ((b2 as u64) << 40)
                | ((b3 as u64) << 32) | ((b4 as u64) << 24) | ((b5 as u64) << 16)
                | ((b6 as u64) << 8) | (b7 as u64)) as u64,
    ;
}

/// Any four bytes are the big-endian encoding of the `u32` they decode to.
pub proof fn lemma_u32_be_inverse(s: Seq<u8>)
    requires
        s.len() == 4,
    ensures
        u32_be_bytes(u32_from_be(s)) =~= s,
{
    let b0 = s[0];
    let b1 = s[1];
    let b2 = s[2];
    let b3 = s[3];
    let x = u32_from_be(s);
    assert((x >> 24) as u8 == b0 && (x >> 16) as u8 == b1 && (x >> 8) as u8 == b2
        && x as u8 == b3) by (bit_vector)
        requires
            x == (((b0 as u32) << 24) | ((b1 as u32) << 16) | ((b2 as u32) << 8)
                | (b3 as u32)) as u32,
    ;
}

/// Appends the eight big-endian bytes of `x` to `v`.
pub fn push_u64_be(v: &mut Vec<u8>, x: u64)
    ensures
        final(v)@ == old(v)@ + u64_be_bytes(x),
{
    v.push((x >> 56) as u8);
    v.push((x >> 48) as u8);
    v.push((x >> 40) as u8);
    v.push((x >> 32) as u8);
    v.push((x >> 24) as u8);
    v.push((x >> 16) as u8);
    v.push((x >> 8) as u8);
    v.push(x as u8);
    assert(v@ =~= old(v)@ + u64_be_bytes(x));
}

/// Appends the four big-endian bytes of `x` to `v`.
pub fn push_u32_be(v: &mut Vec<u8>, x: u32)
    ensures
        final(v)@ == old(v)@ + u32_be_bytes(x),
{
    v.push((x >> 24) as u8);
    v.push((x >> 16) as u8);
    v.push((x >> 8) as u8);
    v.push(x as u8);
    assert(v@ =~= old(v)@ + u32_be_bytes(x));
}

/// Appends the bytes of a fixed 32-byte value to `v`.
pub fn push_bytes32(v: &mut Vec<u8>, a: &[u8; 32])
    ensures
        final(v)@ == old(v)@ + a@,
{
    let mut i: usize = 0;
    while i < 32
        invariant
            i <= 32,
            v@ == old(v)@ + a@.take(i as int),
        decreases 32 - i,
    {
        v.push(a[i]);
        assert(v@ =~= old(v)@ + a@.take(i + 1));
        i = i + 1;
    }
    assert(a@.take(32) =~= a@);
}

/// Appends the bytes of a fixed 33-byte value to `v`.
pub fn push_bytes33(v: &mut Vec<u8>, a: &[u8; 33])
    ensures
        final(v)@ == old(v)@ + a@,
{
    let mut i: usize = 0;
    while i < 33
        invariant
            i <= 33,
            v@ == old(v)@ + a@.take(i as int),
        decreases 33 - i,
    {
        v.push(a[i]);
        assert(v@ =~= old(v)@ + a@.take(i + 1));
        i = i + 1;
    }
    assert(a@.take(33) =~= a@);
}

/// Appends the bytes of a fixed 64-byte value to `v`.
pub fn push_bytes64(v: &mut Vec<u8>, a: &[u8; 64])
    ensures
        final(v)@ == old(v)@ + a@,
{
    let mut i: usize = 0;
    while i < 64
        invariant
            i <= 64,
            v@ == old(v)@ + a@.take(i as int),
        decreases 64 - i,
    {
        v.push(a[i]);
        assert(v@ =~= old(v)@ + a@.take(i + 1));
        i = i + 1;
    }
    assert(a@.take(64) =~= a@);
}

/// Appends all bytes of `b` to `v`.
pub fn push_slice(v: &mut Vec<u8>, b: &Vec<u8>)
    ensures
        final(v)@ == old(v)@ + b@,
{
    let mut i: usize = 0;
    while i < b.len()
        invariant
            i <= b@.len(),
            v@ == old(v)@ + b@.take(i as int),
        decreases b@.len() - i,
    {
        v.push(b[i]);
        assert(v@ =~= old(v)@ + b@.take(i + 1));
        i = i + 1;
    }
    assert(b@.take(b@.len() as int) =~= b@);
}

/// Reads the eight big-endian bytes at `off` as a `u64`.
pub fn read_u64_be(v: &Vec<u8>, off: usize) -> (r: u64)
    requires
        off + 8 <= v@.len(),
    ensures
        r == u64_from_be(v@.subrange(off as int, off + 8)),
{
    let n = v.len();
    let r = ((v[off] as u64) << 56) | ((v[off + 1] as u64) << 48)
        | ((v[off + 2] as u64) << 40) | ((v[off + 3] as u64) << 32)
        | ((v[off + 4] as u64) << 24) | ((v[off + 5] as u64) << 16)
        | ((v[off + 6] as u64) << 8) | (v[off + 7] as u64);
    proof {
        let s = v@.subrange(off as int, off + 8);
        assert(s[0] == v@[off as int]);
        assert(s[1] == v@[off + 1]);
        assert(s[2] == v@[off + 2]);
        assert(s[3] == v@[off + 3]);
        assert(s[4] == v@[off + 4]);
        assert(s[5] == v@[off + 5]);
        assert(s[6] == v@[off + 6]);
        assert(s[7] == v@[off + 7]);
    }
    r
}

/// Reads the four big-endian bytes at `off` as a `u32`.
pub fn read_u32_be(v: &Vec<u8>, off: usize) -> (r: u32)
    requires
        off + 4 <= v@.len(),
    ensures
        r == u32_from_be(v@.subrange(off as int, off + 4)),
{
    let n = v.len();
    let r = ((v[off] as u32) << 24) | ((v[off + 1] as u32) << 16)
        | ((v[off + 2] as u32) << 8) | (v[off + 3] as u32);
    proof {
        let s = v@.subrange(off as int, off + 4);
        assert(s[0] == v@[off as int]);
        assert(s[1] == v@[off + 1]);
        assert(s[2] == v@[off + 2]);
        assert(s[3] == v@[off + 3]);
    }
    r
}

/// Copies the 32 bytes at `off` into a fixed array.
pub fn read_bytes32(v: &Vec<u8>, off: usize) -> (r: [u8; 32])
    requires
        off + 32 <= v@.len(),
    ensures
        r@ == v@.subrange(off as int, off + 32),
{
    let n = v.len();
    let mut a = [0u8; 32];
    let mut i: usize = 0;
    while i < 32
        invariant
            i <= 32,
            n == v@.len(),
            off + 32 <= n,
            a@.len() == 32,
            forall|j: int| 0 <= j < i ==> a@[j] == v@[off + j],
        decreases 32 - i,
    {
        a[i] = v[off + i];
        i = i + 1;
    }
    assert(a@ =~= v@.subrange(off as int, off + 32));
    a
}

/// Copies the 33 bytes at `off` into a fixed array.
pub fn read_bytes33(v: &Vec<u8>, off: usize) -> (r: [u8; 33])
    requires
        off + 33 <= v@.len(),
    ensures
        r@ == v@.subrange(off as int, off + 33),
{
    let n = v.len();
    let mut a = [0u8; 33];
    let mut i: usize = 0;
    while i < 33
        invariant
            i <= 33,
            n == v@.len(),
            off + 33 <= n,
            a@.len() == 33,
            forall|j: int| 0 <= j < i ==> a@[j] == v@[off + j],
        decreases 33 - i,
    {
        a[i] = v[off + i];
        i = i + 1;
    }
    assert(a@ =~= v@.subrange(off as int, off + 33));
    a
}

/// Copies the 64 bytes at `off` into a fixed array.
pub fn read_bytes64(v: &Vec<u8>, off: usize) -> (r: [u8; 64])
    requires
        off + 64 <= v@.len(),
    ensures
        r@ == v@.subrange(off as int, off + 64),
{
    let n = v.len();
    let mut a = [0u8; 64];
    let mut i: usize = 0;
    while i < 64
        invariant
            i <= 64,
            n == v@.len(),
            off + 64 <= n,
            a@.len() == 64,
            forall|j: int| 0 <= j < i ==> a@[j] == v@[off + j],
        decreases 64 - i,
    {
        a[i] = v[off + i];
        i = i + 1;
    }
    assert(a@ =~= v@.subrange(off as int, off + 64));
    a
}

/// True exactly when the two 32-byte values hold the same bytes.
pub fn bytes32_eq(a: &[u8; 32], b: &[u8; 32]) -> (r: bool)
    ensures
        r == (a@ == b@),
{
    let mut i: usize = 0;
    while i < 32
        invariant
            i <= 32,
            forall|j: int| 0 <= j < i ==> a@[j] == b@[j],
        decreases 32 - i,
    {
        if a[i] != b[i] {
            return false;
        }
        i = i + 1;
    }
    proof {
        assert(a@ =~= b@);
    }
    true
}

/// True exactly when the two 33-byte values hold the same bytes.
pub fn bytes33_eq(a: &[u8; 33], b: &[u8; 33]) -> (r: bool)
    ensures
        r == (a@ == b@),
{
    let mut i: usize = 0;
    while i < 33
        invariant
            i <= 33,
            forall|j: int| 0 <= j < i ==> a@[j] == b@[j],
        decreases 33 - i,
    {
        if a[i] != b[i] {
            return false;
        }
        i = i + 1;
    }
    proof {
        assert(a@ =~= b@);
    }
    true
}

/// True exactly when the two byte vectors hold the same bytes.
pub fn vec_u8_eq(a: &Vec<u8>, b: &Vec<u8>) -> (r: bool)
    ensures
        r == (a@ == b@),
{
    if a.len() != b.len() {
        return false;
    }
    let mut i: usize = 0;
    while i < a.len()
        invariant
            i <= a@.len(),
            a@.len() == b@.len(),
            forall|j: int| 0 <= j < i ==> a@[j] == b@[j],
        decreases a@.len() - i,
    {
        if a[i] != b[i] {
            return false;
        }
        i = i + 1;
    }
    proof {
        assert(a@ =~= b@);
    }
    true
}

/// The all-zero 32-byte sequence used both as the merkle padding leaf and as
/// the seed of the rebroadcast hash chain.
pub open spec fn zero32_seq() -> Seq<u8> {
    Seq::new(32, |i: int| 0u8)
}

/// A fresh all-zero 32-byte value.
pub fn zero32() -> (r: [u8; 32])
    ensures
        r@ == zero32_seq(),
{
    let a = [0u8; 32];
    assert(a@ =~= zero32_seq());
    a
}

} // verus!
