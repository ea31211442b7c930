//! Fixed-width integers at byte offsets: read from slices, written into
//! slices, appended to vectors. Multi-byte integers travel in the host's byte
//! order, which on the little-endian hosts this library serves is
//! little-endian.
use vstd::bytes::*;
use vstd::prelude::*;
use vstd::slice::*;

verus! {

broadcast use vstd::slice::group_slice_axioms;

/// `s` with the bytes from `off` on replaced by `t`.
pub open spec fn splice(s: Seq<u8>, off: int, t: Seq<u8>) -> Seq<u8> {
    s.subrange(0, off) + t + s.subrange(off + t.len(), s.len() as int)
}

pub open spec fn u16_at(s: Seq<u8>, off: int) -> u16 {
    spec_u16_from_le_bytes(s.subrange(off, off + 2))
}

pub open spec fn u32_at(s: Seq<u8>, off: int) -> u32 {
    spec_u32_from_le_bytes(s.subrange(off, off + 4))
}

pub open spec fn u64_at(s: Seq<u8>, off: int) -> u64 {
    spec_u64_from_le_bytes(s.subrange(off, off + 8))
}

pub open spec fn u16_bytes(v: u16) -> Seq<u8> {
    spec_u16_to_le_bytes(v)
}

pub open spec fn u32_bytes(v: u32) -> Seq<u8> {
    spec_u32_to_le_bytes(v)
}

pub open spec fn u64_bytes(v: u64) -> Seq<u8> {
    spec_u64_to_le_bytes(v)
}

pub open spec fn i32_bytes(v: i32) -> Seq<u8> {
    spec_u32_to_le_bytes(#[verifier::truncate] (v as u32))
}

pub open spec fn i32_at(s: Seq<u8>, off: int) -> i32 {
    #[verifier::truncate] (u32_at(s, off) as i32)
}

/// Decoding the encoding of an integer gives it back, and the encodings
/// have their fixed widths.
pub proof fn lemma_int_bytes()
    ensures
        forall|v: u16| #[trigger] u16_bytes(v).len() == 2,
        forall|v: u16| spec_u16_from_le_bytes(#[trigger] u16_bytes(v)) == v,
        forall|v: u32| #[trigger] u32_bytes(v).len() == 4,
        forall|v: u32| spec_u32_from_le_bytes(#[trigger] u32_bytes(v)) == v,
        forall|v: u64| #[trigger] u64_bytes(v).len() == 8,
        forall|v: u64| spec_u64_from_le_bytes(#[trigger] u64_bytes(v)) == v,
        forall|v: i32| #[trigger] i32_bytes(v).len() == 4,
        forall|v: i32| #[verifier::truncate] (spec_u32_from_le_bytes(#[trigger] i32_bytes(v)) as i32) == v,
{
    lemma_auto_spec_u16_to_from_le_bytes();
    lemma_auto_spec_u32_to_from_le_bytes();
    lemma_auto_spec_u64_to_from_le_bytes();
    assert forall|v: u16| spec_u16_from_le_bytes(#[trigger] u16_bytes(v)) == v by {
        assert(spec_u16_to_le_bytes(v).len() == 2);
    }
    assert forall|v: u32| spec_u32_from_le_bytes(#[trigger] u32_bytes(v)) == v by {
        assert(spec_u32_to_le_bytes(v).len() == 4);
    }
    assert forall|v: u64| spec_u64_from_le_bytes(#[trigger] u64_bytes(v)) == v by {
        assert(spec_u64_to_le_bytes(v).len() == 8);
    }
    assert forall|v: i32| #[verifier::truncate] (spec_u32_from_le_bytes(#[trigger] i32_bytes(v)) as i32) == v by {
        let u = #[verifier::truncate] (v as u32);
        assert(spec_u32_to_le_bytes(u).len() == 4);
        assert(#[verifier::truncate] ((#[verifier::truncate] (v as u32)) as i32)
            == v) by (bit_vector);
    }
}

/// An integer read at offset zero of its own encoding is itself.
pub proof fn lemma_int_at_zero()
    ensures
        forall|v: u16| #[trigger] u16_at(u16_bytes(v), 0) == v,
        forall|v: u32| #[trigger] u32_at(u32_bytes(v), 0) == v,
        forall|v: u64| #[trigger] u64_at(u64_bytes(v), 0) == v,
        forall|v: i32| #[trigger] i32_at(i32_bytes(v), 0) == v,
{
    lemma_int_bytes();
    assert forall|v: u16| #[trigger] u16_at(u16_bytes(v), 0) == v by {
        assert(u16_bytes(v).subrange(0, 2) =~= u16_bytes(v));
    }
    assert forall|v: u32| #[trigger] u32_at(u32_bytes(v), 0) == v by {
        assert(u32_bytes(v).subrange(0, 4) =~= u32_bytes(v));
    }
    assert forall|v: u64| #[trigger] u64_at(u64_bytes(v), 0) == v by {
        assert(u64_bytes(v).subrange(0, 8) =~= u64_bytes(v));
    }
    assert forall|v: i32| #[trigger] i32_at(i32_bytes(v), 0) == v by {
        assert(i32_bytes(v).subrange(0, 4) =~= i32_bytes(v));
    }
}

/// Writing `t` over the whole of a buffer of its length leaves `t`.
pub proof fn lemma_splice_whole(b: Seq<u8>, t: Seq<u8>)
    requires
        b.len() == t.len(),
    ensures
        splice(b, 0, t) == t,
{
    assert(splice(b, 0, t) =~= t);
}

pub fn get_u16(b: &[u8], off: usize) -> (r: u16)
    requires
        off + 2 <= b@.len(),
    ensures
        r == u16_at(b@, off as int),
{
    assert(b@.len() == b.len());
    u16_from_le_bytes(slice_subrange(b, off, off + 2))
}

pub fn get_u32(b: &[u8], off: usize) -> (r: u32)
    requires
        off + 4 <= b@.len(),
    ensures
        r == u32_at(b@, off as int),
{
    assert(b@.len() == b.len());
    u32_from_le_bytes(slice_subrange(b, off, off + 4))
}

pub fn get_i32(b: &[u8], off: usize) -> (r: i32)
    requires
        off + 4 <= b@.len(),
    ensures
        r == i32_at(b@, off as int),
{
    get_u32(b, off) as i32
}

pub fn get_u64(b: &[u8], off: usize) -> (r: u64)
    requires
        off + 8 <= b@.len(),
    ensures
        r == u64_at(b@, off as int),
{
    assert(b@.len() == b.len());
    u64_from_le_bytes(slice_subrange(b, off, off + 8))
}

/// Copies `src` into `b` from offset `off` on; nothing else changes.
pub fn set_bytes(b: &mut [u8], off: usize, src: &[u8])
    requires
        off + src@.len() <= old(b)@.len(),
    ensures
        final(b)@ == splice(old(b)@, off as int, src@),
{
    let n = src.len();
    let total = b.len();
    let mut i: usize = 0;
    while i < n
        invariant
            n == src@.len(),
            total == old(b)@.len(),
            off + n <= old(b)@.len(),
            b@.len() == old(b)@.len(),
            i <= n,
            forall|j: int| 0 <= j < off || off + n <= j < b@.len() ==> b@[j] == old(b)@[j],
            forall|j: int| 0 <= j < i ==> b@[off + j] == src@[j],
        decreases n - i,
    {
        b[off + i] = src[i];
        i = i + 1;
    }
    assert(b@ =~= splice(old(b)@, off as int, src@));
}

pub fn set_u8(b: &mut [u8], off: usize, v: u8)
    requires
        off < old(b)@.len(),
    ensures
        final(b)@ == old(b)@.update(off as int, v),
{
    b[off] = v;
}

pub fn set_u16(b: &mut [u8], off: usize, v: u16)
    requires
        off + 2 <= old(b)@.len(),
    ensures
        final(b)@ == splice(old(b)@, off as int, u16_bytes(v)),
{
    let bytes = u16_to_le_bytes(v);
    set_bytes(b, off, bytes.as_slice());
}

pub fn set_u32(b: &mut [u8], off: usize, v: u32)
    requires
        off + 4 <= old(b)@.len(),
    ensures
        final(b)@ == splice(old(b)@, off as int, u32_bytes(v)),
{
    let bytes = u32_to_le_bytes(v);
    set_bytes(b, off, bytes.as_slice());
}

/// Appends `src` to `out`.
pub fn push_bytes(out: &mut Vec<u8>, src: &[u8])
    ensures
        final(out)@ == old(out)@ + src@,
{
    let n = src.len();
    let mut i: usize = 0;
    while i < n
        invariant
            n == src@.len(),
            i <= n,
            out@ == old(out)@ + src@.subrange(0, i as int),
        decreases n - i,
    {
        out.push(src[i]);
        i = i + 1;
        assert(src@.subrange(0, i as int) =~= src@.subrange(0, i - 1) + seq![src@[i - 1]]);
    }
    assert(src@.subrange(0, n as int) =~= src@);
}

pub fn push_u16(out: &mut Vec<u8>, v: u16)
    ensures
        final(out)@ == old(out)@ + u16_bytes(v),
{
    let bytes = u16_to_le_bytes(v);
    push_bytes(out, bytes.as_slice());
}

pub fn push_u32(out: &mut Vec<u8>, v: u32)
    ensures
        final(out)@ == old(out)@ + u32_bytes(v),
{
    let bytes = u32_to_le_bytes(v);
    push_bytes(out, bytes.as_slice());
}

pub fn push_i32(out: &mut Vec<u8>, v: i32)
    ensures
        final(out)@ == old(out)@ + i32_bytes(v),
{
    push_u32(out, v as u32);
}

pub fn push_u64(out: &mut Vec<u8>, v: u64)
    ensures
        final(out)@ == old(out)@ + u64_bytes(v),
{
    let bytes = u64_to_le_bytes(v);
    push_bytes(out, bytes.as_slice());
}

/// Appends `n` zero bytes.
pub fn push_zeros(out: &mut Vec<u8>, n: usize)
    ensures
        final(out)@ == old(out)@ + Seq::new(n as nat, |i: int| 0u8),
{
    let mut i: usize = 0;
    while i < n
        invariant
            i <= n,
            out@ == old(out)@ + Seq::new(i as nat, |k: int| 0u8),
        decreases n - i,
    {
        out.push(0u8);
        i = i + 1;
        assert(Seq::new(i as nat, |k: int| 0u8) =~= Seq::new((i - 1) as nat, |k: int| 0u8).push(
            0u8,
        ));
    }
}

} // verus!
