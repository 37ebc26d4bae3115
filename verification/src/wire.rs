//! Little-endian byte access: the shared vocabulary of the tensor decoder
//! (which reinterprets raw tensor memory) and the batch codec (which frames
//! batches for transport).

use vstd::prelude::*;

verus! {

/// The 32-bit word stored little-endian at `off`.
pub open spec fn le32_at(s: Seq<u8>, off: int) -> u32
    recommends
        0 <= off,
        off + 4 <= s.len(),
{
    (s[off] + s[off + 1] * 0x100 + s[off + 2] * 0x1_0000 + s[off + 3] * 0x100_0000) as u32
}

/// The 64-bit word stored little-endian at `off`.
pub open spec fn le64_at(s: Seq<u8>, off: int) -> u64
    recommends
        0 <= off,
        off + 8 <= s.len(),
{
    ((le32_at(s, off) as int) + (le32_at(s, off + 4) as int) * 0x1_0000_0000) as u64
}

/// The four little-endian bytes of a 32-bit word.
pub open spec fn enc_u32(v: u32) -> Seq<u8> {
    seq![
        (v % 0x100) as u8,
        ((v / 0x100) % 0x100) as u8,
        ((v / 0x1_0000) % 0x100) as u8,
        ((v / 0x100_0000) % 0x100) as u8,
    ]
}

/// The eight little-endian bytes of a 64-bit word.
pub open spec fn enc_u64(v: u64) -> Seq<u8> {
    enc_u32((v % 0x1_0000_0000) as u32) + enc_u32((v / 0x1_0000_0000) as u32)
}

/// Reading back the four encoded bytes of a word yields the word.
pub proof fn lemma_le32_enc(v: u32)
    ensures
        le32_at(enc_u32(v), 0) == v,
{
    assert(v % 0x100 + ((v / 0x100) % 0x100) * 0x100 + ((v / 0x1_0000) % 0x100) * 0x1_0000 + ((v
        / 0x100_0000) % 0x100) * 0x100_0000 == v) by (bit_vector);
}

/// Reading back the eight encoded bytes of a word yields the word.
pub proof fn lemma_le64_enc(v: u64)
    ensures
        le64_at(enc_u64(v), 0) == v,
{
    let lo = (v % 0x1_0000_0000) as u32;
    let hi = (v / 0x1_0000_0000) as u32;
    lemma_le32_enc(lo);
    lemma_le32_enc(hi);
    let s = enc_u64(v);
    assert(le32_at(s, 0) == le32_at(enc_u32(lo), 0));
    assert(le32_at(s, 4) == le32_at(enc_u32(hi), 0));
    assert(v % 0x1_0000_0000 + (v / 0x1_0000_0000) * 0x1_0000_0000 == v) by (bit_vector);
}

/// `le32_at` reads only the four bytes at `off`.
pub proof fn lemma_le32_at_eq(s1: Seq<u8>, off1: int, s2: Seq<u8>, off2: int)
    requires
        0 <= off1,
        off1 + 4 <= s1.len(),
        0 <= off2,
        off2 + 4 <= s2.len(),
        forall|j: int| 0 <= j < 4 ==> #[trigger] s1[off1 + j] == s2[off2 + j],
    ensures
        le32_at(s1, off1) == le32_at(s2, off2),
{
    assert(s1[off1 + 0] == s2[off2 + 0]);
    assert(s1[off1 + 1] == s2[off2 + 1]);
    assert(s1[off1 + 2] == s2[off2 + 2]);
    assert(s1[off1 + 3] == s2[off2 + 3]);
}

/// `le64_at` reads only the eight bytes at `off`.
pub proof fn lemma_le64_at_eq(s1: Seq<u8>, off1: int, s2: Seq<u8>, off2: int)
    requires
        0 <= off1,
        off1 + 8 <= s1.len(),
        0 <= off2,
        off2 + 8 <= s2.len(),
        forall|j: int| 0 <= j < 8 ==> #[trigger] s1[off1 + j] == s2[off2 + j],
    ensures
        le64_at(s1, off1) == le64_at(s2, off2),
{
    assert forall|j: int| 0 <= j < 4 implies #[trigger] s1[off1 + j] == s2[off2 + j] by {}
    lemma_le32_at_eq(s1, off1, s2, off2);
    assert forall|j: int| 0 <= j < 4 implies #[trigger] s1[off1 + 4 + j] == s2[off2 + 4 + j] by {
        assert(s1[off1 + (4 + j)] == s2[off2 + (4 + j)]);
    }
    lemma_le32_at_eq(s1, off1 + 4, s2, off2 + 4);
}

/// Read the 32-bit little-endian word at `off`.
pub fn read_le32(s: &Vec<u8>, off: usize) -> (r: u32)
    requires
        off + 4 <= s@.len(),
    ensures
        r == le32_at(s@, off as int),
{
    let _len: usize = s.len();
    let b0 = s[off] as u32;
    let b1 = s[off + 1] as u32;
    let b2 = s[off + 2] as u32;
    let b3 = s[off + 3] as u32;
    b0 + b1 * 0x100 + b2 * 0x1_0000 + b3 * 0x100_0000
}

/// Read the 64-bit little-endian word at `off`.
pub fn read_le64(s: &Vec<u8>, off: usize) -> (r: u64)
    requires
        off + 8 <= s@.len(),
    ensures
        r == le64_at(s@, off as int),
{
    let _len: usize = s.len();
    let lo = read_le32(s, off) as u64;
    let hi = read_le32(s, off + 4) as u64;
    lo + hi * 0x1_0000_0000
}

/// Append the four little-endian bytes of `v`.
pub fn push_le32(out: &mut Vec<u8>, v: u32)
    ensures
        final(out)@ == old(out)@ + enc_u32(v),
{
    out.push((v % 0x100) as u8);
    out.push(((v / 0x100) % 0x100) as u8);
    out.push(((v / 0x1_0000) % 0x100) as u8);
    out.push(((v / 0x100_0000) % 0x100) as u8);
    assert(out@ =~= old(out)@ + enc_u32(v));
}

/// Append the eight little-endian bytes of `v`.
pub fn push_le64(out: &mut Vec<u8>, v: u64)
    ensures
        final(out)@ == old(out)@ + enc_u64(v),
{
    push_le32(out, (v % 0x1_0000_0000) as u32);
    push_le32(out, (v / 0x1_0000_0000) as u32);
    assert(out@ =~= old(out)@ + enc_u64(v));
}

} // verus!
