//! Big-endian integers and 32-byte words, as the verifier contract reads
//! them.
use vstd::prelude::*;

verus! {

/// The eight big-endian bytes of `v`.
#[verifier::opaque]
pub open spec fn u64_be(v: u64) -> Seq<u8> {
    seq![
        (v >> 56u64) as u8,
        (v >> 48u64) as u8,
        (v >> 40u64) as u8,
        (v >> 32u64) as u8,
        (v >> 24u64) as u8,
        (v >> 16u64) as u8,
        (v >> 8u64) as u8,
        v as u8,
    ]
}

/// The integer that eight big-endian bytes denote.
#[verifier::opaque]
pub open spec fn u64_from_be(s: Seq<u8>) -> u64 {
    (s[0] as u64) << 56u64 | (s[1] as u64) << 48u64 | (s[2] as u64) << 40u64 | (s[3] as u64)
        << 32u64 | (s[4] as u64) << 24u64 | (s[5] as u64) << 16u64 | (s[6] as u64) << 8u64
        | (s[7] as u64)
}

/// The 32-byte word of `v`: 24 zero bytes, then its eight big-endian bytes.
pub open spec fn u64_word(v: u64) -> Seq<u8> {
    Seq::new(24, |i: int| 0u8) + u64_be(v)
}

/// A word is 32 bytes, the last eight of them the value's.
pub proof fn lemma_u64_word(v: u64)
    ensures
        u64_be(v).len() == 8,
        u64_word(v).len() == 32,
        u64_word(v).subrange(24, 32) == u64_be(v),
{
    reveal(u64_be);
    assert(u64_word(v).subrange(24, 32) =~= u64_be(v));
}

/// Reading back the eight bytes of a value gives the value.
pub proof fn lemma_u64_be_round_trip(v: u64)
    ensures
        u64_from_be(u64_be(v)) == v,
{
    reveal(u64_be);
    reveal(u64_from_be);
    assert((((v >> 56u64) as u8) as u64) << 56u64 | (((v >> 48u64) as u8) as u64) << 48u64 | (((v
        >> 40u64) as u8) as u64) << 40u64 | (((v >> 32u64) as u8) as u64) << 32u64 | (((v
        >> 24u64) as u8) as u64) << 24u64 | (((v >> 16u64) as u8) as u64) << 16u64 | (((v
        >> 8u64) as u8) as u64) << 8u64 | ((v as u8) as u64) == v) by (bit_vector);
}

/// The integer in the eight big-endian bytes of `b` from `at` on.
pub fn read_u64_be(b: &Vec<u8>, at: usize) -> (r: u64)
    requires
        at + 8 <= b@.len(),
    ensures
        r == u64_from_be(b@.subrange(at as int, at + 8)),
{
    proof {
        reveal(u64_from_be);
    }
    let n = b.len();
    assert(at + 8 <= n);
    let ghost s = b@.subrange(at as int, at + 8);
    assert(s[0] == b@[at as int] && s[7] == b@[at + 7]);
    assert(s[1] == b@[at + 1] && s[2] == b@[at + 2] && s[3] == b@[at + 3]);
    assert(s[4] == b@[at + 4] && s[5] == b@[at + 5] && s[6] == b@[at + 6]);
    (b[at] as u64) << 56u64 | (b[at + 1] as u64) << 48u64 | (b[at + 2] as u64) << 40u64 | (b[at + 3] as u64)
        << 32u64 | (b[at + 4] as u64) << 24u64 | (b[at + 5] as u64) << 16u64 | (b[at + 6] as u64) << 8u64
        | (b[at + 7] as u64)
}

/// Appends `src` to `out`.
pub fn append_bytes(out: &mut Vec<u8>, src: &Vec<u8>)
    ensures
        final(out)@ == old(out)@ + src@,
{
    let ghost start = out@;
    let mut i: usize = 0;
    while i < src.len()
        invariant
            0 <= i <= src@.len(),
            out@ == start + src@.subrange(0, i as int),
        decreases src@.len() - i,
    {
        out.push(src[i]);
        i = i + 1;
        assert(out@ =~= start + src@.subrange(0, i as int));
    }
    assert(src@.subrange(0, src@.len() as int) =~= src@);
}

/// Appends the 32-byte word of `v` to `out`.
pub fn append_u64_word(out: &mut Vec<u8>, v: u64)
    ensures
        final(out)@ == old(out)@ + u64_word(v),
{
    let ghost start = out@;
    let mut i: usize = 0;
    while i < 24
        invariant
            0 <= i <= 24,
            out@ == start + Seq::new(i as nat, |j: int| 0u8),
        decreases 24 - i,
    {
        out.push(0u8);
        i = i + 1;
        assert(out@ =~= start + Seq::new(i as nat, |j: int| 0u8));
    }
    proof {
        reveal(u64_be);
    }
    out.push((v >> 56u64) as u8);
    out.push((v >> 48u64) as u8);
    out.push((v >> 40u64) as u8);
    out.push((v >> 32u64) as u8);
    out.push((v >> 24u64) as u8);
    out.push((v >> 16u64) as u8);
    out.push((v >> 8u64) as u8);
    out.push(v as u8);
    assert(out@ =~= start + u64_word(v));
}

} // verus!
