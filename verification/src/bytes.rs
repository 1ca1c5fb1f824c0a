//! Big-endian byte-level primitives shared by every codec of the crate.
//!
//! A 32-bit word is written as four bytes, most significant first; a
//! 64-bit word (used for collection counts) as eight. The spec parsers
//! work on the sequence of bytes that remains from the current offset
//! and report how many bytes they consumed.

use vstd::prelude::*;

verus! {

/// The 32-bit word spelled by four bytes, most significant first.
pub open spec fn word32(b0: u8, b1: u8, b2: u8, b3: u8) -> u32 {
    ((b0 as u32) << 24) | ((b1 as u32) << 16) | ((b2 as u32) << 8) | (b3 as u32)
}

/// The four big-endian bytes of a 32-bit word.
pub open spec fn be32(x: u32) -> Seq<u8> {
    seq![(x >> 24) as u8, (x >> 16) as u8, (x >> 8) as u8, x as u8]
}

/// The 64-bit word spelled by eight bytes, most significant first.
pub open spec fn word64(b0: u8, b1: u8, b2: u8, b3: u8, b4: u8, b5: u8, b6: u8, b7: u8) -> u64 {
    ((b0 as u64) << 56) | ((b1 as u64) << 48) | ((b2 as u64) << 40) | ((b3 as u64) << 32)
        | ((b4 as u64) << 24) | ((b5 as u64) << 16) | ((b6 as u64) << 8) | (b7 as u64)
}

/// The eight big-endian bytes of a 64-bit word.
pub open spec fn be64(x: u64) -> Seq<u8> {
    seq![
        (x >> 56) as u8,
        (x >> 48) as u8,
        (x >> 40) as u8,
        (x >> 32) as u8,
        (x >> 24) as u8,
        (x >> 16) as u8,
        (x >> 8) as u8,
        x as u8,
    ]
}

/// A boolean is one byte: zero for false, anything else for true;
/// the writer always uses one for true.
pub open spec fn be_bool(b: bool) -> Seq<u8> {
    seq![if b { 1u8 } else { 0u8 }]
}

/// The 32-bit word spelled by the four bytes of `d` starting at `i`.
pub open spec fn word32_at(d: Seq<u8>, i: int) -> u32 {
    word32(d[i], d[i + 1], d[i + 2], d[i + 3])
}

/// The 64-bit word spelled by the eight bytes of `d` starting at `i`.
pub open spec fn word64_at(d: Seq<u8>, i: int) -> u64 {
    word64(d[i], d[i + 1], d[i + 2], d[i + 3], d[i + 4], d[i + 5], d[i + 6], d[i + 7])
}

/// Where `d` holds the four big-endian bytes of `x` at `i`, the word
/// read there is `x`.
pub proof fn lemma_word32_at_be32(d: Seq<u8>, i: int, x: u32)
    requires
        0 <= i,
        i + 4 <= d.len(),
        d.subrange(i, i + 4) == be32(x),
    ensures
        word32_at(d, i) == x,
{
    assert(d[i] == be32(x)[0]);
    assert(d[i + 1] == be32(x)[1]);
    assert(d[i + 2] == be32(x)[2]);
    assert(d[i + 3] == be32(x)[3]);
    lemma_word32_be32(x);
}

/// Where `d` holds the eight big-endian bytes of `x` at `i`, the word
/// read there is `x`.
pub proof fn lemma_word64_at_be64(d: Seq<u8>, i: int, x: u64)
    requires
        0 <= i,
        i + 8 <= d.len(),
        d.subrange(i, i + 8) == be64(x),
    ensures
        word64_at(d, i) == x,
{
    assert(d[i] == be64(x)[0]);
    assert(d[i + 1] == be64(x)[1]);
    assert(d[i + 2] == be64(x)[2]);
    assert(d[i + 3] == be64(x)[3]);
    assert(d[i + 4] == be64(x)[4]);
    assert(d[i + 5] == be64(x)[5]);
    assert(d[i + 6] == be64(x)[6]);
    assert(d[i + 7] == be64(x)[7]);
    lemma_word64_be64(x);
}

/// Reading back the four bytes of a word yields the word.
pub proof fn lemma_word32_be32(x: u32)
    ensures
        word32(be32(x)[0], be32(x)[1], be32(x)[2], be32(x)[3]) == x,
{
    assert((((x >> 24) as u8 as u32) << 24) | (((x >> 16) as u8 as u32) << 16)
        | (((x >> 8) as u8 as u32) << 8) | (x as u8 as u32) == x) by (bit_vector);
}

/// Reading back the eight bytes of a word yields the word.
pub proof fn lemma_word64_be64(x: u64)
    ensures
        word64(
            be64(x)[0],
            be64(x)[1],
            be64(x)[2],
            be64(x)[3],
            be64(x)[4],
            be64(x)[5],
            be64(x)[6],
            be64(x)[7],
        ) == x,
{
    assert((((x >> 56) as u8 as u64) << 56) | (((x >> 48) as u8 as u64) << 48)
        | (((x >> 40) as u8 as u64) << 40) | (((x >> 32) as u8 as u64) << 32)
        | (((x >> 24) as u8 as u64) << 24) | (((x >> 16) as u8 as u64) << 16)
        | (((x >> 8) as u8 as u64) << 8) | (x as u8 as u64) == x) by (bit_vector);
}

/// Reads the 32-bit word at `offset`, or `None` when fewer than four
/// bytes remain there.
pub fn read_u32(data: &[u8], offset: usize) -> (r: Option<u32>)
    ensures
        r is Some <==> offset + 4 <= data@.len(),
        r is Some ==> r->0 == word32(
            data@[offset as int],
            data@[offset + 1],
            data@[offset + 2],
            data@[offset + 3],
        ),
{
    if data.len() < 4 || offset > data.len() - 4 {
        None
    } else {
        Some(
            ((data[offset] as u32) << 24) | ((data[offset + 1] as u32) << 16)
                | ((data[offset + 2] as u32) << 8) | (data[offset + 3] as u32),
        )
    }
}

/// Reads the 64-bit word at `offset`, or `None` when fewer than eight
/// bytes remain there.
pub fn read_u64(data: &[u8], offset: usize) -> (r: Option<u64>)
    ensures
        r is Some <==> offset + 8 <= data@.len(),
        r is Some ==> r->0 == word64(
            data@[offset as int],
            data@[offset + 1],
            data@[offset + 2],
            data@[offset + 3],
            data@[offset + 4],
            data@[offset + 5],
            data@[offset + 6],
            data@[offset + 7],
        ),
{
    if data.len() < 8 || offset > data.len() - 8 {
        None
    } else {
        Some(
            ((data[offset] as u64) << 56) | ((data[offset + 1] as u64) << 48)
                | ((data[offset + 2] as u64) << 40) | ((data[offset + 3] as u64) << 32)
                | ((data[offset + 4] as u64) << 24) | ((data[offset + 5] as u64) << 16)
                | ((data[offset + 6] as u64) << 8) | (data[offset + 7] as u64),
        )
    }
}

/// Appends the four big-endian bytes of `x`.
pub fn write_u32(bytes: &mut Vec<u8>, x: u32)
    ensures
        final(bytes)@ == old(bytes)@ + be32(x),
{
    bytes.push((x >> 24) as u8);
    bytes.push((x >> 16) as u8);
    bytes.push((x >> 8) as u8);
    bytes.push(x as u8);
    proof {
        assert(bytes@ =~= old(bytes)@ + be32(x));
    }
}

/// Appends the eight big-endian bytes of `x`.
pub fn write_u64(bytes: &mut Vec<u8>, x: u64)
    ensures
        final(bytes)@ == old(bytes)@ + be64(x),
{
    bytes.push((x >> 56) as u8);
    bytes.push((x >> 48) as u8);
    bytes.push((x >> 40) as u8);
    bytes.push((x >> 32) as u8);
    bytes.push((x >> 24) as u8);
    bytes.push((x >> 16) as u8);
    bytes.push((x >> 8) as u8);
    bytes.push(x as u8);
    proof {
        assert(bytes@ =~= old(bytes)@ + be64(x));
    }
}

} // verus!
