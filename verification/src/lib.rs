//! CRC-32 checksum (the reflected zlib/gzip/PNG variant: polynomial
//! `0xEDB88320`, initial state all-ones, final state complemented) over a
//! byte sequence, with a proof that the executable code computes exactly
//! the mathematical fold that defines the checksum.

use vstd::prelude::*;

verus! {

/// The reflected CRC-32 polynomial.
pub const POLY: u32 = 0xedb88320;

/// One round of polynomial division in the bit-reflected domain: shift the
/// word right one bit and, if a one bit fell off, fold the polynomial in.
pub open spec fn table_step(x: u32) -> u32 {
    if x & 1 == 1 {
        POLY ^ (x >> 1)
    } else {
        x >> 1
    }
}

/// `n` rounds of `table_step` applied to `x`.
pub open spec fn table_rounds(x: u32, n: nat) -> u32
    decreases n,
{
    if n == 0 {
        x
    } else {
        table_step(table_rounds(x, (n - 1) as nat))
    }
}

/// A CRC-32 lookup-table entry: eight rounds of polynomial division
/// applied to the index.
pub open spec fn table_fn_spec(i: u32) -> u32 {
    table_rounds(i, 8)
}

/// Computes the lookup-table entry for index `i`: eight rounds of the
/// bit-reflected polynomial division, written out step by step.
pub fn table_fn(i: u32) -> (r: u32)
    ensures
        r == table_fn_spec(i),
{
    let mut out = i;
    assert(out == table_rounds(i, 0));
    out = if out & 1 == 1 { POLY ^ (out >> 1) } else { out >> 1 };
    assert(out == table_rounds(i, 1));
    out = if out & 1 == 1 { POLY ^ (out >> 1) } else { out >> 1 };
    assert(out == table_rounds(i, 2));
    out = if out & 1 == 1 { POLY ^ (out >> 1) } else { out >> 1 };
    assert(out == table_rounds(i, 3));
    out = if out & 1 == 1 { POLY ^ (out >> 1) } else { out >> 1 };
    assert(out == table_rounds(i, 4));
    out = if out & 1 == 1 { POLY ^ (out >> 1) } else { out >> 1 };
    assert(out == table_rounds(i, 5));
    out = if out & 1 == 1 { POLY ^ (out >> 1) } else { out >> 1 };
    assert(out == table_rounds(i, 6));
    out = if out & 1 == 1 { POLY ^ (out >> 1) } else { out >> 1 };
    assert(out == table_rounds(i, 7));
    out = if out & 1 == 1 { POLY ^ (out >> 1) } else { out >> 1 };
    assert(out == table_rounds(i, 8));
    out
}

/// Builds the 256-entry lookup table: entry `k` is the table entry for
/// index `k`. Purely a function of the fixed polynomial constant.
pub fn get_table() -> (t: Vec<u32>)
    ensures
        t@.len() == 256,
        forall|k: int| 0 <= k < 256 ==> t@[k] == table_fn_spec(k as u32),
{
    let mut table: Vec<u32> = Vec::new();
    let mut i: usize = 0;
    while i < 256
        invariant
            i <= 256,
            table@.len() == i,
            forall|k: int| 0 <= k < i ==> table@[k] == table_fn_spec(k as u32),
        decreases 256 - i,
    {
        let entry = table_fn(i as u32);
        table.push(entry);
        i = i + 1;
    }
    table
}

/// Folding one byte into the accumulator state: shift the state right a
/// byte and fold in the table entry selected by the low state byte
/// combined with the input byte.
pub open spec fn crc_update(state: u32, b: u8) -> u32 {
    (state >> 8) ^ table_fn_spec((state & 0xff) ^ (b as u32))
}

/// The accumulator state after folding every byte of `s`, in order, into
/// the all-ones initial state.
pub open spec fn crc_accum(s: Seq<u8>) -> u32
    decreases s.len(),
{
    if s.len() == 0 {
        0xffffffffu32
    } else {
        crc_update(crc_accum(s.drop_last()), s.last())
    }
}

/// The CRC-32 checksum of `s`: the complement of the final accumulator
/// state.
pub open spec fn crc32_spec(s: Seq<u8>) -> u32 {
    !crc_accum(s)
}

/// Computes the CRC-32 checksum of `buf`.
pub fn crc32(buf: &[u8]) -> (r: u32)
    ensures
        r == crc32_spec(buf@),
{
    let table = get_table();
    let mut out: u32 = !0u32;
    let mut i: usize = 0;
    assert(buf@.take(0) =~= Seq::<u8>::empty());
    assert(!0u32 == 0xffffffffu32) by (bit_vector);
    while i < buf.len()
        invariant
            i <= buf@.len(),
            table@.len() == 256,
            forall|k: int| 0 <= k < 256 ==> table@[k] == table_fn_spec(k as u32),
            out == crc_accum(buf@.take(i as int)),
        decreases buf@.len() - i,
    {
        let b = buf[i];
        assert(((out & 0xff) ^ (b as u32)) < 256) by (bit_vector);
        let idx = ((out & 0xff) ^ (b as u32)) as usize;
        let next = (out >> 8) ^ table[idx];
        proof {
            let taken = buf@.take(i + 1);
            assert(taken.drop_last() =~= buf@.take(i as int));
            assert(next == crc_accum(taken));
        }
        out = next;
        i = i + 1;
    }
    assert(buf@.take(buf@.len() as int) =~= buf@);
    !out
}

/// The checksum of the empty byte sequence is zero: no byte is folded in,
/// so the result is the complement of the all-ones initial state.
pub proof fn lemma_crc32_empty()
    ensures
        crc32_spec(Seq::<u8>::empty()) == 0u32,
{
    assert(crc_accum(Seq::<u8>::empty()) == 0xffffffffu32);
    assert(!0xffffffffu32 == 0u32) by (bit_vector);
}

/// The checksum is deterministic: it is a pure function of the byte
/// sequence alone, so equal inputs always yield equal checksums.
pub proof fn lemma_crc32_deterministic(a: Seq<u8>, b: Seq<u8>)
    requires
        a == b,
    ensures
        crc32_spec(a) == crc32_spec(b),
{
}

} // verus!
