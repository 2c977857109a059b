//! Small operations on byte strings that the codecs share.

use vstd::prelude::*;

verus! {

/// The 32-bit number whose little-endian bytes are `b0` to `b3`.
pub open spec fn le_u32(b0: u8, b1: u8, b2: u8, b3: u8) -> u32 {
    (b0 as int + b1 as int * 0x100 + b2 as int * 0x1_0000 + b3 as int * 0x100_0000) as u32
}

/// The 16-bit number whose little-endian bytes are `b0` and `b1`.
pub open spec fn le_u16(b0: u8, b1: u8) -> u16 {
    (b0 as int + b1 as int * 0x100) as u16
}

/// The 32-bit number stored little-endian at `at` in `data`.
pub open spec fn le_u32_at(data: Seq<u8>, at: int) -> u32 {
    le_u32(data[at], data[at + 1], data[at + 2], data[at + 3])
}

/// The four little-endian bytes of a 32-bit number.
pub open spec fn u32_le_bytes(v: u32) -> Seq<u8> {
    seq![
        (v as int % 0x100) as u8,
        (v as int / 0x100 % 0x100) as u8,
        (v as int / 0x1_0000 % 0x100) as u8,
        (v as int / 0x100_0000) as u8,
    ]
}

/// The two little-endian bytes of a 16-bit number.
pub open spec fn u16_le_bytes(v: u16) -> Seq<u8> {
    seq![(v as int % 0x100) as u8, (v as int / 0x100) as u8]
}

/// Reads a 32-bit little-endian number at `at`.
pub fn read_le_u32(data: &[u8], at: usize) -> (v: u32)
    requires
        at + 4 <= data.len(),
    ensures
        v == le_u32_at(data@, at as int),
{
    data[at] as u32 + data[at + 1] as u32 * 0x100 + data[at + 2] as u32 * 0x1_0000 + data[at
        + 3] as u32 * 0x100_0000
}

/// Reads a 16-bit little-endian number at `at`.
pub fn read_le_u16(data: &[u8], at: usize) -> (v: u16)
    requires
        at + 2 <= data.len(),
    ensures
        v == le_u16(data@[at as int], data@[at + 1]),
{
    data[at] as u16 + data[at + 1] as u16 * 0x100
}

/// Appends the four little-endian bytes of `v`.
pub fn push_le_u32(out: &mut Vec<u8>, v: u32)
    ensures
        final(out)@ == old(out)@ + u32_le_bytes(v),
{
    out.push((v % 0x100) as u8);
    out.push((v / 0x100 % 0x100) as u8);
    out.push((v / 0x1_0000 % 0x100) as u8);
    out.push((v / 0x100_0000) as u8);
}

/// Copies `data[from..to]` into a new vector.
pub fn copy_range(data: &[u8], from: usize, to: usize) -> (out: Vec<u8>)
    requires
        from <= to <= data.len(),
    ensures
        out@ == data@.subrange(from as int, to as int),
{
    let mut out: Vec<u8> = Vec::new();
    let mut i: usize = from;
    while i < to
        invariant
            from <= i <= to <= data.len(),
            out@ == data@.subrange(from as int, i as int),
        decreases to - i,
    {
        out.push(data[i]);
        i = i + 1;
    }
    out
}

/// Appends all of `data`.
pub fn push_all(out: &mut Vec<u8>, data: &[u8])
    ensures
        final(out)@ == old(out)@ + data@,
{
    let mut i: usize = 0;
    while i < data.len()
        invariant
            i <= data.len(),
            out@ == old(out)@ + data@.take(i as int),
        decreases data.len() - i,
    {
        out.push(data[i]);
        i = i + 1;
    }
    proof {
        assert(data@.take(data.len() as int) == data@);
    }
}

/// Copies the 32 bytes at `at` into an array.
pub fn read_block32(data: &[u8], at: usize) -> (block: [u8; 32])
    requires
        at + 32 <= data.len(),
    ensures
        block@ == data@.subrange(at as int, at + 32),
{
    let mut block: [u8; 32] = [0u8; 32];
    let mut i: usize = 0;
    while i < 32
        invariant
            i <= 32,
            at + 32 <= data.len(),
            forall|j: int| 0 <= j < i ==> block@[j] == data@[at + j],
        decreases 32 - i,
    {
        block[i] = data[at + i];
        i = i + 1;
    }
    block
}

/// Little-endian bytes read back give the number they were written from.
pub proof fn lemma_le_u32_round_trip(v: u32)
    ensures
        le_u32_at(u32_le_bytes(v), 0) == v,
        u32_le_bytes(v).len() == 4,
{
}

/// A number read from four bytes writes back as the same four bytes.
pub proof fn lemma_u32_le_bytes_of_read(b0: u8, b1: u8, b2: u8, b3: u8)
    ensures
        u32_le_bytes(le_u32(b0, b1, b2, b3)) == seq![b0, b1, b2, b3],
{
    let v = le_u32(b0, b1, b2, b3) as int;
    let q1 = b1 as int + b2 as int * 0x100 + b3 as int * 0x1_0000;
    let q2 = b2 as int + b3 as int * 0x100;
    assert(v == 0x100 * q1 + b0 as int);
    vstd::arithmetic::div_mod::lemma_fundamental_div_mod_converse(v, 0x100, q1, b0 as int);
    assert(q1 == 0x100 * q2 + b1 as int);
    vstd::arithmetic::div_mod::lemma_fundamental_div_mod_converse(q1, 0x100, q2, b1 as int);
    assert(q2 == 0x100 * (b3 as int) + b2 as int);
    vstd::arithmetic::div_mod::lemma_fundamental_div_mod_converse(q2, 0x100, b3 as int, b2 as int);
    assert(v / 0x1_0000 == v / 0x100 / 0x100);
    assert(v / 0x100_0000 == v / 0x100 / 0x100 / 0x100);
    assert(u32_le_bytes(le_u32(b0, b1, b2, b3)) =~= seq![b0, b1, b2, b3]);
}

} // verus!
