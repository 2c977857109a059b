//! Checksums of the BM13xx serial bus.
//!
//! Command and response frames carry a 5-bit CRC in the low bits of their
//! last byte; work frames carry a 16-bit CRC in their last two bytes, high
//! byte first. Both are computed most significant bit first, without
//! reflection and without a final XOR.

use vstd::prelude::*;
use vstd::slice::slice_subrange;

verus! {

/// Generator polynomial of the 5-bit checksum, x^5 + x^2 + 1, without its
/// leading term.
pub const CRC5_POLY: u8 = 0x05;

/// Initial register value of the 5-bit checksum.
pub const CRC5_INIT: u8 = 0x1f;

/// Generator polynomial of the 16-bit checksum, x^16 + x^12 + x^5 + 1,
/// without its leading term.
pub const CRC16_POLY: u16 = 0x1021;

/// Initial register value of the 16-bit checksum.
pub const CRC16_INIT: u16 = 0xffff;

/// One step of the 5-bit shift register: the register after `bit` has been
/// fed into it.
pub open spec fn crc5_bit(crc: u8, bit: bool) -> u8 {
    let shifted = (crc << 1) & 0x1f;
    if ((crc & 0x10) != 0) != bit {
        shifted ^ CRC5_POLY
    } else {
        shifted
    }
}

/// The 5-bit register after the `n` most significant bits of `byte`.
pub open spec fn crc5_bits(crc: u8, byte: u8, n: nat) -> u8
    decreases n,
{
    if n == 0 || n > 8 {
        crc
    } else {
        crc5_bit(crc5_bits(crc, byte, (n - 1) as nat), (byte >> ((8 - n) as u8)) & 1 != 0)
    }
}

/// The 5-bit register after every byte of `data`, starting from `crc`.
pub open spec fn crc5_from(crc: u8, data: Seq<u8>) -> u8
    decreases data.len(),
{
    if data.len() == 0 {
        crc
    } else {
        crc5_bits(crc5_from(crc, data.drop_last()), data.last(), 8)
    }
}

/// The 5-bit checksum of `data`.
pub open spec fn crc5_spec(data: Seq<u8>) -> u8 {
    crc5_from(CRC5_INIT, data)
}

/// A frame passes the 5-bit check when the low five bits of its last byte are
/// the checksum of everything before that byte.
pub open spec fn crc5_valid_spec(frame: Seq<u8>) -> bool {
    frame.len() >= 1 && crc5_spec(frame.drop_last()) == frame.last() & 0x1f
}

/// One step of the 16-bit shift register.
pub open spec fn crc16_bit(crc: u16, bit: bool) -> u16 {
    let shifted = crc << 1;
    if ((crc & 0x8000) != 0) != bit {
        shifted ^ CRC16_POLY
    } else {
        shifted
    }
}

/// The 16-bit register after the `n` most significant bits of `byte`.
pub open spec fn crc16_bits(crc: u16, byte: u8, n: nat) -> u16
    decreases n,
{
    if n == 0 || n > 8 {
        crc
    } else {
        crc16_bit(crc16_bits(crc, byte, (n - 1) as nat), (byte >> ((8 - n) as u8)) & 1 != 0)
    }
}

/// The 16-bit register after every byte of `data`, starting from `crc`.
pub open spec fn crc16_from(crc: u16, data: Seq<u8>) -> u16
    decreases data.len(),
{
    if data.len() == 0 {
        crc
    } else {
        crc16_bits(crc16_from(crc, data.drop_last()), data.last(), 8)
    }
}

/// The 16-bit checksum of `data`.
pub open spec fn crc16_spec(data: Seq<u8>) -> u16 {
    crc16_from(CRC16_INIT, data)
}

/// The two checksum bytes as they stand on the wire: high byte, then low byte.
pub open spec fn crc16_wire(crc: u16) -> Seq<u8> {
    seq![(crc >> 8) as u8, (crc & 0xff) as u8]
}

/// `expected` holds exactly the two wire bytes of the checksum of `data`.
pub open spec fn crc16_valid_spec(data: Seq<u8>, expected: Seq<u8>) -> bool {
    expected == crc16_wire(crc16_spec(data))
}

fn crc5_byte(crc: u8, byte: u8) -> (r: u8)
    ensures
        r == crc5_bits(crc, byte, 8),
{
    let mut reg: u8 = crc;
    let mut n: u8 = 0;
    while n < 8
        invariant
            n <= 8,
            reg == crc5_bits(crc, byte, n as nat),
        decreases 8 - n,
    {
        let bit = (byte >> (7 - n)) & 1 != 0;
        let shifted: u8 = (reg << 1) & 0x1f;
        reg = if ((reg & 0x10) != 0) != bit {
            shifted ^ CRC5_POLY
        } else {
            shifted
        };
        n = n + 1;
    }
    reg
}

/// Computes the 5-bit checksum of `data`.
pub fn crc5(data: &[u8]) -> (r: u8)
    ensures
        r == crc5_spec(data@),
{
    let mut reg: u8 = CRC5_INIT;
    let mut i: usize = 0;
    while i < data.len()
        invariant
            i <= data.len(),
            reg == crc5_from(CRC5_INIT, data@.take(i as int)),
        decreases data.len() - i,
    {
        proof {
            assert(data@.take(i + 1).drop_last() == data@.take(i as int));
        }
        reg = crc5_byte(reg, data[i]);
        i = i + 1;
    }
    proof {
        assert(data@.take(data.len() as int) == data@);
    }
    reg
}

/// Checks the 5-bit checksum that closes a command or response frame.
pub fn crc5_is_valid(data: &[u8]) -> (ok: bool)
    ensures
        ok == crc5_valid_spec(data@),
{
    let n = data.len();
    if n == 0 {
        return false;
    }
    let body = slice_subrange(data, 0, n - 1);
    proof {
        assert(body@ == data@.drop_last());
    }
    crc5(body) == data[n - 1] & 0x1f
}

fn crc16_byte(crc: u16, byte: u8) -> (r: u16)
    ensures
        r == crc16_bits(crc, byte, 8),
{
    let mut reg: u16 = crc;
    let mut n: u8 = 0;
    while n < 8
        invariant
            n <= 8,
            reg == crc16_bits(crc, byte, n as nat),
        decreases 8 - n,
    {
        let bit = (byte >> (7 - n)) & 1 != 0;
        let shifted: u16 = reg << 1;
        reg = if ((reg & 0x8000) != 0) != bit {
            shifted ^ CRC16_POLY
        } else {
            shifted
        };
        n = n + 1;
    }
    reg
}

/// Computes the 16-bit checksum of `data`.
pub fn crc16(data: &[u8]) -> (r: u16)
    ensures
        r == crc16_spec(data@),
{
    let mut reg: u16 = CRC16_INIT;
    let mut i: usize = 0;
    while i < data.len()
        invariant
            i <= data.len(),
            reg == crc16_from(CRC16_INIT, data@.take(i as int)),
        decreases data.len() - i,
    {
        proof {
            assert(data@.take(i + 1).drop_last() == data@.take(i as int));
        }
        reg = crc16_byte(reg, data[i]);
        i = i + 1;
    }
    proof {
        assert(data@.take(data.len() as int) == data@);
    }
    reg
}

/// Checks the 16-bit checksum of a work frame: `expected_crc` is the pair of
/// bytes found on the wire behind `data`.
pub fn crc16_is_valid(data: &[u8], expected_crc: &[u8]) -> (ok: bool)
    ensures
        ok == crc16_valid_spec(data@, expected_crc@),
{
    if expected_crc.len() != 2 {
        return false;
    }
    let crc = crc16(data);
    let hi: u8 = (crc >> 8) as u8;
    let lo: u8 = (crc & 0xff) as u8;
    let ok = expected_crc[0] == hi && expected_crc[1] == lo;
    proof {
        let wire = crc16_wire(crc);
        assert(wire.len() == 2 && wire[0] == hi && wire[1] == lo);
        if ok {
            assert(expected_crc@ =~= wire);
        }
    }
    ok
}

/// A frame body followed by the low five bits of its own checksum always
/// passes the check, whatever the upper three bits of the last byte hold.
pub proof fn lemma_crc5_appended_is_valid(body: Seq<u8>, last: u8)
    requires
        last & 0x1f == crc5_spec(body),
    ensures
        crc5_valid_spec(body.push(last)),
{
    assert(body.push(last).drop_last() == body);
}

/// The check accepts exactly one value of the low five bits of the last byte:
/// two frames that differ only there cannot both pass.
pub proof fn lemma_crc5_valid_is_unique(body: Seq<u8>, a: u8, b: u8)
    requires
        crc5_valid_spec(body.push(a)),
        crc5_valid_spec(body.push(b)),
    ensures
        a & 0x1f == b & 0x1f,
{
    assert(body.push(a).drop_last() == body);
    assert(body.push(b).drop_last() == body);
}

/// The checksum of any data, written as its two wire bytes, passes the
/// 16-bit check, and no other pair of bytes does.
pub proof fn lemma_crc16_wire_is_valid(data: Seq<u8>, expected: Seq<u8>)
    ensures
        crc16_valid_spec(data, crc16_wire(crc16_spec(data))),
        crc16_valid_spec(data, expected) ==> expected == crc16_wire(crc16_spec(data)),
{
}

/// A step of the 5-bit register stays within five bits.
proof fn lemma_crc5_bit_is_five_bits(crc: u8, bit: bool)
    requires
        crc < 32,
    ensures
        crc5_bit(crc, bit) < 32,
{
    assert(((crc << 1) & 0x1f) < 32 && (((crc << 1) & 0x1f) ^ 0x05) < 32) by (bit_vector);
}

/// The register after some bits of a byte stays within five bits.
pub proof fn lemma_crc5_bits_is_five_bits(crc: u8, byte: u8, n: nat)
    requires
        crc < 32,
    ensures
        crc5_bits(crc, byte, n) < 32,
    decreases n,
{
    if n == 0 || n > 8 {
    } else {
        lemma_crc5_bits_is_five_bits(crc, byte, (n - 1) as nat);
        lemma_crc5_bit_is_five_bits(
            crc5_bits(crc, byte, (n - 1) as nat),
            (byte >> ((8 - n) as u8)) & 1 != 0,
        );
    }
}

/// The register after any bytes stays within five bits.
pub proof fn lemma_crc5_from_is_five_bits(crc: u8, data: Seq<u8>)
    requires
        crc < 32,
    ensures
        crc5_from(crc, data) < 32,
    decreases data.len(),
{
    if data.len() > 0 {
        lemma_crc5_from_is_five_bits(crc, data.drop_last());
        lemma_crc5_bits_is_five_bits(crc5_from(crc, data.drop_last()), data.last(), 8);
    }
}

/// The 5-bit checksum fits in five bits.
pub proof fn lemma_crc5_is_five_bits(data: Seq<u8>)
    ensures
        crc5_spec(data) < 32,
{
    lemma_crc5_from_is_five_bits(CRC5_INIT, data);
}

/// Two different registers stay different under the same bit, and one
/// register parts into two under different bits.
proof fn lemma_crc5_bit_keeps_apart(a: u8, b: u8, bit: bool)
    requires
        a < 32,
        b < 32,
    ensures
        a != b ==> crc5_bit(a, bit) != crc5_bit(b, bit),
        crc5_bit(a, true) != crc5_bit(a, false),
{
    // With the bit clear the polynomial comes in where the top bit is set,
    // with the bit set where it is clear.
    assert(a < 32 && b < 32 && a != b ==> ((a << 1) & 0x1f) ^ (if (a & 0x10) != 0 {
        0x05u8
    } else {
        0u8
    }) != ((b << 1) & 0x1f) ^ (if (b & 0x10) != 0 {
        0x05u8
    } else {
        0u8
    })) by (bit_vector);
    assert(a < 32 && b < 32 && a != b ==> ((a << 1) & 0x1f) ^ (if (a & 0x10) != 0 {
        0u8
    } else {
        0x05u8
    }) != ((b << 1) & 0x1f) ^ (if (b & 0x10) != 0 {
        0u8
    } else {
        0x05u8
    })) by (bit_vector);
    assert(((a << 1) & 0x1f) ^ 0x05 != ((a << 1) & 0x1f)) by (bit_vector);
    assert(((a << 1) & 0x1f) ^ 0u8 == ((a << 1) & 0x1f)) by (bit_vector);
    assert(((b << 1) & 0x1f) ^ 0u8 == ((b << 1) & 0x1f)) by (bit_vector);
}

/// Two different registers stay different over the same bits of a byte.
proof fn lemma_crc5_bits_keeps_apart(a: u8, b: u8, byte: u8, n: nat)
    requires
        a < 32,
        b < 32,
        a != b,
    ensures
        crc5_bits(a, byte, n) != crc5_bits(b, byte, n),
    decreases n,
{
    if n == 0 || n > 8 {
    } else {
        lemma_crc5_bits_keeps_apart(a, b, byte, (n - 1) as nat);
        lemma_crc5_bits_is_five_bits(a, byte, (n - 1) as nat);
        lemma_crc5_bits_is_five_bits(b, byte, (n - 1) as nat);
        lemma_crc5_bit_keeps_apart(
            crc5_bits(a, byte, (n - 1) as nat),
            crc5_bits(b, byte, (n - 1) as nat),
            (byte >> ((8 - n) as u8)) & 1 != 0,
        );
    }
}

/// A byte with bit `k` turned over.
pub open spec fn flip_bit(byte: u8, k: u8) -> u8 {
    byte ^ (1u8 << k)
}

/// Over the bits of a byte in front of a bit that was turned over the
/// register is the same; from that bit on it is different.
proof fn lemma_crc5_bits_sees_flip(crc: u8, byte: u8, k: u8, n: nat)
    requires
        crc < 32,
        k < 8,
        n <= 8,
    ensures
        n < 8 - k ==> crc5_bits(crc, flip_bit(byte, k), n) == crc5_bits(crc, byte, n),
        n >= 8 - k ==> crc5_bits(crc, flip_bit(byte, k), n) != crc5_bits(crc, byte, n),
    decreases n,
{
    if n > 0 {
        lemma_crc5_bits_sees_flip(crc, byte, k, (n - 1) as nat);
        let shift = (8 - n) as u8;
        let before = crc5_bits(crc, byte, (n - 1) as nat);
        let before_flipped = crc5_bits(crc, flip_bit(byte, k), (n - 1) as nat);
        lemma_crc5_bits_is_five_bits(crc, byte, (n - 1) as nat);
        lemma_crc5_bits_is_five_bits(crc, flip_bit(byte, k), (n - 1) as nat);
        assert(k < 8 && shift < 8 && shift != k ==> ((byte ^ (1u8 << k)) >> shift) & 1 == (byte
            >> shift) & 1) by (bit_vector);
        assert(k < 8 && shift == k ==> ((byte ^ (1u8 << k)) >> shift) & 1 != (byte >> shift) & 1)
            by (bit_vector);
        let bit = (byte >> shift) & 1 != 0;
        let bit_flipped = (flip_bit(byte, k) >> shift) & 1 != 0;
        assert(((byte >> shift) & 1 == 0) || ((byte >> shift) & 1 == 1)) by (bit_vector);
        assert(((flip_bit(byte, k) >> shift) & 1 == 0) || ((flip_bit(byte, k) >> shift) & 1 == 1))
            by (bit_vector);
        lemma_crc5_bit_keeps_apart(before, before_flipped, bit);
        if n < 8 - k {
            assert(bit == bit_flipped);
        } else if n == 8 - k {
            assert(before == before_flipped);
            assert(bit != bit_flipped);
        } else {
            assert(bit == bit_flipped);
        }
    }
}

/// Two different registers stay different over the same bytes.
proof fn lemma_crc5_from_keeps_apart(a: u8, b: u8, data: Seq<u8>)
    requires
        a < 32,
        b < 32,
        a != b,
    ensures
        crc5_from(a, data) != crc5_from(b, data),
    decreases data.len(),
{
    if data.len() > 0 {
        lemma_crc5_from_keeps_apart(a, b, data.drop_last());
        lemma_crc5_from_is_five_bits(a, data.drop_last());
        lemma_crc5_from_is_five_bits(b, data.drop_last());
        lemma_crc5_bits_keeps_apart(
            crc5_from(a, data.drop_last()),
            crc5_from(b, data.drop_last()),
            data.last(),
            8,
        );
    }
}

/// One bit turned over anywhere in the data changes the 5-bit checksum.
pub proof fn lemma_crc5_changes_with_one_bit(data: Seq<u8>, i: int, k: u8)
    requires
        0 <= i < data.len(),
        k < 8,
    ensures
        crc5_spec(data.update(i, flip_bit(data[i], k))) != crc5_spec(data),
    decreases data.len(),
{
    let changed = data.update(i, flip_bit(data[i], k));
    let front = data.drop_last();
    lemma_crc5_from_is_five_bits(CRC5_INIT, front);
    if i == data.len() - 1 {
        assert(changed.drop_last() =~= front);
        assert(changed.last() == flip_bit(data.last(), k));
        lemma_crc5_bits_sees_flip(crc5_from(CRC5_INIT, front), data.last(), k, 8);
    } else {
        lemma_crc5_changes_with_one_bit(front, i, k);
        let changed_front = front.update(i, flip_bit(front[i], k));
        assert(changed.drop_last() =~= changed_front);
        assert(changed.last() == data.last());
        lemma_crc5_from_is_five_bits(CRC5_INIT, changed_front);
        lemma_crc5_bits_keeps_apart(
            crc5_from(CRC5_INIT, changed_front),
            crc5_from(CRC5_INIT, front),
            data.last(),
            8,
        );
    }
}

/// The 5-bit check finds every single bit that was turned over: in a frame
/// that passes the check, turn over one bit of the bytes that the checksum
/// covers, or one of the five bits that hold the checksum, and the frame
/// passes no more.
pub proof fn lemma_crc5_detects_one_flipped_bit(frame: Seq<u8>, i: int, k: u8)
    requires
        crc5_valid_spec(frame),
        0 <= i < frame.len(),
        k < 8,
        i == frame.len() - 1 ==> k < 5,
    ensures
        !crc5_valid_spec(frame.update(i, flip_bit(frame[i], k))),
{
    let changed = frame.update(i, flip_bit(frame[i], k));
    if i == frame.len() - 1 {
        let last = frame.last();
        assert(changed.drop_last() =~= frame.drop_last());
        assert(k < 5 ==> (last ^ (1u8 << k)) & 0x1f != last & 0x1f) by (bit_vector);
    } else {
        let body = frame.drop_last();
        assert(changed.drop_last() =~= body.update(i, flip_bit(body[i], k)));
        assert(changed.last() == frame.last());
        lemma_crc5_changes_with_one_bit(body, i, k);
    }
}

} // verus!
