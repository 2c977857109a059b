//! TPS546D24A power regulator: the number formats of its registers and the
//! reading of its status word.
//!
//! SLINEAR11 packs a number into 16 bits as a 5-bit exponent and an 11-bit
//! mantissa, both in two's complement: the number is the mantissa times two
//! to the power of the exponent.

use super::pmbus;
use super::status;
use vstd::prelude::*;

verus! {

/// TPS546 I2C address.
pub const TPS546_I2C_ADDR: u8 = 0x24;

/// `OPERATION` value that turns the output off.
pub const OPERATION_OFF: u8 = 0x00;

/// `OPERATION` value that turns the output on.
pub const OPERATION_ON: u8 = 0x80;

pub const ON_OFF_CONFIG_PU: u8 = 0x10;

pub const ON_OFF_CONFIG_CMD: u8 = 0x08;

pub const ON_OFF_CONFIG_CP: u8 = 0x04;

pub const ON_OFF_CONFIG_POLARITY: u8 = 0x02;

pub const ON_OFF_CONFIG_DELAY: u8 = 0x01;

/// `ON_OFF_CONFIG` value that the regulator is started with: every bit set.
pub const ON_OFF_CONFIG_START: u8 = 0x1F;

/// Device id of a TPS546D24A.
pub const DEVICE_ID1: [u8; 6] = [0x54, 0x49, 0x54, 0x6B, 0x24, 0x41];

/// Device id of a TPS546D24A, second variant.
pub const DEVICE_ID2: [u8; 6] = [0x54, 0x49, 0x54, 0x6D, 0x24, 0x41];

/// Device id of a TPS546D24S.
pub const DEVICE_ID3: [u8; 6] = [0x54, 0x49, 0x54, 0x6D, 0x24, 0x62];

/// Two to the power `n`.
pub open spec fn pow2(n: nat) -> nat
    decreases n,
{
    if n == 0 {
        1
    } else {
        2 * pow2((n - 1) as nat)
    }
}

/// A number of `bits` bits read as two's complement.
pub open spec fn signed(raw: int, bits: nat) -> int {
    if raw >= pow2((bits - 1) as nat) {
        raw - pow2(bits)
    } else {
        raw
    }
}

/// Exponent of a SLINEAR11 word: its upper five bits.
pub open spec fn slinear11_exponent_spec(value: u16) -> int {
    signed(value as int / 2048, 5)
}

/// Mantissa of a SLINEAR11 word: its lower eleven bits.
pub open spec fn slinear11_mantissa_spec(value: u16) -> int {
    signed(value as int % 2048, 11)
}

/// `a` divided by a positive `b`, rounded towards zero.
pub open spec fn div_towards_zero(a: int, b: int) -> int {
    if a >= 0 {
        a / b
    } else {
        -((-a) / b)
    }
}

/// The whole number that a SLINEAR11 word stands for, fractions cut off
/// towards zero.
pub open spec fn slinear11_to_int_spec(value: u16) -> int {
    let e = slinear11_exponent_spec(value);
    let m = slinear11_mantissa_spec(value);
    if e >= 0 {
        m * pow2(e as nat)
    } else {
        div_towards_zero(m, pow2((-e) as nat) as int)
    }
}

proof fn lemma_pow2_values()
    ensures
        pow2(0) == 1,
        pow2(4) == 16,
        pow2(5) == 32,
        pow2(10) == 1024,
        pow2(11) == 2048,
        pow2(15) == 32768,
        pow2(16) == 65536,
{
    reveal_with_fuel(pow2, 17);
}

proof fn lemma_pow2_grows(a: nat, b: nat)
    requires
        a <= b,
    ensures
        1 <= pow2(a) <= pow2(b),
    decreases b,
{
    if b > 0 {
        if a < b {
            lemma_pow2_grows(a, (b - 1) as nat);
        } else {
            lemma_pow2_grows((a - 1) as nat, (b - 1) as nat);
        }
    }
}

fn pow2_exec(n: u32) -> (p: u32)
    requires
        n <= 16,
    ensures
        p == pow2(n as nat),
        1 <= p <= 65536,
{
    let mut p: u32 = 1;
    let mut i: u32 = 0;
    proof {
        lemma_pow2_values();
    }
    while i < n
        invariant
            i <= n <= 16,
            p == pow2(i as nat),
            p <= pow2(i as nat) <= pow2(16) == 65536,
        decreases n - i,
    {
        proof {
            lemma_pow2_grows((i + 1) as nat, 16);
        }
        p = p * 2;
        i = i + 1;
    }
    proof {
        lemma_pow2_values();
        lemma_pow2_grows(n as nat, 16);
    }
    p
}

/// Exponent of a SLINEAR11 word.
pub fn slinear11_exponent(value: u16) -> (e: i32)
    ensures
        e == slinear11_exponent_spec(value),
        -16 <= e <= 15,
{
    proof {
        lemma_pow2_values();
    }
    let raw = (value / 2048) as i32;
    if raw >= 16 {
        raw - 32
    } else {
        raw
    }
}

/// Mantissa of a SLINEAR11 word.
pub fn slinear11_mantissa(value: u16) -> (m: i32)
    ensures
        m == slinear11_mantissa_spec(value),
        -1024 <= m <= 1023,
{
    proof {
        lemma_pow2_values();
    }
    let raw = (value % 2048) as i32;
    if raw >= 1024 {
        raw - 2048
    } else {
        raw
    }
}

/// Reads a SLINEAR11 word as a whole number.
pub fn slinear11_to_int(value: u16) -> (n: i32)
    ensures
        n == slinear11_to_int_spec(value),
{
    let e = slinear11_exponent(value);
    let m = slinear11_mantissa(value);
    if e >= 0 {
        let p = pow2_exec(e as u32) as i32;
        proof {
            lemma_pow2_values();
            lemma_pow2_grows(e as nat, 15);
            assert(-1024 * 32768 <= m * p <= 1024 * 32768) by (nonlinear_arith)
                requires
                    -1024 <= m <= 1023,
                    1 <= p <= 32768,
            ;
        }
        m * p
    } else {
        let p = pow2_exec((-e) as u32) as i32;
        if m >= 0 {
            m / p
        } else {
            -((-m) / p)
        }
    }
}

/// The exponent with which a number is written as SLINEAR11: the smallest
/// one from 0 to 15 that brings the mantissa below 1024; 16 when there is
/// none.
pub open spec fn slinear11_shift(value: nat, from: nat) -> nat
    decreases 16 - from,
{
    if from >= 16 {
        16
    } else if value / pow2(from) < 1024 {
        from
    } else {
        slinear11_shift(value, from + 1)
    }
}

/// The SLINEAR11 word for a whole number that is not negative: the smallest
/// exponent that makes the mantissa fit, with the bits that fall off the low
/// end cut. Negative numbers and numbers of 2^25 or more have no word.
pub open spec fn encode_slinear11_spec(value: int) -> Option<u16> {
    if value < 0 {
        None
    } else {
        let shift = slinear11_shift(value as nat, 0);
        if shift >= 16 {
            None
        } else {
            Some((shift * 2048 + value as nat / pow2(shift)) as u16)
        }
    }
}

/// Writes a whole number as a SLINEAR11 word.
pub fn encode_slinear11(value: i32) -> (word: Option<u16>)
    ensures
        word == encode_slinear11_spec(value as int),
{
    if value < 0 {
        return None;
    }
    let mut i: u32 = 0;
    while i < 16
        invariant
            i <= 16,
            value >= 0,
            slinear11_shift(value as nat, 0) == slinear11_shift(value as nat, i as nat),
        decreases 16 - i,
    {
        let mantissa = value / (pow2_exec(i) as i32);
        if mantissa < 1024 {
            return Some((i * 2048 + mantissa as u32) as u16);
        }
        i = i + 1;
    }
    None
}

/// Exponent that a `VOUT_MODE` byte announces for the output voltage
/// registers: its lower five bits in two's complement.
pub open spec fn vout_mode_exponent_spec(vout_mode: u8) -> int {
    signed(vout_mode as int % 32, 5)
}

/// Reads the exponent from a `VOUT_MODE` byte.
pub fn vout_mode_exponent(vout_mode: u8) -> (e: i32)
    ensures
        e == vout_mode_exponent_spec(vout_mode),
        -16 <= e <= 15,
{
    proof {
        lemma_pow2_values();
    }
    let raw = (vout_mode % 32) as i32;
    if raw >= 16 {
        raw - 32
    } else {
        raw
    }
}

/// The status register to read for a fault bit of the status word, if the
/// bit is set.
pub open spec fn status_register_for(word: u16, bit: u16, register: u8) -> Seq<u8> {
    if word & bit != 0 {
        seq![register]
    } else {
        Seq::<u8>::empty()
    }
}

/// The status registers that explain a status word, in the order in which
/// they are read: output voltage, output current, input, temperature,
/// communication.
pub open spec fn status_registers_spec(word: u16) -> Seq<u8> {
    status_register_for(word, status::VOUT, pmbus::STATUS_VOUT) + status_register_for(
        word,
        status::IOUT,
        pmbus::STATUS_IOUT,
    ) + status_register_for(word, status::INPUT, pmbus::STATUS_INPUT) + status_register_for(
        word,
        status::TEMP,
        pmbus::STATUS_TEMPERATURE,
    ) + status_register_for(word, status::CML, pmbus::STATUS_CML)
}

/// Says which status registers are to be read after a status word.
pub fn status_registers(word: u16) -> (registers: Vec<u8>)
    ensures
        registers@ == status_registers_spec(word),
{
    let mut registers: Vec<u8> = Vec::new();
    if word & status::VOUT != 0 {
        registers.push(pmbus::STATUS_VOUT);
    }
    if word & status::IOUT != 0 {
        registers.push(pmbus::STATUS_IOUT);
    }
    if word & status::INPUT != 0 {
        registers.push(pmbus::STATUS_INPUT);
    }
    if word & status::TEMP != 0 {
        registers.push(pmbus::STATUS_TEMPERATURE);
    }
    if word & status::CML != 0 {
        registers.push(pmbus::STATUS_CML);
    }
    proof {
        assert(registers@ =~= status_registers_spec(word));
    }
    registers
}

fn same_bytes(a: &[u8], b: &[u8]) -> (same: bool)
    ensures
        same == (a@ == b@),
{
    if a.len() != b.len() {
        return false;
    }
    let mut i: usize = 0;
    while i < a.len()
        invariant
            i <= a.len(),
            a.len() == b.len(),
            forall|k: int| 0 <= k < i ==> a@[k] == b@[k],
        decreases a.len() - i,
    {
        if a[i] != b[i] {
            return false;
        }
        i = i + 1;
    }
    proof {
        assert(a@ =~= b@);
    }
    true
}

/// The bytes are the device id of one of the supported regulators.
pub open spec fn is_known_device_id_spec(id: Seq<u8>) -> bool {
    id == DEVICE_ID1@ || id == DEVICE_ID2@ || id == DEVICE_ID3@
}

/// Checks a device id against the supported regulators.
pub fn is_known_device_id(id: &[u8]) -> (known: bool)
    ensures
        known == is_known_device_id_spec(id@),
{
    let id1 = DEVICE_ID1;
    let id2 = DEVICE_ID2;
    let id3 = DEVICE_ID3;
    same_bytes(id, id1.as_slice()) || same_bytes(id, id2.as_slice()) || same_bytes(
        id,
        id3.as_slice(),
    )
}

/// Output power in milliwatts from millivolts and milliamperes, cut to 32
/// bits.
pub open spec fn power_mw_spec(vout_mv: u32, iout_ma: u32) -> u32 {
    ((vout_mv as int * iout_ma as int / 1000) % 0x1_0000_0000) as u32
}

/// Calculates power in milliwatts.
pub fn power_mw(vout_mv: u32, iout_ma: u32) -> (power: u32)
    ensures
        power == power_mw_spec(vout_mv, iout_ma),
{
    proof {
        assert(vout_mv as int * iout_ma as int <= 0xffff_ffff * 0xffff_ffff) by (nonlinear_arith)
            requires
                0 <= vout_mv <= 0xffff_ffff,
                0 <= iout_ma <= 0xffff_ffff,
        ;
    }
    let product: u64 = vout_mv as u64 * iout_ma as u64;
    ((product / 1000) % 0x1_0000_0000) as u32
}

/// Numbers below 1024 are written with exponent 0 and read back unchanged.
pub proof fn lemma_slinear11_small_round_trip(value: int)
    requires
        0 <= value < 1024,
    ensures
        encode_slinear11_spec(value) == Some(value as u16),
        slinear11_to_int_spec(value as u16) == value,
{
    lemma_pow2_values();
    assert(value as nat / pow2(0) == value);
    let word = value as u16;
    assert(word as int / 2048 == 0 && word as int % 2048 == value);
    assert(slinear11_exponent_spec(word) == 0);
    assert(slinear11_mantissa_spec(word) == value);
    let one = pow2(0) as int;
    assert(value * one == value) by (nonlinear_arith)
        requires
            one == 1,
    ;
}

} // verus!
