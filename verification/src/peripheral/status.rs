//! Bits of the PMBus `STATUS_WORD`.

use vstd::prelude::*;

verus! {

pub const VOUT: u16 = 0x8000;

pub const IOUT: u16 = 0x4000;

pub const INPUT: u16 = 0x2000;

pub const MFR: u16 = 0x1000;

pub const PGOOD: u16 = 0x0800;

pub const OTHER: u16 = 0x0200;

pub const BUSY: u16 = 0x0080;

pub const OFF: u16 = 0x0040;

pub const VOUT_OV: u16 = 0x0020;

pub const IOUT_OC: u16 = 0x0010;

pub const VIN_UV: u16 = 0x0008;

pub const TEMP: u16 = 0x0004;

pub const CML: u16 = 0x0002;

pub const NONE: u16 = 0x0001;

} // verus!
