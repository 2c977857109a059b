//! PMBus command codes of the TPS546D24A.

use vstd::prelude::*;

verus! {

pub const OPERATION: u8 = 0x01;

pub const ON_OFF_CONFIG: u8 = 0x02;

pub const CLEAR_FAULTS: u8 = 0x03;

pub const PHASE: u8 = 0x04;

pub const VOUT_MODE: u8 = 0x20;

pub const VOUT_COMMAND: u8 = 0x21;

pub const VOUT_MAX: u8 = 0x24;

pub const VOUT_MARGIN_HIGH: u8 = 0x25;

pub const VOUT_MARGIN_LOW: u8 = 0x26;

pub const VOUT_SCALE_LOOP: u8 = 0x29;

pub const VOUT_MIN: u8 = 0x2B;

pub const FREQUENCY_SWITCH: u8 = 0x33;

pub const VIN_ON: u8 = 0x35;

pub const VIN_OFF: u8 = 0x36;

pub const VOUT_OV_FAULT_LIMIT: u8 = 0x40;

pub const VOUT_OV_WARN_LIMIT: u8 = 0x42;

pub const VOUT_UV_WARN_LIMIT: u8 = 0x43;

pub const VOUT_UV_FAULT_LIMIT: u8 = 0x44;

pub const IOUT_OC_FAULT_LIMIT: u8 = 0x46;

pub const IOUT_OC_FAULT_RESPONSE: u8 = 0x47;

pub const IOUT_OC_WARN_LIMIT: u8 = 0x4A;

pub const OT_FAULT_LIMIT: u8 = 0x4F;

pub const OT_FAULT_RESPONSE: u8 = 0x50;

pub const OT_WARN_LIMIT: u8 = 0x51;

pub const VIN_OV_FAULT_LIMIT: u8 = 0x55;

pub const VIN_OV_FAULT_RESPONSE: u8 = 0x56;

pub const VIN_UV_WARN_LIMIT: u8 = 0x58;

pub const TON_DELAY: u8 = 0x60;

pub const TON_RISE: u8 = 0x61;

pub const TON_MAX_FAULT_LIMIT: u8 = 0x62;

pub const TON_MAX_FAULT_RESPONSE: u8 = 0x63;

pub const TOFF_DELAY: u8 = 0x64;

pub const TOFF_FALL: u8 = 0x65;

pub const STATUS_WORD: u8 = 0x79;

pub const STATUS_VOUT: u8 = 0x7A;

pub const STATUS_IOUT: u8 = 0x7B;

pub const STATUS_INPUT: u8 = 0x7C;

pub const STATUS_TEMPERATURE: u8 = 0x7D;

pub const STATUS_CML: u8 = 0x7E;

pub const STATUS_OTHER: u8 = 0x7F;

pub const STATUS_MFR_SPECIFIC: u8 = 0x80;

pub const READ_VIN: u8 = 0x88;

pub const READ_VOUT: u8 = 0x8B;

pub const READ_IOUT: u8 = 0x8C;

pub const READ_TEMPERATURE_1: u8 = 0x8D;

pub const MFR_ID: u8 = 0x99;

pub const MFR_MODEL: u8 = 0x9A;

pub const MFR_REVISION: u8 = 0x9B;

pub const IC_DEVICE_ID: u8 = 0xAD;

pub const STACK_CONFIG: u8 = 0xEC;

pub const PIN_DETECT_OVERRIDE: u8 = 0xEE;

} // verus!
