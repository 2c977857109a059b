//! Protocol dissection engine: reads assembled serial frames and grouped
//! I2C operations as commands, responses and register accesses.
//!
//! A bad checksum never stops the decoding: it is reported beside what was
//! decoded.

use crate::bytes::{copy_range, le_u16, le_u32_at, read_block32, read_le_u16, read_le_u32};
use crate::crc::{crc16_is_valid, crc16_valid_spec, crc5_is_valid, crc5_valid_spec};
use crate::i2c::{I2cOperation, I2cOperationView};
use crate::peripheral::pmbus;
use crate::peripheral::tps546::TPS546_I2C_ADDR;
use crate::protocol::{
    type_flags_of, Command, CommandView, JobFullFormat, JobFullFormatView, JobMidstateFormat,
    JobMidstateFormatView, MiningJobData, MiningJobDataView, Response, ResponseType, ResponseView,
    TypeFlags, response_type_of,
};
use crate::serial::{Direction, SerialFrame, SerialFrameView};
use crate::text::{decimal, hex_fixed, hex_list, push_decimal, push_hex2, push_hex_joined};
use vstd::prelude::*;
use vstd::slice::slice_subrange;
use vstd::string::*;

verus! {

/// Decoded frame content.
#[derive(Debug, Clone, PartialEq, Eq)]
pub enum FrameContent {
    Command(Command),
    Response(Response),
    Invalid(String),
}

/// What a [`FrameContent`] holds.
pub ghost enum FrameContentView {
    Command(CommandView),
    Response(ResponseView),
    Invalid(Seq<char>),
}

impl View for FrameContent {
    type V = FrameContentView;

    open spec fn view(&self) -> FrameContentView {
        match self {
            FrameContent::Command(c) => FrameContentView::Command(c@),
            FrameContent::Response(r) => FrameContentView::Response(r@),
            FrameContent::Invalid(msg) => FrameContentView::Invalid(msg@),
        }
    }
}

/// CRC validation status.
#[derive(Debug, Clone, Copy, PartialEq, Eq, Structural)]
pub enum CrcStatus {
    Valid,
    Invalid,
    NotChecked,
}

/// The label of a checksum status; a frame whose checksum was not looked at
/// has none.
pub open spec fn crc_label(status: CrcStatus) -> Seq<char> {
    match status {
        CrcStatus::Valid => "CRC OK"@,
        CrcStatus::Invalid => "CRC FAIL"@,
        CrcStatus::NotChecked => ""@,
    }
}

impl CrcStatus {
    /// The label of this status.
    pub fn to_text(&self) -> (label: &'static str)
        ensures
            label@ == crc_label(*self),
    {
        match self {
            CrcStatus::Valid => "CRC OK",
            CrcStatus::Invalid => "CRC FAIL",
            CrcStatus::NotChecked => "",
        }
    }
}

/// Status for the outcome of a checksum test.
pub open spec fn crc_status_of(ok: bool) -> CrcStatus {
    if ok {
        CrcStatus::Valid
    } else {
        CrcStatus::Invalid
    }
}

/// Dissected frame with decoded content.
#[derive(Debug, Clone, PartialEq, Eq)]
pub struct DissectedFrame {
    pub timestamp: u64,
    pub direction: Direction,
    pub raw_data: Vec<u8>,
    pub content: FrameContent,
    pub crc_status: CrcStatus,
}

/// What a [`DissectedFrame`] holds.
pub ghost struct DissectedFrameView {
    pub timestamp: u64,
    pub direction: Direction,
    pub raw_data: Seq<u8>,
    pub content: FrameContentView,
    pub crc_status: CrcStatus,
}

impl View for DissectedFrame {
    type V = DissectedFrameView;

    open spec fn view(&self) -> DissectedFrameView {
        DissectedFrameView {
            timestamp: self.timestamp,
            direction: self.direction,
            raw_data: self.raw_data@,
            content: self.content@,
            crc_status: self.crc_status,
        }
    }
}

/// What a command frame without the work bit says. The payload starts at
/// offset 4; register values are little-endian. A frame too short for its
/// command is invalid; a command number with no meaning gives `Unknown` with
/// the raw type byte and everything from offset 4 on.
pub open spec fn decode_command_spec(type_flags: TypeFlags, data: Seq<u8>) -> FrameContentView {
    if data.len() < 5 {
        FrameContentView::Invalid("Command too short"@)
    } else if type_flags.cmd == 0 && !type_flags.is_broadcast {
        FrameContentView::Command(CommandView::SetChipAddress { addr: data[4] })
    } else if type_flags.cmd == 1 && !type_flags.is_broadcast {
        if data.len() >= 10 {
            FrameContentView::Command(
                CommandView::WriteRegister {
                    chip_addr: data[4],
                    reg_addr: data[5],
                    value: le_u32_at(data, 6),
                },
            )
        } else {
            FrameContentView::Invalid("WriteRegister too short"@)
        }
    } else if type_flags.cmd == 2 && !type_flags.is_broadcast {
        if data.len() >= 6 {
            FrameContentView::Command(
                CommandView::ReadRegister { chip_addr: data[4], reg_addr: data[5] },
            )
        } else {
            FrameContentView::Invalid("ReadRegister too short"@)
        }
    } else if type_flags.cmd == 1 && type_flags.is_broadcast {
        if data.len() >= 9 {
            FrameContentView::Command(
                CommandView::WriteRegisterBroadcast {
                    reg_addr: data[4],
                    value: le_u32_at(data, 5),
                },
            )
        } else {
            FrameContentView::Invalid("WriteRegisterBroadcast too short"@)
        }
    } else if type_flags.cmd == 2 && type_flags.is_broadcast {
        FrameContentView::Command(CommandView::ReadRegisterBroadcast { reg_addr: data[4] })
    } else {
        FrameContentView::Command(
            CommandView::Unknown {
                type_flags: data[2],
                payload: data.subrange(4, data.len() as int),
            },
        )
    }
}

/// Length of a work frame in the full format.
pub const FULL_JOB_LEN: usize = 148;

/// Offset of the first midstate in a full-format work frame.
pub const FULL_MIDSTATES_AT: usize = 17;

/// Offset of the first midstate in a midstate-format work frame.
pub const MIDSTATES_AT: usize = 18;

/// The midstate with index `i` of a work frame whose midstates start at
/// `base`.
pub open spec fn midstate_at(data: Seq<u8>, base: int, i: int) -> Seq<u8> {
    data.subrange(base + 32 * i, base + 32 * i + 32)
}

/// What a work frame says. A frame whose length byte is 148 and that has
/// that many bytes is a full-format job; any other is a midstate-format job,
/// whose second payload byte announces the number of midstates. A
/// midstate-format frame of `18 + 32 * n` bytes or more holds all `n`
/// midstates that it announces, one after the other from offset 18 on.
pub open spec fn decode_mining_job_spec(data: Seq<u8>, length: usize) -> FrameContentView {
    if length == FULL_JOB_LEN && data.len() >= FULL_JOB_LEN {
        FrameContentView::Command(
            CommandView::MiningJob(
                MiningJobDataView::Full(
                    JobFullFormatView {
                        job_id: data[4],
                        nbits: le_u32_at(data, 5),
                        ntime: le_u32_at(data, 9),
                        merkle_root_lsw: le_u32_at(data, 13),
                        midstates: Seq::new(
                            4,
                            |i: int| midstate_at(data, FULL_MIDSTATES_AT as int, i),
                        ),
                    },
                ),
            ),
        )
    } else if data.len() >= 18 {
        let n = data[5] as nat;
        if data.len() >= 18 + n * 32 {
            FrameContentView::Command(
                CommandView::MiningJob(
                    MiningJobDataView::Midstate(
                        JobMidstateFormatView {
                            job_id: data[4],
                            midstate_num: data[5],
                            nbits: le_u32_at(data, 6),
                            ntime: le_u32_at(data, 10),
                            merkle_root_lsw: le_u32_at(data, 14),
                            midstates: Seq::new(
                                n,
                                |i: int| midstate_at(data, MIDSTATES_AT as int, i),
                            ),
                        },
                    ),
                ),
            )
        } else {
            FrameContentView::Invalid(
                "Midstate job too short: expected "@ + decimal(18 + n * 32) + ", got "@ + decimal(
                    data.len(),
                ),
            )
        }
    } else {
        FrameContentView::Invalid("Job frame too short"@)
    }
}

/// The checksum status of a host frame whose length byte is `length`, and
/// which has at least that many bytes. A command frame carries a 5-bit
/// checksum over everything before its last byte. A work frame carries a
/// 16-bit checksum over everything between the preamble and its last two
/// bytes; one too short to hold that is not checked.
pub open spec fn command_crc_status(type_flags: TypeFlags, data: Seq<u8>, length: int) -> CrcStatus {
    if type_flags.is_work {
        if length >= 4 {
            crc_status_of(
                crc16_valid_spec(data.subrange(2, length - 2), data.subrange(length - 2, length)),
            )
        } else {
            CrcStatus::NotChecked
        }
    } else {
        crc_status_of(crc5_valid_spec(data.subrange(0, length)))
    }
}

/// What a host frame says, and the status of its checksum. The frame starts
/// with `55 AA`, then the type byte, then the length of the whole frame.
pub open spec fn dissect_command_spec(data: Seq<u8>) -> (FrameContentView, CrcStatus) {
    if data.len() < 5 {
        (
            FrameContentView::Invalid("Frame too short: "@ + decimal(data.len()) + " bytes"@),
            CrcStatus::NotChecked,
        )
    } else if data[0] != 0x55 || data[1] != 0xAA {
        (FrameContentView::Invalid("Invalid preamble"@), CrcStatus::NotChecked)
    } else {
        let type_flags = type_flags_of(data[2]);
        let length = data[3] as usize;
        if data.len() < length {
            (
                FrameContentView::Invalid(
                    "Incomplete frame: expected "@ + decimal(length as nat) + " bytes, got "@
                        + decimal(data.len()),
                ),
                CrcStatus::NotChecked,
            )
        } else {
            (
                if type_flags.is_work {
                    decode_mining_job_spec(data, length)
                } else {
                    decode_command_spec(type_flags, data)
                },
                command_crc_status(type_flags, data, length as int),
            )
        }
    }
}

/// The kind tag in the last byte of a response.
pub open spec fn response_kind_bits(data: Seq<u8>) -> u8 {
    (data.last() >> 5) & 0x07
}

/// What a chip frame of a given kind says. A nonce response of eleven bytes
/// or more also names the midstate and the core.
pub open spec fn decode_response_body(kind: ResponseType, data: Seq<u8>) -> FrameContentView {
    match kind {
        ResponseType::RegisterRead => {
            if data.len() >= 9 {
                FrameContentView::Response(
                    ResponseView::RegisterValue {
                        chip_id: seq![data[2], data[3]],
                        reg_addr: data[4],
                        value: le_u32_at(data, 5),
                    },
                )
            } else {
                FrameContentView::Invalid("Register read response too short"@)
            }
        },
        ResponseType::NonceFound => {
            if data.len() >= 8 {
                FrameContentView::Response(
                    ResponseView::NonceFound {
                        job_id: data[2],
                        nonce: le_u32_at(data, 3),
                        midstate_idx: if data.len() >= 11 {
                            Some(data[7])
                        } else {
                            None
                        },
                        core_id: if data.len() >= 11 {
                            Some(le_u16(data[8], data[9]))
                        } else {
                            None
                        },
                    },
                )
            } else {
                FrameContentView::Invalid("Nonce response too short"@)
            }
        },
        ResponseType::Version => {
            if data.len() >= 7 {
                FrameContentView::Response(ResponseView::Version { version: le_u32_at(data, 2) })
            } else {
                FrameContentView::Invalid("Version response too short"@)
            }
        },
    }
}

/// What a chip frame says, and the status of its checksum. The frame starts
/// with `AA 55`; its last byte holds the kind in its upper three bits and the
/// 5-bit checksum of everything before it in the lower five.
pub open spec fn dissect_response_spec(data: Seq<u8>) -> (FrameContentView, CrcStatus) {
    if data.len() < 3 {
        (
            FrameContentView::Invalid("Response too short: "@ + decimal(data.len()) + " bytes"@),
            CrcStatus::NotChecked,
        )
    } else if data[0] != 0xAA || data[1] != 0x55 {
        (FrameContentView::Invalid("Invalid response preamble"@), CrcStatus::NotChecked)
    } else {
        (
            decode_response_body(response_type_of(response_kind_bits(data)), data),
            crc_status_of(crc5_valid_spec(data)),
        )
    }
}

/// What an assembled frame says, by its direction.
pub open spec fn dissect_frame_spec(frame: SerialFrameView) -> DissectedFrameView {
    let (content, crc_status) = match frame.direction {
        Direction::HostToChip => dissect_command_spec(frame.data),
        Direction::ChipToHost => dissect_response_spec(frame.data),
    };
    DissectedFrameView {
        timestamp: frame.start_time,
        direction: frame.direction,
        raw_data: frame.data,
        content,
        crc_status,
    }
}

fn invalid(msg: &str) -> (content: FrameContent)
    ensures
        content@ == FrameContentView::Invalid(msg@),
{
    FrameContent::Invalid(String::from_str(msg))
}

fn status_of(ok: bool) -> (status: CrcStatus)
    ensures
        status == crc_status_of(ok),
{
    if ok {
        CrcStatus::Valid
    } else {
        CrcStatus::Invalid
    }
}

/// Dissect a serial frame.
pub fn dissect_serial_frame(frame: &SerialFrame) -> (dissected: DissectedFrame)
    ensures
        dissected@ == dissect_frame_spec(frame@),
{
    let (content, crc_status) = match frame.direction {
        Direction::HostToChip => dissect_command(frame.data.as_slice()),
        Direction::ChipToHost => dissect_response(frame.data.as_slice()),
    };
    let raw_data = copy_range(frame.data.as_slice(), 0, frame.data.len());
    proof {
        assert(raw_data@ == frame.data@);
    }
    DissectedFrame {
        timestamp: frame.start_time,
        direction: frame.direction,
        raw_data,
        content,
        crc_status,
    }
}

/// Dissect a command frame.
pub fn dissect_command(data: &[u8]) -> (r: (FrameContent, CrcStatus))
    ensures
        (r.0@, r.1) == dissect_command_spec(data@),
{
    if data.len() < 5 {
        let mut msg = String::from_str("Frame too short: ");
        push_decimal(&mut msg, data.len() as u64);
        msg.append(" bytes");
        return (FrameContent::Invalid(msg), CrcStatus::NotChecked);
    }
    if data[0] != 0x55 || data[1] != 0xAA {
        return (invalid("Invalid preamble"), CrcStatus::NotChecked);
    }
    let type_flags = TypeFlags::from_byte(data[2]);
    let length = data[3] as usize;
    if data.len() < length {
        let mut msg = String::from_str("Incomplete frame: expected ");
        push_decimal(&mut msg, length as u64);
        msg.append(" bytes, got ");
        push_decimal(&mut msg, data.len() as u64);
        return (FrameContent::Invalid(msg), CrcStatus::NotChecked);
    }
    let crc_status = if type_flags.is_work {
        if length >= 4 {
            status_of(
                crc16_is_valid(
                    slice_subrange(data, 2, length - 2),
                    slice_subrange(data, length - 2, length),
                ),
            )
        } else {
            CrcStatus::NotChecked
        }
    } else {
        status_of(crc5_is_valid(slice_subrange(data, 0, length)))
    };
    let content = if type_flags.is_work {
        decode_mining_job(data, length)
    } else {
        decode_command(type_flags, data)
    };
    (content, crc_status)
}

/// Decode a regular command.
pub fn decode_command(type_flags: TypeFlags, data: &[u8]) -> (content: FrameContent)
    ensures
        content@ == decode_command_spec(type_flags, data@),
{
    if data.len() < 5 {
        return invalid("Command too short");
    }
    let cmd = if type_flags.cmd == 0 && !type_flags.is_broadcast {
        Command::SetChipAddress { addr: data[4] }
    } else if type_flags.cmd == 1 && !type_flags.is_broadcast {
        if data.len() >= 10 {
            Command::WriteRegister {
                chip_addr: data[4],
                reg_addr: data[5],
                value: read_le_u32(data, 6),
            }
        } else {
            return invalid("WriteRegister too short");
        }
    } else if type_flags.cmd == 2 && !type_flags.is_broadcast {
        if data.len() >= 6 {
            Command::ReadRegister { chip_addr: data[4], reg_addr: data[5] }
        } else {
            return invalid("ReadRegister too short");
        }
    } else if type_flags.cmd == 1 && type_flags.is_broadcast {
        if data.len() >= 9 {
            Command::WriteRegisterBroadcast { reg_addr: data[4], value: read_le_u32(data, 5) }
        } else {
            return invalid("WriteRegisterBroadcast too short");
        }
    } else if type_flags.cmd == 2 && type_flags.is_broadcast {
        Command::ReadRegisterBroadcast { reg_addr: data[4] }
    } else {
        Command::Unknown { type_flags: data[2], payload: copy_range(data, 4, data.len()) }
    };
    FrameContent::Command(cmd)
}

/// Decode a mining job.
pub fn decode_mining_job(data: &[u8], length: usize) -> (content: FrameContent)
    ensures
        content@ == decode_mining_job_spec(data@, length),
{
    if length == FULL_JOB_LEN && data.len() >= FULL_JOB_LEN {
        let job = JobFullFormat {
            job_id: data[4],
            nbits: read_le_u32(data, 5),
            ntime: read_le_u32(data, 9),
            merkle_root_lsw: read_le_u32(data, 13),
            midstates: [
                read_block32(data, 17),
                read_block32(data, 49),
                read_block32(data, 81),
                read_block32(data, 113),
            ],
        };
        proof {
            assert(job@.midstates =~= Seq::new(
                4,
                |i: int| midstate_at(data@, FULL_MIDSTATES_AT as int, i),
            ));
        }
        FrameContent::Command(Command::MiningJob(MiningJobData::Full(job)))
    } else if data.len() >= 18 {
        let midstate_num = data[5] as usize;
        let expected_len = 18 + midstate_num * 32;
        if data.len() >= expected_len {
            let mut midstates: Vec<[u8; 32]> = Vec::new();
            let mut i: usize = 0;
            while i < midstate_num
                invariant
                    i <= midstate_num <= 255,
                    data.len() >= 18 + midstate_num * 32,
                    midstates@.len() == i,
                    forall|j: int|
                        0 <= j < midstates@.len() ==> (#[trigger] midstates@[j])@ == midstate_at(
                            data@,
                            MIDSTATES_AT as int,
                            j,
                        ),
                decreases midstate_num - i,
            {
                midstates.push(read_block32(data, MIDSTATES_AT + i * 32));
                i = i + 1;
            }
            let job = JobMidstateFormat {
                job_id: data[4],
                midstate_num: data[5],
                nbits: read_le_u32(data, 6),
                ntime: read_le_u32(data, 10),
                merkle_root_lsw: read_le_u32(data, 14),
                midstates,
            };
            proof {
                assert(job@.midstates =~= Seq::new(
                    midstate_num as nat,
                    |i: int| midstate_at(data@, MIDSTATES_AT as int, i),
                ));
            }
            FrameContent::Command(Command::MiningJob(MiningJobData::Midstate(job)))
        } else {
            let mut msg = String::from_str("Midstate job too short: expected ");
            push_decimal(&mut msg, expected_len as u64);
            msg.append(", got ");
            push_decimal(&mut msg, data.len() as u64);
            FrameContent::Invalid(msg)
        }
    } else {
        invalid("Job frame too short")
    }
}

/// Dissect a response frame.
pub fn dissect_response(data: &[u8]) -> (r: (FrameContent, CrcStatus))
    ensures
        (r.0@, r.1) == dissect_response_spec(data@),
{
    if data.len() < 3 {
        let mut msg = String::from_str("Response too short: ");
        push_decimal(&mut msg, data.len() as u64);
        msg.append(" bytes");
        return (FrameContent::Invalid(msg), CrcStatus::NotChecked);
    }
    if data[0] != 0xAA || data[1] != 0x55 {
        return (invalid("Invalid response preamble"), CrcStatus::NotChecked);
    }
    let crc_byte = data[data.len() - 1];
    let response_type = ResponseType::from_u8((crc_byte >> 5) & 0x07);
    let crc_status = status_of(crc5_is_valid(data));
    let content = match response_type {
        ResponseType::RegisterRead => {
            if data.len() >= 9 {
                let chip_id = [data[2], data[3]];
                proof {
                    assert(chip_id@ =~= seq![data@[2], data@[3]]);
                }
                FrameContent::Response(
                    Response::RegisterValue {
                        chip_id,
                        reg_addr: data[4],
                        value: read_le_u32(data, 5),
                    },
                )
            } else {
                invalid("Register read response too short")
            }
        },
        ResponseType::NonceFound => {
            if data.len() >= 8 {
                let (midstate_idx, core_id) = if data.len() >= 11 {
                    (Some(data[7]), Some(read_le_u16(data, 8)))
                } else {
                    (None, None)
                };
                FrameContent::Response(
                    Response::NonceFound {
                        job_id: data[2],
                        nonce: read_le_u32(data, 3),
                        midstate_idx,
                        core_id,
                    },
                )
            } else {
                invalid("Nonce response too short")
            }
        },
        ResponseType::Version => {
            if data.len() >= 7 {
                FrameContent::Response(Response::Version { version: read_le_u32(data, 2) })
            } else {
                invalid("Version response too short")
            }
        },
    };
    (content, crc_status)
}

/// Dissected I2C operation.
#[derive(Debug, Clone, PartialEq, Eq)]
pub struct DissectedI2c {
    pub timestamp: u64,
    pub address: u8,
    pub device: I2cDevice,
    pub operation: String,
    pub raw_data: Vec<u8>,
}

/// What a [`DissectedI2c`] holds.
pub ghost struct DissectedI2cView {
    pub timestamp: u64,
    pub address: u8,
    pub device: I2cDevice,
    pub operation: Seq<char>,
    pub raw_data: Seq<u8>,
}

impl View for DissectedI2c {
    type V = DissectedI2cView;

    open spec fn view(&self) -> DissectedI2cView {
        DissectedI2cView {
            timestamp: self.timestamp,
            address: self.address,
            device: self.device,
            operation: self.operation@,
            raw_data: self.raw_data@,
        }
    }
}

/// Known I2C devices.
#[derive(Debug, Clone, Copy, PartialEq, Eq, Structural)]
pub enum I2cDevice {
    Emc2101,
    Tps546,
    Unknown,
}

/// Bus address of the fan controller and thermal sensor.
pub const EMC2101_ADDR: u8 = 0x4C;

/// The device that answers at a bus address.
pub open spec fn device_at(address: u8) -> I2cDevice {
    if address == EMC2101_ADDR {
        I2cDevice::Emc2101
    } else if address == TPS546_I2C_ADDR {
        I2cDevice::Tps546
    } else {
        I2cDevice::Unknown
    }
}

/// Name of a register of the fan controller.
pub open spec fn emc2101_register_name(reg: u8) -> Seq<char> {
    if reg == 0x00 {
        "INTERNAL_TEMP"@
    } else if reg == 0x01 {
        "EXTERNAL_TEMP_HIGH"@
    } else if reg == 0x4A {
        "FAN_CONFIG"@
    } else if reg == 0x4C {
        "FAN_SETTING"@
    } else if reg == 0xFE {
        "MFG_ID"@
    } else if reg == 0xFD {
        "PRODUCT_ID"@
    } else if reg == 0xFF {
        "REVISION"@
    } else {
        "UNKNOWN"@
    }
}

/// Name of a PMBus command of the power regulator.
pub open spec fn tps546_command_name(cmd: u8) -> Seq<char> {
    if cmd == pmbus::OPERATION {
        "OPERATION"@
    } else if cmd == pmbus::STATUS_WORD {
        "STATUS_WORD"@
    } else if cmd == pmbus::IC_DEVICE_ID {
        "IC_DEVICE_ID"@
    } else {
        "UNKNOWN"@
    }
}

/// One register access in words: the verb, the register by name, and the
/// data as a list of bytes. A write without data names the register by
/// number, after `bare`.
pub open spec fn access_text(
    name: Seq<char>,
    bare: Seq<char>,
    reg: u8,
    data: Option<Seq<u8>>,
    is_read: bool,
) -> Seq<char> {
    if is_read {
        match data {
            Some(d) => "READ "@ + name + "="@ + hex_list(d),
            None => "READ "@ + name,
        }
    } else {
        match data {
            Some(d) => "WRITE "@ + name + "="@ + hex_list(d),
            None => "WRITE "@ + bare + "[0x"@ + hex_fixed(reg as nat, 2) + "]"@,
        }
    }
}

/// A register access of the fan controller in words.
pub open spec fn emc2101_text(reg: u8, data: Option<Seq<u8>>, is_read: bool) -> Seq<char> {
    access_text(emc2101_register_name(reg), "REG"@, reg, data, is_read)
}

/// A command of the power regulator in words.
pub open spec fn tps546_text(cmd: u8, data: Option<Seq<u8>>, is_read: bool) -> Seq<char> {
    access_text(tps546_command_name(cmd), "CMD"@, cmd, data, is_read)
}

/// The first of two byte strings that is there.
pub open spec fn first_of(a: Option<Seq<u8>>, b: Option<Seq<u8>>) -> Option<Seq<u8>> {
    if a is Some {
        a
    } else {
        b
    }
}

/// An operation in words. One with a register is told in the vocabulary of
/// its device; on an unknown device the register is named by number.
pub open spec fn operation_text(op: I2cOperationView) -> Seq<char> {
    match op.register {
        Some(reg) => {
            let data = first_of(op.read_data, op.write_data);
            let is_read = op.read_data is Some;
            match device_at(op.address) {
                I2cDevice::Emc2101 => "EMC2101 "@ + emc2101_text(reg, data, is_read),
                I2cDevice::Tps546 => "TPS546 "@ + tps546_text(reg, data, is_read),
                I2cDevice::Unknown => match op.read_data {
                    Some(d) => "READ [0x"@ + hex_fixed(reg as nat, 2) + "]="@ + hex_list(d),
                    None => match op.write_data {
                        Some(d) => "WRITE [0x"@ + hex_fixed(reg as nat, 2) + "]="@ + hex_list(d),
                        None => "ACCESS [0x"@ + hex_fixed(reg as nat, 2) + "]"@,
                    },
                },
            }
        },
        None => "I2C op @ 0x"@ + hex_fixed(op.address as nat, 2),
    }
}

/// What an operation says: its device, its wording, and its raw bytes, which
/// are the written bytes if there are any, else the read ones.
pub open spec fn dissect_i2c_spec(op: I2cOperationView) -> DissectedI2cView {
    DissectedI2cView {
        timestamp: op.start_time,
        address: op.address,
        device: device_at(op.address),
        operation: operation_text(op),
        raw_data: match first_of(op.write_data, op.read_data) {
            Some(d) => d,
            None => Seq::<u8>::empty(),
        },
    }
}

fn emc2101_name(reg: u8) -> (name: &'static str)
    ensures
        name@ == emc2101_register_name(reg),
{
    match reg {
        0x00 => "INTERNAL_TEMP",
        0x01 => "EXTERNAL_TEMP_HIGH",
        0x4A => "FAN_CONFIG",
        0x4C => "FAN_SETTING",
        0xFE => "MFG_ID",
        0xFD => "PRODUCT_ID",
        0xFF => "REVISION",
        _ => "UNKNOWN",
    }
}

fn tps546_name(cmd: u8) -> (name: &'static str)
    ensures
        name@ == tps546_command_name(cmd),
{
    match cmd {
        0x01 => "OPERATION",
        0x79 => "STATUS_WORD",
        0xAD => "IC_DEVICE_ID",
        _ => "UNKNOWN",
    }
}

fn push_hex_list(s: &mut String, data: &[u8])
    ensures
        final(s)@ == old(s)@ + hex_list(data@),
{
    s.append("[");
    push_hex_joined(s, data, ", ");
    s.append("]");
    proof {
        reveal_strlit("[");
        reveal_strlit(", ");
        reveal_strlit("]");
        assert("["@ =~= seq!['[']);
        assert(", "@ =~= seq![',', ' ']);
        assert("]"@ =~= seq![']']);
        assert(s@ =~= old(s)@ + hex_list(data@));
    }
}

fn format_access(name: &str, bare: &str, reg: u8, data: Option<&[u8]>, is_read: bool) -> (text:
    String)
    ensures
        text@ == access_text(
            name@,
            bare@,
            reg,
            match data {
                Some(d) => Some(d@),
                None => None,
            },
            is_read,
        ),
{
    let mut s = if is_read {
        String::from_str("READ ")
    } else {
        String::from_str("WRITE ")
    };
    match data {
        Some(d) => {
            s.append(name);
            s.append("=");
            push_hex_list(&mut s, d);
        },
        None => {
            if is_read {
                s.append(name);
            } else {
                s.append(bare);
                s.append("[0x");
                push_hex2(&mut s, reg);
                s.append("]");
            }
        },
    }
    s
}

/// Words a register access of the fan controller.
pub fn emc2101_format_transaction(reg: u8, data: Option<&[u8]>, is_read: bool) -> (text: String)
    ensures
        text@ == emc2101_text(
            reg,
            match data {
                Some(d) => Some(d@),
                None => None,
            },
            is_read,
        ),
{
    format_access(emc2101_name(reg), "REG", reg, data, is_read)
}

/// Words a command of the power regulator.
pub fn tps546_format_transaction(cmd: u8, data: Option<&[u8]>, is_read: bool) -> (text: String)
    ensures
        text@ == tps546_text(
            cmd,
            match data {
                Some(d) => Some(d@),
                None => None,
            },
            is_read,
        ),
{
    format_access(tps546_name(cmd), "CMD", cmd, data, is_read)
}

fn device_of(address: u8) -> (device: I2cDevice)
    ensures
        device == device_at(address),
{
    if address == EMC2101_ADDR {
        I2cDevice::Emc2101
    } else if address == TPS546_I2C_ADDR {
        I2cDevice::Tps546
    } else {
        I2cDevice::Unknown
    }
}

fn first_slice<'a>(a: &'a Option<Vec<u8>>, b: &'a Option<Vec<u8>>) -> (r: Option<&'a [u8]>)
    ensures
        (match r {
            Some(d) => Some(d@),
            None => None,
        }) == first_of(
            crate::i2c::bytes_option_view(*a),
            crate::i2c::bytes_option_view(*b),
        ),
{
    match a {
        Some(d) => Some(d.as_slice()),
        None => match b {
            Some(d) => Some(d.as_slice()),
            None => None,
        },
    }
}

fn numbered_access(verb: &str, reg: u8, data: Option<&[u8]>) -> (text: String)
    ensures
        text@ == (match data {
            Some(d) => verb@ + hex_fixed(reg as nat, 2) + "]="@ + hex_list(d@),
            None => verb@ + hex_fixed(reg as nat, 2) + "]"@,
        }),
{
    let mut s = String::from_str(verb);
    push_hex2(&mut s, reg);
    match data {
        Some(d) => {
            s.append("]=");
            push_hex_list(&mut s, d);
        },
        None => {
            s.append("]");
        },
    }
    s
}

/// Dissect an I2C operation.
pub fn dissect_i2c_operation(op: &I2cOperation) -> (dissected: DissectedI2c)
    ensures
        dissected@ == dissect_i2c_spec(op@),
{
    let device = device_of(op.address);
    let operation = match op.register {
        Some(reg) => {
            let data = first_slice(&op.read_data, &op.write_data);
            let is_read = op.read_data.is_some();
            match device {
                I2cDevice::Emc2101 => {
                    let mut s = String::from_str("EMC2101 ");
                    let words = emc2101_format_transaction(reg, data, is_read);
                    s.append(words.as_str());
                    s
                },
                I2cDevice::Tps546 => {
                    let mut s = String::from_str("TPS546 ");
                    let words = tps546_format_transaction(reg, data, is_read);
                    s.append(words.as_str());
                    s
                },
                I2cDevice::Unknown => match &op.read_data {
                    Some(d) => numbered_access("READ [0x", reg, Some(d.as_slice())),
                    None => match &op.write_data {
                        Some(d) => numbered_access("WRITE [0x", reg, Some(d.as_slice())),
                        None => numbered_access("ACCESS [0x", reg, None),
                    },
                },
            }
        },
        None => {
            let mut s = String::from_str("I2C op @ 0x");
            push_hex2(&mut s, op.address);
            s
        },
    };
    let raw_data = match first_slice(&op.write_data, &op.read_data) {
        Some(d) => {
            let copy = copy_range(d, 0, d.len());
            proof {
                assert(copy@ == d@);
            }
            copy
        },
        None => Vec::new(),
    };
    proof {
        assert(operation@ =~= operation_text(op@));
        assert(raw_data@ =~= dissect_i2c_spec(op@).raw_data);
    }
    DissectedI2c { timestamp: op.start_time, address: op.address, device, operation, raw_data }
}

} // verus!
