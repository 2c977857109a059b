//! Vocabulary of the BM13xx serial protocol: the type byte, the commands a
//! host sends, the responses a chip gives, and their one-line renderings.

use crate::text::{decimal, hex_fixed, push_decimal, push_hex2, push_hex8};
use vstd::prelude::*;
use vstd::string::*;

verus! {

/// Type/flags byte components: bit 7 marks a work frame, bit 6 a broadcast,
/// bits 0 to 4 hold the command number.
#[derive(Debug, Clone, Copy, PartialEq, Eq, Structural)]
pub struct TypeFlags {
    pub is_work: bool,
    pub is_broadcast: bool,
    pub cmd: u8,
}

/// Command number of a chip-address assignment.
pub const CMD_SET_ADDRESS: u8 = 0;

/// Command number of a register write; work frames carry it too.
pub const CMD_WRITE: u8 = 1;

/// Command number of a register read.
pub const CMD_READ: u8 = 2;

/// The flags that a type byte holds.
pub open spec fn type_flags_of(byte: u8) -> TypeFlags {
    TypeFlags {
        is_work: (byte & 0x80) != 0,
        is_broadcast: (byte & 0x40) != 0,
        cmd: byte & 0x1f,
    }
}

/// The type byte that holds the given flags; bit 5 is clear.
pub open spec fn type_byte_of(flags: TypeFlags) -> u8 {
    (if flags.is_work {
        0x80u8
    } else {
        0u8
    }) | (if flags.is_broadcast {
        0x40u8
    } else {
        0u8
    }) | (flags.cmd & 0x1f)
}

impl TypeFlags {
    /// Splits a type byte into its flags.
    pub fn from_byte(byte: u8) -> (flags: Self)
        ensures
            flags == type_flags_of(byte),
            flags.cmd < 32,
    {
        assert(byte & 0x1f < 32) by (bit_vector);
        Self { is_work: (byte & 0x80) != 0, is_broadcast: (byte & 0x40) != 0, cmd: byte & 0x1f }
    }

    /// Packs the flags into a type byte. Command numbers are taken modulo 32.
    pub fn to_byte(&self) -> (byte: u8)
        ensures
            byte == type_byte_of(*self),
    {
        let work: u8 = if self.is_work {
            0x80
        } else {
            0
        };
        let broadcast: u8 = if self.is_broadcast {
            0x40
        } else {
            0
        };
        work | broadcast | (self.cmd & 0x1f)
    }
}

/// Flags packed into a byte and split again are unchanged, as long as the
/// command number fits in five bits.
pub proof fn lemma_type_flags_round_trip(flags: TypeFlags)
    requires
        flags.cmd < 32,
    ensures
        type_flags_of(type_byte_of(flags)) == flags,
{
    let c = flags.cmd;
    assert(c < 32 ==> ((0x80u8 | 0x40u8 | (c & 0x1f)) & 0x80 != 0) && ((0x80u8 | 0x40u8 | (c
        & 0x1f)) & 0x40 != 0) && ((0x80u8 | 0x40u8 | (c & 0x1f)) & 0x1f == c)) by (bit_vector);
    assert(c < 32 ==> ((0x80u8 | 0u8 | (c & 0x1f)) & 0x80 != 0) && ((0x80u8 | 0u8 | (c & 0x1f))
        & 0x40 == 0) && ((0x80u8 | 0u8 | (c & 0x1f)) & 0x1f == c)) by (bit_vector);
    assert(c < 32 ==> ((0u8 | 0x40u8 | (c & 0x1f)) & 0x80 == 0) && ((0u8 | 0x40u8 | (c & 0x1f))
        & 0x40 != 0) && ((0u8 | 0x40u8 | (c & 0x1f)) & 0x1f == c)) by (bit_vector);
    assert(c < 32 ==> ((0u8 | 0u8 | (c & 0x1f)) & 0x80 == 0) && ((0u8 | 0u8 | (c & 0x1f)) & 0x40
        == 0) && ((0u8 | 0u8 | (c & 0x1f)) & 0x1f == c)) by (bit_vector);
}

/// A byte split into flags and packed again is the same byte with bit 5
/// cleared: that bit carries nothing.
pub proof fn lemma_type_byte_round_trip(byte: u8)
    ensures
        type_byte_of(type_flags_of(byte)) == byte & 0xdf,
{
    assert(((if (byte & 0x80) != 0 {
        0x80u8
    } else {
        0u8
    }) | (if (byte & 0x40) != 0 {
        0x40u8
    } else {
        0u8
    }) | ((byte & 0x1f) & 0x1f)) == byte & 0xdf) by (bit_vector);
}

/// Work in the full format: four midstates.
#[derive(Debug, Clone, Copy, PartialEq, Eq)]
pub struct JobFullFormat {
    pub job_id: u8,
    pub nbits: u32,
    pub ntime: u32,
    pub merkle_root_lsw: u32,
    pub midstates: [[u8; 32]; 4],
}

/// What a [`JobFullFormat`] holds.
pub ghost struct JobFullFormatView {
    pub job_id: u8,
    pub nbits: u32,
    pub ntime: u32,
    pub merkle_root_lsw: u32,
    /// The four midstates, 32 bytes each.
    pub midstates: Seq<Seq<u8>>,
}

/// The contents of a list of 32-byte blocks.
pub open spec fn block_views(blocks: Seq<[u8; 32]>) -> Seq<Seq<u8>> {
    blocks.map_values(|b: [u8; 32]| b@)
}

impl View for JobFullFormat {
    type V = JobFullFormatView;

    open spec fn view(&self) -> JobFullFormatView {
        JobFullFormatView {
            job_id: self.job_id,
            nbits: self.nbits,
            ntime: self.ntime,
            merkle_root_lsw: self.merkle_root_lsw,
            midstates: block_views(self.midstates@),
        }
    }
}

/// Work in the midstate format: as many midstates as the frame announces.
#[derive(Debug, Clone, PartialEq, Eq)]
pub struct JobMidstateFormat {
    pub job_id: u8,
    pub midstate_num: u8,
    pub nbits: u32,
    pub ntime: u32,
    pub merkle_root_lsw: u32,
    pub midstates: Vec<[u8; 32]>,
}

/// What a [`JobMidstateFormat`] holds.
pub ghost struct JobMidstateFormatView {
    pub job_id: u8,
    pub midstate_num: u8,
    pub nbits: u32,
    pub ntime: u32,
    pub merkle_root_lsw: u32,
    pub midstates: Seq<Seq<u8>>,
}

impl View for JobMidstateFormat {
    type V = JobMidstateFormatView;

    open spec fn view(&self) -> JobMidstateFormatView {
        JobMidstateFormatView {
            job_id: self.job_id,
            midstate_num: self.midstate_num,
            nbits: self.nbits,
            ntime: self.ntime,
            merkle_root_lsw: self.merkle_root_lsw,
            midstates: block_views(self.midstates@),
        }
    }
}

/// Mining job data.
#[derive(Debug, Clone, PartialEq, Eq)]
pub enum MiningJobData {
    Full(JobFullFormat),
    Midstate(JobMidstateFormat),
}

/// What a [`MiningJobData`] holds.
pub ghost enum MiningJobDataView {
    Full(JobFullFormatView),
    Midstate(JobMidstateFormatView),
}

impl View for MiningJobData {
    type V = MiningJobDataView;

    open spec fn view(&self) -> MiningJobDataView {
        match self {
            MiningJobData::Full(job) => MiningJobDataView::Full(job@),
            MiningJobData::Midstate(job) => MiningJobDataView::Midstate(job@),
        }
    }
}

/// Commands sent from host to ASIC.
#[derive(Debug, Clone, PartialEq, Eq)]
pub enum Command {
    SetChipAddress { addr: u8 },
    WriteRegister { chip_addr: u8, reg_addr: u8, value: u32 },
    ReadRegister { chip_addr: u8, reg_addr: u8 },
    WriteRegisterBroadcast { reg_addr: u8, value: u32 },
    ReadRegisterBroadcast { reg_addr: u8 },
    MiningJob(MiningJobData),
    Unknown { type_flags: u8, payload: Vec<u8> },
}

/// What a [`Command`] holds.
pub ghost enum CommandView {
    SetChipAddress { addr: u8 },
    WriteRegister { chip_addr: u8, reg_addr: u8, value: u32 },
    ReadRegister { chip_addr: u8, reg_addr: u8 },
    WriteRegisterBroadcast { reg_addr: u8, value: u32 },
    ReadRegisterBroadcast { reg_addr: u8 },
    MiningJob(MiningJobDataView),
    Unknown { type_flags: u8, payload: Seq<u8> },
}

impl View for Command {
    type V = CommandView;

    open spec fn view(&self) -> CommandView {
        match self {
            Command::SetChipAddress { addr } => CommandView::SetChipAddress { addr: *addr },
            Command::WriteRegister { chip_addr, reg_addr, value } => CommandView::WriteRegister {
                chip_addr: *chip_addr,
                reg_addr: *reg_addr,
                value: *value,
            },
            Command::ReadRegister { chip_addr, reg_addr } => CommandView::ReadRegister {
                chip_addr: *chip_addr,
                reg_addr: *reg_addr,
            },
            Command::WriteRegisterBroadcast { reg_addr, value } => {
                CommandView::WriteRegisterBroadcast { reg_addr: *reg_addr, value: *value }
            },
            Command::ReadRegisterBroadcast { reg_addr } => CommandView::ReadRegisterBroadcast {
                reg_addr: *reg_addr,
            },
            Command::MiningJob(job) => CommandView::MiningJob(job@),
            Command::Unknown { type_flags, payload } => CommandView::Unknown {
                type_flags: *type_flags,
                payload: payload@,
            },
        }
    }
}

/// Response types.
#[derive(Debug, Clone, PartialEq, Eq)]
pub enum Response {
    RegisterValue { chip_id: [u8; 2], reg_addr: u8, value: u32 },
    NonceFound { job_id: u8, nonce: u32, midstate_idx: Option<u8>, core_id: Option<u16> },
    Version { version: u32 },
    Unknown { response_type: u8, payload: Vec<u8> },
}

/// What a [`Response`] holds.
pub ghost enum ResponseView {
    RegisterValue { chip_id: Seq<u8>, reg_addr: u8, value: u32 },
    NonceFound { job_id: u8, nonce: u32, midstate_idx: Option<u8>, core_id: Option<u16> },
    Version { version: u32 },
    Unknown { response_type: u8, payload: Seq<u8> },
}

impl View for Response {
    type V = ResponseView;

    open spec fn view(&self) -> ResponseView {
        match self {
            Response::RegisterValue { chip_id, reg_addr, value } => ResponseView::RegisterValue {
                chip_id: chip_id@,
                reg_addr: *reg_addr,
                value: *value,
            },
            Response::NonceFound { job_id, nonce, midstate_idx, core_id } => {
                ResponseView::NonceFound {
                    job_id: *job_id,
                    nonce: *nonce,
                    midstate_idx: *midstate_idx,
                    core_id: *core_id,
                }
            },
            Response::Version { version } => ResponseView::Version { version: *version },
            Response::Unknown { response_type, payload } => ResponseView::Unknown {
                response_type: *response_type,
                payload: payload@,
            },
        }
    }
}

/// Kind of a response, as the upper three bits of its last byte announce it.
#[derive(Debug, Clone, Copy, PartialEq, Eq, Structural)]
pub enum ResponseType {
    RegisterRead,
    NonceFound,
    Version,
}

/// Kind tag of a register-read response.
pub const KIND_REGISTER_READ: u8 = 0;

/// Kind tag of a nonce response.
pub const KIND_NONCE_FOUND: u8 = 2;

/// Kind tag of a version response.
pub const KIND_VERSION: u8 = 6;

/// The kind that a tag stands for; a tag that stands for none is read as a
/// register read.
pub open spec fn response_type_of(value: u8) -> ResponseType {
    if value == KIND_NONCE_FOUND {
        ResponseType::NonceFound
    } else if value == KIND_VERSION {
        ResponseType::Version
    } else {
        ResponseType::RegisterRead
    }
}

impl ResponseType {
    /// Reads a kind tag.
    pub fn from_u8(value: u8) -> (kind: Self)
        ensures
            kind == response_type_of(value),
    {
        match value {
            0 => Self::RegisterRead,
            2 => Self::NonceFound,
            6 => Self::Version,
            _ => Self::RegisterRead,
        }
    }
}

/// One-line rendering of job data.
pub open spec fn job_text(job: MiningJobDataView) -> Seq<char> {
    match job {
        MiningJobDataView::Full(j) => "Full(id="@ + decimal(j.job_id as nat) + ", nbits=0x"@
            + hex_fixed(j.nbits as nat, 8) + ")"@,
        MiningJobDataView::Midstate(j) => "Midstate(id="@ + decimal(j.job_id as nat) + ", num="@
            + decimal(j.midstate_num as nat) + ", nbits=0x"@ + hex_fixed(j.nbits as nat, 8)
            + ")"@,
    }
}

/// One-line rendering of a command.
pub open spec fn command_text(c: CommandView) -> Seq<char> {
    match c {
        CommandView::SetChipAddress { addr } => "SetChipAddress(addr=0x"@ + hex_fixed(
            addr as nat,
            2,
        ) + ")"@,
        CommandView::WriteRegister { chip_addr, reg_addr, value } => "WriteReg(chip=0x"@
            + hex_fixed(chip_addr as nat, 2) + ", reg=0x"@ + hex_fixed(reg_addr as nat, 2)
            + ", val=0x"@ + hex_fixed(value as nat, 8) + ")"@,
        CommandView::ReadRegister { chip_addr, reg_addr } => "ReadReg(chip=0x"@ + hex_fixed(
            chip_addr as nat,
            2,
        ) + ", reg=0x"@ + hex_fixed(reg_addr as nat, 2) + ")"@,
        CommandView::WriteRegisterBroadcast { reg_addr, value } => "WriteRegBcast(reg=0x"@
            + hex_fixed(reg_addr as nat, 2) + ", val=0x"@ + hex_fixed(value as nat, 8) + ")"@,
        CommandView::ReadRegisterBroadcast { reg_addr } => "ReadRegBcast(reg=0x"@ + hex_fixed(
            reg_addr as nat,
            2,
        ) + ")"@,
        CommandView::MiningJob(job) => "MiningJob("@ + job_text(job) + ")"@,
        CommandView::Unknown { type_flags, payload } => "Unknown(type=0x"@ + hex_fixed(
            type_flags as nat,
            2,
        ) + ", len="@ + decimal(payload.len()) + ")"@,
    }
}

/// The part of a nonce rendering that names the midstate, if one is known.
pub open spec fn midstate_text(midstate_idx: Option<u8>) -> Seq<char> {
    match midstate_idx {
        Some(idx) => ", midstate="@ + decimal(idx as nat),
        None => Seq::<char>::empty(),
    }
}

/// The part of a nonce rendering that names the core, if one is known.
pub open spec fn core_text(core_id: Option<u16>) -> Seq<char> {
    match core_id {
        Some(core) => ", core="@ + decimal(core as nat),
        None => Seq::<char>::empty(),
    }
}

/// One-line rendering of a response.
pub open spec fn response_text(r: ResponseView) -> Seq<char> {
    match r {
        ResponseView::RegisterValue { chip_id, reg_addr, value } => "RegValue(chip="@
            + hex_fixed(chip_id[0] as nat, 2) + hex_fixed(chip_id[1] as nat, 2) + ", reg=0x"@
            + hex_fixed(reg_addr as nat, 2) + ", val=0x"@ + hex_fixed(value as nat, 8) + ")"@,
        ResponseView::NonceFound { job_id, nonce, midstate_idx, core_id } => "NonceFound(job="@
            + decimal(job_id as nat) + ", nonce=0x"@ + hex_fixed(nonce as nat, 8)
            + midstate_text(midstate_idx) + core_text(core_id) + ")"@,
        ResponseView::Version { version } => "Version(0x"@ + hex_fixed(version as nat, 8) + ")"@,
        ResponseView::Unknown { response_type, payload } => "Unknown(type=0x"@ + hex_fixed(
            response_type as nat,
            2,
        ) + ", len="@ + decimal(payload.len()) + ")"@,
    }
}

impl MiningJobData {
    /// Renders the job data on one line.
    pub fn to_text(&self) -> (text: String)
        ensures
            text@ == job_text(self@),
    {
        match self {
            MiningJobData::Full(job) => {
                let mut s = String::from_str("Full(id=");
                push_decimal(&mut s, job.job_id as u64);
                s.append(", nbits=0x");
                push_hex8(&mut s, job.nbits);
                s.append(")");
                s
            },
            MiningJobData::Midstate(job) => {
                let mut s = String::from_str("Midstate(id=");
                push_decimal(&mut s, job.job_id as u64);
                s.append(", num=");
                push_decimal(&mut s, job.midstate_num as u64);
                s.append(", nbits=0x");
                push_hex8(&mut s, job.nbits);
                s.append(")");
                s
            },
        }
    }
}

impl Command {
    /// Renders the command on one line.
    pub fn to_text(&self) -> (text: String)
        ensures
            text@ == command_text(self@),
    {
        match self {
            Command::SetChipAddress { addr } => {
                let mut s = String::from_str("SetChipAddress(addr=0x");
                push_hex2(&mut s, *addr);
                s.append(")");
                s
            },
            Command::WriteRegister { chip_addr, reg_addr, value } => {
                let mut s = String::from_str("WriteReg(chip=0x");
                push_hex2(&mut s, *chip_addr);
                s.append(", reg=0x");
                push_hex2(&mut s, *reg_addr);
                s.append(", val=0x");
                push_hex8(&mut s, *value);
                s.append(")");
                s
            },
            Command::ReadRegister { chip_addr, reg_addr } => {
                let mut s = String::from_str("ReadReg(chip=0x");
                push_hex2(&mut s, *chip_addr);
                s.append(", reg=0x");
                push_hex2(&mut s, *reg_addr);
                s.append(")");
                s
            },
            Command::WriteRegisterBroadcast { reg_addr, value } => {
                let mut s = String::from_str("WriteRegBcast(reg=0x");
                push_hex2(&mut s, *reg_addr);
                s.append(", val=0x");
                push_hex8(&mut s, *value);
                s.append(")");
                s
            },
            Command::ReadRegisterBroadcast { reg_addr } => {
                let mut s = String::from_str("ReadRegBcast(reg=0x");
                push_hex2(&mut s, *reg_addr);
                s.append(")");
                s
            },
            Command::MiningJob(job) => {
                let mut s = String::from_str("MiningJob(");
                let inner = job.to_text();
                s.append(inner.as_str());
                s.append(")");
                s
            },
            Command::Unknown { type_flags, payload } => {
                let mut s = String::from_str("Unknown(type=0x");
                push_hex2(&mut s, *type_flags);
                s.append(", len=");
                push_decimal(&mut s, payload.len() as u64);
                s.append(")");
                s
            },
        }
    }
}

impl Response {
    /// Renders the response on one line.
    pub fn to_text(&self) -> (text: String)
        ensures
            text@ == response_text(self@),
    {
        match self {
            Response::RegisterValue { chip_id, reg_addr, value } => {
                let mut s = String::from_str("RegValue(chip=");
                push_hex2(&mut s, chip_id[0]);
                push_hex2(&mut s, chip_id[1]);
                s.append(", reg=0x");
                push_hex2(&mut s, *reg_addr);
                s.append(", val=0x");
                push_hex8(&mut s, *value);
                s.append(")");
                s
            },
            Response::NonceFound { job_id, nonce, midstate_idx, core_id } => {
                let mut s = String::from_str("NonceFound(job=");
                push_decimal(&mut s, *job_id as u64);
                s.append(", nonce=0x");
                push_hex8(&mut s, *nonce);
                if let Some(idx) = midstate_idx {
                    s.append(", midstate=");
                    push_decimal(&mut s, *idx as u64);
                }
                proof {
                    assert(s@ == "NonceFound(job="@ + decimal(*job_id as nat) + ", nonce=0x"@
                        + hex_fixed(*nonce as nat, 8) + midstate_text(*midstate_idx));
                }
                if let Some(core) = core_id {
                    s.append(", core=");
                    push_decimal(&mut s, *core as u64);
                }
                proof {
                    assert(s@ == "NonceFound(job="@ + decimal(*job_id as nat) + ", nonce=0x"@
                        + hex_fixed(*nonce as nat, 8) + midstate_text(*midstate_idx) + core_text(
                        *core_id,
                    ));
                }
                s.append(")");
                s
            },
            Response::Version { version } => {
                let mut s = String::from_str("Version(0x");
                push_hex8(&mut s, *version);
                s.append(")");
                s
            },
            Response::Unknown { response_type, payload } => {
                let mut s = String::from_str("Unknown(type=0x");
                push_hex2(&mut s, *response_type);
                s.append(", len=");
                push_decimal(&mut s, payload.len() as u64);
                s.append(")");
                s
            },
        }
    }
}

} // verus!
