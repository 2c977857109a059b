//! Frame codec of the BM13xx serial bus: builds the frames a host sends and
//! reads the frames a chip answers with.
//!
//! A command frame is `55 AA`, the type byte, the length of the whole frame,
//! the payload, and a 5-bit checksum of all that. A work frame has the work
//! bit set in its type byte and ends in a 16-bit checksum of everything
//! between the preamble and the checksum. A response frame is `AA 55`, the
//! payload, and a last byte with the kind of the response in its upper three
//! bits and a 5-bit checksum of everything before it in the lower five.

use crate::bytes::{
    copy_range, le_u16, le_u32_at, push_all, push_le_u32, read_le_u16, read_le_u32, u16_le_bytes,
    u32_le_bytes,
};
use crate::crc::{crc16, crc16_spec, crc16_wire, crc5, crc5_is_valid, crc5_spec, crc5_valid_spec};
use crate::protocol::{
    type_byte_of, Command, CommandView, JobFullFormat, JobFullFormatView, JobMidstateFormat,
    JobMidstateFormatView, MiningJobData, MiningJobDataView, Response, ResponseView, TypeFlags,
    CMD_READ, CMD_SET_ADDRESS, CMD_WRITE, KIND_NONCE_FOUND, KIND_REGISTER_READ, KIND_VERSION,
};
use crate::bytes::{lemma_le_u32_round_trip, lemma_u32_le_bytes_of_read};
use crate::crc::lemma_crc5_is_five_bits;
use crate::dissect::{
    decode_mining_job_spec, dissect_command_spec, midstate_at, CrcStatus, FrameContentView,
    MIDSTATES_AT,
};
use crate::protocol::{lemma_type_flags_round_trip, type_flags_of};
use vstd::prelude::*;

verus! {

/// Why a frame could not be built or read.
#[derive(Debug, Clone, Copy, PartialEq, Eq, Structural)]
pub enum FrameError {
    /// Fewer bytes than the shortest frame has.
    TooShort,
    /// The frame does not start with the preamble of its direction.
    BadPreamble,
    /// The checksum does not match.
    BadCrc,
    /// The frame is too short for what its kind must hold.
    BadLength,
    /// The command number does not fit in five bits.
    BadCommand,
    /// The frame would be longer than the bus allows.
    TooLong,
    /// The value has no form on the wire.
    NotEncodable,
}

/// Longest command frame, in bytes.
pub const MAX_COMMAND_LEN: usize = 32;

/// Longest work frame, in bytes: the length must fit in one byte.
pub const MAX_WORK_LEN: usize = 255;

/// Most midstates a midstate-format job may carry.
pub const MAX_MIDSTATES: usize = 4;

/// The command frame with the given type byte and payload.
pub open spec fn command_frame(type_byte: u8, payload: Seq<u8>) -> Seq<u8> {
    let head = seq![0x55u8, 0xAAu8, type_byte, (payload.len() + 5) as u8] + payload;
    head.push(crc5_spec(head))
}

/// The work frame with the given type byte and payload.
pub open spec fn work_frame(type_byte: u8, payload: Seq<u8>) -> Seq<u8> {
    let body = seq![type_byte, (payload.len() + 6) as u8] + payload;
    seq![0x55u8, 0xAAu8] + body + crc16_wire(crc16_spec(body))
}

/// The last byte of a response: kind above, checksum below.
pub open spec fn response_tail(kind: u8, crc: u8) -> u8 {
    (kind << 5) | (crc & 0x1f)
}

/// The response frame of the given kind with the given payload.
pub open spec fn response_frame(kind: u8, payload: Seq<u8>) -> Seq<u8> {
    let head = seq![0xAAu8, 0x55u8] + payload;
    head.push(response_tail(kind, crc5_spec(head)))
}

/// Type byte of a command frame.
pub open spec fn command_type(command: u8, broadcast: bool) -> u8 {
    type_byte_of(TypeFlags { is_work: false, is_broadcast: broadcast, cmd: command })
}

/// Type byte of a work frame.
pub open spec fn work_type(command: u8) -> u8 {
    type_byte_of(TypeFlags { is_work: true, is_broadcast: false, cmd: command })
}

/// Builds a command frame. The command number must fit in five bits, and the
/// whole frame in [`MAX_COMMAND_LEN`] bytes.
pub fn encode_command(command: u8, broadcast: bool, payload: &[u8]) -> (r: Result<
    Vec<u8>,
    FrameError,
>)
    ensures
        match r {
            Ok(frame) => command < 32 && payload.len() + 5 <= MAX_COMMAND_LEN && frame@
                == command_frame(command_type(command, broadcast), payload@),
            Err(e) => if command >= 32 {
                e == FrameError::BadCommand
            } else {
                payload.len() + 5 > MAX_COMMAND_LEN && e == FrameError::TooLong
            },
        },
{
    if command >= 32 {
        return Err(FrameError::BadCommand);
    }
    if payload.len() > MAX_COMMAND_LEN - 5 {
        return Err(FrameError::TooLong);
    }
    let flags = TypeFlags { is_work: false, is_broadcast: broadcast, cmd: command };
    Ok(raw_command_frame(flags.to_byte(), payload))
}

fn raw_command_frame(type_byte: u8, payload: &[u8]) -> (frame: Vec<u8>)
    requires
        payload.len() + 5 <= MAX_COMMAND_LEN,
    ensures
        frame@ == command_frame(type_byte, payload@),
{
    let mut frame: Vec<u8> = Vec::new();
    frame.push(0x55);
    frame.push(0xAA);
    frame.push(type_byte);
    frame.push((payload.len() + 5) as u8);
    push_all(&mut frame, payload);
    proof {
        assert(frame@ == seq![0x55u8, 0xAAu8, type_byte, (payload.len() + 5) as u8] + payload@);
    }
    let crc = crc5(frame.as_slice());
    frame.push(crc);
    frame
}

/// Builds a work frame. The command number must fit in five bits, and the
/// whole frame in [`MAX_WORK_LEN`] bytes.
pub fn encode_work(command: u8, payload: &[u8]) -> (r: Result<Vec<u8>, FrameError>)
    ensures
        match r {
            Ok(frame) => command < 32 && payload.len() + 6 <= MAX_WORK_LEN && frame@
                == work_frame(work_type(command), payload@),
            Err(e) => if command >= 32 {
                e == FrameError::BadCommand
            } else {
                payload.len() + 6 > MAX_WORK_LEN && e == FrameError::TooLong
            },
        },
{
    if command >= 32 {
        return Err(FrameError::BadCommand);
    }
    if payload.len() > MAX_WORK_LEN - 6 {
        return Err(FrameError::TooLong);
    }
    let flags = TypeFlags { is_work: true, is_broadcast: false, cmd: command };
    let mut body: Vec<u8> = Vec::new();
    body.push(flags.to_byte());
    body.push((payload.len() + 6) as u8);
    push_all(&mut body, payload);
    proof {
        assert(body@ == seq![work_type(command), (payload.len() + 6) as u8] + payload@);
    }
    let crc = crc16(body.as_slice());
    let mut frame: Vec<u8> = Vec::new();
    frame.push(0x55);
    frame.push(0xAA);
    push_all(&mut frame, body.as_slice());
    frame.push((crc >> 8) as u8);
    frame.push((crc & 0xff) as u8);
    proof {
        assert(frame@ == seq![0x55u8, 0xAAu8] + body@ + crc16_wire(crc));
    }
    Ok(frame)
}

fn raw_response_frame(kind: u8, payload: &[u8]) -> (frame: Vec<u8>)
    requires
        kind < 8,
    ensures
        frame@ == response_frame(kind, payload@),
{
    let mut frame: Vec<u8> = Vec::new();
    frame.push(0xAA);
    frame.push(0x55);
    push_all(&mut frame, payload);
    proof {
        assert(frame@ == seq![0xAAu8, 0x55u8] + payload@);
    }
    let crc = crc5(frame.as_slice());
    frame.push((kind << 5) | (crc & 0x1f));
    frame
}

/// The payload of a full-format job: the fields in order, the four
/// midstates, and one reserved byte that is zero.
pub open spec fn full_job_payload(job: JobFullFormatView) -> Seq<u8> {
    seq![job.job_id] + u32_le_bytes(job.nbits) + u32_le_bytes(job.ntime) + u32_le_bytes(
        job.merkle_root_lsw,
    ) + job.midstates[0] + job.midstates[1] + job.midstates[2] + job.midstates[3] + seq![0u8]
}

/// The blocks of a list laid end to end.
pub open spec fn concat_blocks(blocks: Seq<Seq<u8>>) -> Seq<u8>
    decreases blocks.len(),
{
    if blocks.len() == 0 {
        Seq::<u8>::empty()
    } else {
        concat_blocks(blocks.drop_last()) + blocks.last()
    }
}

/// The payload of a midstate-format job: the fields in order, then the
/// midstates.
pub open spec fn midstate_job_payload(job: JobMidstateFormatView) -> Seq<u8> {
    seq![job.job_id, job.midstate_num] + u32_le_bytes(job.nbits) + u32_le_bytes(job.ntime)
        + u32_le_bytes(job.merkle_root_lsw) + concat_blocks(job.midstates)
}

/// The frame of a midstate-format job: preamble, type byte, the length of
/// the frame, and the payload. The frame is as long as header, fields and
/// midstates together, `18 + 32 * n` bytes for `n` midstates, and holds no
/// bytes but these.
pub open spec fn midstate_job_frame(job: JobMidstateFormatView) -> Seq<u8> {
    seq![0x55u8, 0xAAu8, work_type(CMD_WRITE), (18 + 32 * job.midstates.len()) as u8]
        + midstate_job_payload(job)
}

/// A midstate-format job can be sent when it carries one to four midstates
/// and announces as many as it carries.
pub open spec fn midstate_job_encodable(job: JobMidstateFormatView) -> bool {
    1 <= job.midstates.len() <= MAX_MIDSTATES && job.midstate_num == job.midstates.len()
}

/// The frame that carries a command, or the reason why there is none.
pub open spec fn command_encoding(c: CommandView) -> Result<Seq<u8>, FrameError> {
    match c {
        CommandView::SetChipAddress { addr } => Ok(
            command_frame(command_type(CMD_SET_ADDRESS, false), seq![addr]),
        ),
        CommandView::WriteRegister { chip_addr, reg_addr, value } => Ok(
            command_frame(
                command_type(CMD_WRITE, false),
                seq![chip_addr, reg_addr] + u32_le_bytes(value),
            ),
        ),
        CommandView::ReadRegister { chip_addr, reg_addr } => Ok(
            command_frame(command_type(CMD_READ, false), seq![chip_addr, reg_addr]),
        ),
        CommandView::WriteRegisterBroadcast { reg_addr, value } => Ok(
            command_frame(command_type(CMD_WRITE, true), seq![reg_addr] + u32_le_bytes(value)),
        ),
        CommandView::ReadRegisterBroadcast { reg_addr } => Ok(
            command_frame(command_type(CMD_READ, true), seq![reg_addr]),
        ),
        CommandView::MiningJob(MiningJobDataView::Full(job)) => Ok(
            work_frame(work_type(CMD_WRITE), full_job_payload(job)),
        ),
        CommandView::MiningJob(MiningJobDataView::Midstate(job)) => if midstate_job_encodable(
            job,
        ) {
            Ok(midstate_job_frame(job))
        } else {
            Err(FrameError::NotEncodable)
        },
        CommandView::Unknown { type_flags, payload } => if type_flags & 0x80 != 0 {
            Err(FrameError::BadCommand)
        } else if payload.len() + 5 > MAX_COMMAND_LEN {
            Err(FrameError::TooLong)
        } else {
            Ok(command_frame(type_flags, payload))
        },
    }
}

impl JobFullFormat {
    /// The payload of the work frame for this job.
    pub fn payload(&self) -> (out: Vec<u8>)
        ensures
            out@ == full_job_payload(self@),
            out@.len() == 142,
    {
        let mut out: Vec<u8> = Vec::new();
        out.push(self.job_id);
        push_le_u32(&mut out, self.nbits);
        push_le_u32(&mut out, self.ntime);
        push_le_u32(&mut out, self.merkle_root_lsw);
        push_all(&mut out, self.midstates[0].as_slice());
        push_all(&mut out, self.midstates[1].as_slice());
        push_all(&mut out, self.midstates[2].as_slice());
        push_all(&mut out, self.midstates[3].as_slice());
        out.push(0);
        proof {
            assert(out@ =~= full_job_payload(self@));
        }
        out
    }
}

impl JobMidstateFormat {
    /// The payload of the work frame for this job.
    pub fn payload(&self) -> (out: Vec<u8>)
        ensures
            out@ == midstate_job_payload(self@),
            out@.len() == 14 + 32 * self.midstates@.len(),
    {
        let mut out: Vec<u8> = Vec::new();
        out.push(self.job_id);
        out.push(self.midstate_num);
        push_le_u32(&mut out, self.nbits);
        push_le_u32(&mut out, self.ntime);
        push_le_u32(&mut out, self.merkle_root_lsw);
        let ghost head = out@;
        let ghost blocks = self@.midstates;
        let mut i: usize = 0;
        proof {
            assert(blocks.take(0) == Seq::<Seq<u8>>::empty());
            assert(out@ == head + concat_blocks(blocks.take(0)));
        }
        while i < self.midstates.len()
            invariant
                i <= self.midstates@.len(),
                blocks == self@.midstates,
                head.len() == 14,
                out@ == head + concat_blocks(blocks.take(i as int)),
                out@.len() == 14 + 32 * i,
            decreases self.midstates@.len() - i,
        {
            proof {
                assert(blocks.take(i + 1).drop_last() == blocks.take(i as int));
                assert(blocks.take(i + 1).last() == self.midstates@[i as int]@);
            }
            push_all(&mut out, self.midstates[i].as_slice());
            i = i + 1;
        }
        proof {
            assert(blocks.take(blocks.len() as int) == blocks);
            assert(out@ =~= midstate_job_payload(self@));
        }
        out
    }
}

impl Command {
    /// Builds the frame that carries this command.
    pub fn encode(&self) -> (r: Result<Vec<u8>, FrameError>)
        ensures
            match r {
                Ok(frame) => command_encoding(self@) == Ok::<Seq<u8>, FrameError>(frame@),
                Err(e) => command_encoding(self@) == Err::<Seq<u8>, FrameError>(e),
            },
    {
        match self {
            Command::SetChipAddress { addr } => {
                let payload = [*addr];
                proof {
                    assert(payload@ =~= seq![*addr]);
                }
                encode_command(CMD_SET_ADDRESS, false, payload.as_slice())
            },
            Command::WriteRegister { chip_addr, reg_addr, value } => {
                let mut payload: Vec<u8> = Vec::new();
                payload.push(*chip_addr);
                payload.push(*reg_addr);
                push_le_u32(&mut payload, *value);
                proof {
                    assert(payload@ =~= seq![*chip_addr, *reg_addr] + u32_le_bytes(*value));
                }
                encode_command(CMD_WRITE, false, payload.as_slice())
            },
            Command::ReadRegister { chip_addr, reg_addr } => {
                let payload = [*chip_addr, *reg_addr];
                proof {
                    assert(payload@ =~= seq![*chip_addr, *reg_addr]);
                }
                encode_command(CMD_READ, false, payload.as_slice())
            },
            Command::WriteRegisterBroadcast { reg_addr, value } => {
                let mut payload: Vec<u8> = Vec::new();
                payload.push(*reg_addr);
                push_le_u32(&mut payload, *value);
                proof {
                    assert(payload@ =~= seq![*reg_addr] + u32_le_bytes(*value));
                }
                encode_command(CMD_WRITE, true, payload.as_slice())
            },
            Command::ReadRegisterBroadcast { reg_addr } => {
                let payload = [*reg_addr];
                proof {
                    assert(payload@ =~= seq![*reg_addr]);
                }
                encode_command(CMD_READ, true, payload.as_slice())
            },
            Command::MiningJob(MiningJobData::Full(job)) => {
                let payload = job.payload();
                encode_work(CMD_WRITE, payload.as_slice())
            },
            Command::MiningJob(MiningJobData::Midstate(job)) => {
                if job.midstates.len() < 1 || job.midstates.len() > MAX_MIDSTATES
                    || job.midstate_num as usize != job.midstates.len() {
                    return Err(FrameError::NotEncodable);
                }
                let payload = job.payload();
                let flags = TypeFlags { is_work: true, is_broadcast: false, cmd: CMD_WRITE };
                let mut frame: Vec<u8> = Vec::new();
                frame.push(0x55);
                frame.push(0xAA);
                frame.push(flags.to_byte());
                frame.push((payload.len() + 4) as u8);
                push_all(&mut frame, payload.as_slice());
                proof {
                    assert(frame@ =~= midstate_job_frame(job@));
                }
                Ok(frame)
            },
            Command::Unknown { type_flags, payload } => {
                if *type_flags & 0x80 != 0 {
                    return Err(FrameError::BadCommand);
                }
                if payload.len() > MAX_COMMAND_LEN - 5 {
                    return Err(FrameError::TooLong);
                }
                Ok(raw_command_frame(*type_flags, payload.as_slice()))
            },
        }
    }
}

/// The frame that assigns a chip address.
pub fn set_address(addr: u8) -> (frame: Vec<u8>)
    ensures
        command_encoding(CommandView::SetChipAddress { addr }) == Ok::<Seq<u8>, FrameError>(
            frame@,
        ),
{
    match (Command::SetChipAddress { addr }).encode() {
        Ok(frame) => frame,
        Err(_) => Vec::new(),
    }
}

/// The frame that writes a register of one chip.
pub fn write_register(chip_addr: u8, reg_addr: u8, value: u32) -> (frame: Vec<u8>)
    ensures
        command_encoding(CommandView::WriteRegister { chip_addr, reg_addr, value }) == Ok::<
            Seq<u8>,
            FrameError,
        >(frame@),
{
    match (Command::WriteRegister { chip_addr, reg_addr, value }).encode() {
        Ok(frame) => frame,
        Err(_) => Vec::new(),
    }
}

/// The frame that asks one chip for a register.
pub fn read_register(chip_addr: u8, reg_addr: u8) -> (frame: Vec<u8>)
    ensures
        command_encoding(CommandView::ReadRegister { chip_addr, reg_addr }) == Ok::<
            Seq<u8>,
            FrameError,
        >(frame@),
{
    match (Command::ReadRegister { chip_addr, reg_addr }).encode() {
        Ok(frame) => frame,
        Err(_) => Vec::new(),
    }
}

/// The frame that writes a register of every chip.
pub fn write_register_broadcast(reg_addr: u8, value: u32) -> (frame: Vec<u8>)
    ensures
        command_encoding(CommandView::WriteRegisterBroadcast { reg_addr, value }) == Ok::<
            Seq<u8>,
            FrameError,
        >(frame@),
{
    match (Command::WriteRegisterBroadcast { reg_addr, value }).encode() {
        Ok(frame) => frame,
        Err(_) => Vec::new(),
    }
}

/// The frame that asks every chip for a register.
pub fn read_register_broadcast(reg_addr: u8) -> (frame: Vec<u8>)
    ensures
        command_encoding(CommandView::ReadRegisterBroadcast { reg_addr }) == Ok::<
            Seq<u8>,
            FrameError,
        >(frame@),
{
    match (Command::ReadRegisterBroadcast { reg_addr }).encode() {
        Ok(frame) => frame,
        Err(_) => Vec::new(),
    }
}

/// The frame that carries a response, or the reason why there is none. A
/// nonce response names midstate and core together or not at all; a response
/// of unknown kind keeps its kind tag, which must fit in three bits.
pub open spec fn response_encoding(r: ResponseView) -> Result<Seq<u8>, FrameError> {
    match r {
        ResponseView::RegisterValue { chip_id, reg_addr, value } => if chip_id.len() == 2 {
            Ok(
                response_frame(
                    KIND_REGISTER_READ,
                    chip_id + seq![reg_addr] + u32_le_bytes(value),
                ),
            )
        } else {
            Err(FrameError::NotEncodable)
        },
        ResponseView::NonceFound { job_id, nonce, midstate_idx, core_id } => match (
            midstate_idx,
            core_id,
        ) {
            (Some(idx), Some(core)) => Ok(
                response_frame(
                    KIND_NONCE_FOUND,
                    seq![job_id] + u32_le_bytes(nonce) + seq![idx] + u16_le_bytes(core),
                ),
            ),
            (None, None) => Ok(
                response_frame(KIND_NONCE_FOUND, seq![job_id] + u32_le_bytes(nonce)),
            ),
            _ => Err(FrameError::NotEncodable),
        },
        ResponseView::Version { version } => Ok(
            response_frame(KIND_VERSION, u32_le_bytes(version)),
        ),
        ResponseView::Unknown { response_type, payload } => if response_type < 8 {
            Ok(response_frame(response_type, payload))
        } else {
            Err(FrameError::NotEncodable)
        },
    }
}

impl Response {
    /// Builds the frame that carries this response.
    pub fn encode(&self) -> (r: Result<Vec<u8>, FrameError>)
        ensures
            match r {
                Ok(frame) => response_encoding(self@) == Ok::<Seq<u8>, FrameError>(frame@),
                Err(e) => response_encoding(self@) == Err::<Seq<u8>, FrameError>(e),
            },
    {
        match self {
            Response::RegisterValue { chip_id, reg_addr, value } => {
                let mut payload: Vec<u8> = Vec::new();
                payload.push(chip_id[0]);
                payload.push(chip_id[1]);
                payload.push(*reg_addr);
                push_le_u32(&mut payload, *value);
                proof {
                    assert(payload@ =~= chip_id@ + seq![*reg_addr] + u32_le_bytes(*value));
                }
                Ok(raw_response_frame(KIND_REGISTER_READ, payload.as_slice()))
            },
            Response::NonceFound { job_id, nonce, midstate_idx, core_id } => {
                let mut payload: Vec<u8> = Vec::new();
                payload.push(*job_id);
                push_le_u32(&mut payload, *nonce);
                match (midstate_idx, core_id) {
                    (Some(idx), Some(core)) => {
                        payload.push(*idx);
                        payload.push((*core % 0x100) as u8);
                        payload.push((*core / 0x100) as u8);
                        proof {
                            assert(payload@ =~= seq![*job_id] + u32_le_bytes(*nonce) + seq![*idx]
                                + u16_le_bytes(*core));
                        }
                    },
                    (None, None) => {
                        proof {
                            assert(payload@ =~= seq![*job_id] + u32_le_bytes(*nonce));
                        }
                    },
                    _ => {
                        return Err(FrameError::NotEncodable);
                    },
                }
                Ok(raw_response_frame(KIND_NONCE_FOUND, payload.as_slice()))
            },
            Response::Version { version } => {
                let mut payload: Vec<u8> = Vec::new();
                push_le_u32(&mut payload, *version);
                proof {
                    assert(payload@ =~= u32_le_bytes(*version));
                }
                Ok(raw_response_frame(KIND_VERSION, payload.as_slice()))
            },
            Response::Unknown { response_type, payload } => {
                if *response_type >= 8 {
                    return Err(FrameError::NotEncodable);
                }
                Ok(raw_response_frame(*response_type, payload.as_slice()))
            },
        }
    }
}

/// What a response frame holds, or why it is refused. A frame is refused when
/// it has fewer than three bytes, does not start with `AA 55`, fails its
/// checksum, or is too short for its kind, in that order. A register value
/// needs ten bytes, a nonce eight (eleven to name midstate and core), a
/// version seven. A kind with no meaning gives `Unknown` with everything
/// between preamble and last byte.
pub open spec fn decode_response_spec(data: Seq<u8>) -> Result<ResponseView, FrameError> {
    if data.len() < 3 {
        Err(FrameError::TooShort)
    } else if data[0] != 0xAA || data[1] != 0x55 {
        Err(FrameError::BadPreamble)
    } else if !crc5_valid_spec(data) {
        Err(FrameError::BadCrc)
    } else {
        let kind = (data.last() >> 5) & 0x07;
        if kind == KIND_REGISTER_READ {
            if data.len() >= 10 {
                Ok(
                    ResponseView::RegisterValue {
                        chip_id: seq![data[2], data[3]],
                        reg_addr: data[4],
                        value: le_u32_at(data, 5),
                    },
                )
            } else {
                Err(FrameError::BadLength)
            }
        } else if kind == KIND_NONCE_FOUND {
            if data.len() >= 11 {
                Ok(
                    ResponseView::NonceFound {
                        job_id: data[2],
                        nonce: le_u32_at(data, 3),
                        midstate_idx: Some(data[7]),
                        core_id: Some(le_u16(data[8], data[9])),
                    },
                )
            } else if data.len() >= 8 {
                Ok(
                    ResponseView::NonceFound {
                        job_id: data[2],
                        nonce: le_u32_at(data, 3),
                        midstate_idx: None,
                        core_id: None,
                    },
                )
            } else {
                Err(FrameError::BadLength)
            }
        } else if kind == KIND_VERSION {
            if data.len() >= 7 {
                Ok(ResponseView::Version { version: le_u32_at(data, 2) })
            } else {
                Err(FrameError::BadLength)
            }
        } else {
            Ok(
                ResponseView::Unknown {
                    response_type: kind,
                    payload: data.subrange(2, data.len() - 1),
                },
            )
        }
    }
}

/// Reads a response frame. A frame with a bad checksum is refused, not read.
pub fn decode_response(data: &[u8]) -> (r: Result<Response, FrameError>)
    ensures
        match r {
            Ok(response) => decode_response_spec(data@) == Ok::<ResponseView, FrameError>(
                response@,
            ),
            Err(e) => decode_response_spec(data@) == Err::<ResponseView, FrameError>(e),
        },
{
    if data.len() < 3 {
        return Err(FrameError::TooShort);
    }
    if data[0] != 0xAA || data[1] != 0x55 {
        return Err(FrameError::BadPreamble);
    }
    if !crc5_is_valid(data) {
        return Err(FrameError::BadCrc);
    }
    let kind = (data[data.len() - 1] >> 5) & 0x07;
    if kind == KIND_REGISTER_READ {
        if data.len() >= 10 {
            let chip_id = [data[2], data[3]];
            proof {
                assert(chip_id@ =~= seq![data@[2], data@[3]]);
            }
            Ok(Response::RegisterValue { chip_id, reg_addr: data[4], value: read_le_u32(data, 5) })
        } else {
            Err(FrameError::BadLength)
        }
    } else if kind == KIND_NONCE_FOUND {
        if data.len() >= 11 {
            Ok(
                Response::NonceFound {
                    job_id: data[2],
                    nonce: read_le_u32(data, 3),
                    midstate_idx: Some(data[7]),
                    core_id: Some(read_le_u16(data, 8)),
                },
            )
        } else if data.len() >= 8 {
            Ok(
                Response::NonceFound {
                    job_id: data[2],
                    nonce: read_le_u32(data, 3),
                    midstate_idx: None,
                    core_id: None,
                },
            )
        } else {
            Err(FrameError::BadLength)
        }
    } else if kind == KIND_VERSION {
        if data.len() >= 7 {
            Ok(Response::Version { version: read_le_u32(data, 2) })
        } else {
            Err(FrameError::BadLength)
        }
    } else {
        Ok(Response::Unknown { response_type: kind, payload: copy_range(data, 2, data.len() - 1) })
    }
}

/// The commands that a frame of the command alphabet can say: address
/// assignment, register write and read, and the broadcast forms of the last
/// two.
pub open spec fn in_command_alphabet(c: CommandView) -> bool {
    c is SetChipAddress || c is WriteRegister || c is ReadRegister || c is WriteRegisterBroadcast
        || c is ReadRegisterBroadcast
}

/// Length of the frame that a type byte of the command alphabet calls for.
pub open spec fn alphabet_frame_len(type_flags: TypeFlags) -> Option<nat> {
    if type_flags.is_work {
        None
    } else if type_flags.cmd == CMD_SET_ADDRESS && !type_flags.is_broadcast {
        Some(6)
    } else if type_flags.cmd == CMD_WRITE && !type_flags.is_broadcast {
        Some(11)
    } else if type_flags.cmd == CMD_READ && !type_flags.is_broadcast {
        Some(7)
    } else if type_flags.cmd == CMD_WRITE && type_flags.is_broadcast {
        Some(10)
    } else if type_flags.cmd == CMD_READ && type_flags.is_broadcast {
        Some(6)
    } else {
        None
    }
}

/// A correctly framed command: preamble, a type byte of the command alphabet
/// with its spare bit clear, a length byte that is the length of the frame
/// and the one its command calls for, and a last byte that is the checksum
/// and nothing else.
pub open spec fn canonical_command_frame(f: Seq<u8>) -> bool {
    &&& f.len() >= 5
    &&& f[0] == 0x55
    &&& f[1] == 0xAA
    &&& f[2] == type_byte_of(type_flags_of(f[2]))
    &&& f[3] == f.len()
    &&& alphabet_frame_len(type_flags_of(f[2])) == Some(f.len())
    &&& crc5_valid_spec(f)
    &&& f.last() < 32
}

/// Decoding undoes encoding on the command alphabet: the frame built for a
/// command is correctly framed, and reads back as that command with a valid
/// checksum.
pub proof fn lemma_decode_encoded_command(c: CommandView)
    requires
        in_command_alphabet(c),
    ensures
        command_encoding(c) is Ok,
        canonical_command_frame(command_encoding(c)->Ok_0),
        dissect_command_spec(command_encoding(c)->Ok_0) == (
            FrameContentView::Command(c),
            CrcStatus::Valid,
        ),
{
    let f = command_encoding(c)->Ok_0;
    let (flags, payload) = match c {
        CommandView::SetChipAddress { addr } => (
            TypeFlags { is_work: false, is_broadcast: false, cmd: CMD_SET_ADDRESS },
            seq![addr],
        ),
        CommandView::WriteRegister { chip_addr, reg_addr, value } => (
            TypeFlags { is_work: false, is_broadcast: false, cmd: CMD_WRITE },
            seq![chip_addr, reg_addr] + u32_le_bytes(value),
        ),
        CommandView::ReadRegister { chip_addr, reg_addr } => (
            TypeFlags { is_work: false, is_broadcast: false, cmd: CMD_READ },
            seq![chip_addr, reg_addr],
        ),
        CommandView::WriteRegisterBroadcast { reg_addr, value } => (
            TypeFlags { is_work: false, is_broadcast: true, cmd: CMD_WRITE },
            seq![reg_addr] + u32_le_bytes(value),
        ),
        CommandView::ReadRegisterBroadcast { reg_addr } => (
            TypeFlags { is_work: false, is_broadcast: true, cmd: CMD_READ },
            seq![reg_addr],
        ),
        _ => (TypeFlags { is_work: false, is_broadcast: false, cmd: 0 }, Seq::<u8>::empty()),
    };
    let type_byte = type_byte_of(flags);
    let head = seq![0x55u8, 0xAAu8, type_byte, (payload.len() + 5) as u8] + payload;
    assert(f == head.push(crc5_spec(head)));
    lemma_type_flags_round_trip(flags);
    lemma_crc5_is_five_bits(head);
    let crc = crc5_spec(head);
    assert(crc < 32 ==> crc & 0x1f == crc) by (bit_vector);
    assert(f.drop_last() == head);
    assert(f.subrange(0, f.len() as int) == f);
    assert(f[2] == type_byte);
    assert(f[3] == f.len());
    assert forall|i: int| 0 <= i < payload.len() implies f[4 + i] == payload[i] by {
        assert(f[4 + i] == head[4 + i]);
    }
    match c {
        CommandView::WriteRegister { chip_addr, reg_addr, value } => {
            lemma_le_u32_round_trip(value);
            assert(payload[2] == u32_le_bytes(value)[0]);
            assert(payload[3] == u32_le_bytes(value)[1]);
            assert(payload[4] == u32_le_bytes(value)[2]);
            assert(payload[5] == u32_le_bytes(value)[3]);
            assert(f[4] == payload[0] && f[5] == payload[1] && f[6] == payload[2]
                && f[7] == payload[3] && f[8] == payload[4] && f[9] == payload[5]);
            assert(le_u32_at(f, 6) == value);
        },
        CommandView::WriteRegisterBroadcast { reg_addr, value } => {
            lemma_le_u32_round_trip(value);
            assert(payload[1] == u32_le_bytes(value)[0]);
            assert(payload[2] == u32_le_bytes(value)[1]);
            assert(payload[3] == u32_le_bytes(value)[2]);
            assert(payload[4] == u32_le_bytes(value)[3]);
            assert(f[4] == payload[0] && f[5] == payload[1] && f[6] == payload[2]
                && f[7] == payload[3] && f[8] == payload[4]);
            assert(le_u32_at(f, 5) == value);
        },
        CommandView::ReadRegister { chip_addr, reg_addr } => {
            assert(f[4] == payload[0] && f[5] == payload[1]);
        },
        _ => {
            assert(f[4] == payload[0]);
        },
    }
}

/// Encoding undoes decoding on the command alphabet: a correctly framed
/// command reads as a command of the alphabet with a valid checksum, and the
/// frame built for that command is the frame that was read.
pub proof fn lemma_encode_decoded_command(f: Seq<u8>)
    requires
        canonical_command_frame(f),
    ensures
        dissect_command_spec(f).1 == CrcStatus::Valid,
        dissect_command_spec(f).0 is Command,
        in_command_alphabet(dissect_command_spec(f).0->Command_0),
        command_encoding(dissect_command_spec(f).0->Command_0) == Ok::<Seq<u8>, FrameError>(f),
{
    let flags = type_flags_of(f[2]);
    let head = f.drop_last();
    let last = f.last();
    assert(f.subrange(0, f.len() as int) == f);
    assert(last < 32 ==> last & 0x1f == last) by (bit_vector);
    assert(last == crc5_spec(head));
    let c = dissect_command_spec(f).0->Command_0;
    assert(f[2] == type_byte_of(flags));
    if flags.cmd == CMD_WRITE && !flags.is_broadcast {
        lemma_u32_le_bytes_of_read(f[6], f[7], f[8], f[9]);
        let payload = seq![f[4], f[5]] + u32_le_bytes(le_u32_at(f, 6));
        assert(head =~= seq![0x55u8, 0xAAu8, f[2], (payload.len() + 5) as u8] + payload);
        assert(f =~= head.push(last));
    } else if flags.cmd == CMD_WRITE && flags.is_broadcast {
        lemma_u32_le_bytes_of_read(f[5], f[6], f[7], f[8]);
        let payload = seq![f[4]] + u32_le_bytes(le_u32_at(f, 5));
        assert(head =~= seq![0x55u8, 0xAAu8, f[2], (payload.len() + 5) as u8] + payload);
        assert(f =~= head.push(last));
    } else if flags.cmd == CMD_READ && !flags.is_broadcast {
        let payload = seq![f[4], f[5]];
        assert(head =~= seq![0x55u8, 0xAAu8, f[2], (payload.len() + 5) as u8] + payload);
        assert(f =~= head.push(last));
    } else {
        let payload = seq![f[4]];
        assert(head =~= seq![0x55u8, 0xAAu8, f[2], (payload.len() + 5) as u8] + payload);
        assert(f =~= head.push(last));
    }
}

/// The responses that a frame of the response alphabet can say: register
/// value, nonce (with midstate and core, or without both), and version.
pub open spec fn in_response_alphabet(r: ResponseView) -> bool {
    match r {
        ResponseView::RegisterValue { chip_id, .. } => chip_id.len() == 2,
        ResponseView::NonceFound { midstate_idx, core_id, .. } => (midstate_idx is Some) == (
        core_id is Some),
        ResponseView::Version { .. } => true,
        ResponseView::Unknown { .. } => false,
    }
}

/// A correctly framed response: preamble, a valid checksum, a kind of the
/// response alphabet and exactly the length that the kind calls for.
pub open spec fn canonical_response_frame(f: Seq<u8>) -> bool {
    let kind = (f.last() >> 5) & 0x07;
    &&& f.len() >= 3
    &&& f[0] == 0xAA
    &&& f[1] == 0x55
    &&& crc5_valid_spec(f)
    &&& (kind == KIND_REGISTER_READ && f.len() == 10 || kind == KIND_NONCE_FOUND && (f.len() == 8
        || f.len() == 11) || kind == KIND_VERSION && f.len() == 7)
}

proof fn lemma_response_tail(kind: u8, crc: u8)
    requires
        kind < 8,
        crc < 32,
    ensures
        (response_tail(kind, crc) >> 5) & 0x07 == kind,
        response_tail(kind, crc) & 0x1f == crc,
{
    assert(kind < 8 && crc < 32 ==> ((((kind << 5) | (crc & 0x1f)) >> 5) & 0x07 == kind) && (((
    kind << 5) | (crc & 0x1f)) & 0x1f == crc)) by (bit_vector);
}

proof fn lemma_response_tail_rebuilt(last: u8)
    ensures
        response_tail((last >> 5) & 0x07, last & 0x1f) == last,
{
    assert(((((last >> 5) & 0x07) << 5) | ((last & 0x1f) & 0x1f)) == last) by (bit_vector);
}

/// Decoding undoes encoding on the response alphabet: the frame built for a
/// response is correctly framed and reads back as that response.
pub proof fn lemma_decode_encoded_response(r: ResponseView)
    requires
        in_response_alphabet(r),
    ensures
        response_encoding(r) is Ok,
        canonical_response_frame(response_encoding(r)->Ok_0),
        decode_response_spec(response_encoding(r)->Ok_0) == Ok::<ResponseView, FrameError>(r),
{
    let f = response_encoding(r)->Ok_0;
    let (kind, payload) = match r {
        ResponseView::RegisterValue { chip_id, reg_addr, value } => (
            KIND_REGISTER_READ,
            chip_id + seq![reg_addr] + u32_le_bytes(value),
        ),
        ResponseView::NonceFound { job_id, nonce, midstate_idx, core_id } => (
            KIND_NONCE_FOUND,
            if midstate_idx is Some {
                seq![job_id] + u32_le_bytes(nonce) + seq![midstate_idx->0] + u16_le_bytes(
                    core_id->0,
                )
            } else {
                seq![job_id] + u32_le_bytes(nonce)
            },
        ),
        ResponseView::Version { version } => (KIND_VERSION, u32_le_bytes(version)),
        _ => (0u8, Seq::<u8>::empty()),
    };
    let head = seq![0xAAu8, 0x55u8] + payload;
    let crc = crc5_spec(head);
    assert(f == head.push(response_tail(kind, crc)));
    lemma_crc5_is_five_bits(head);
    lemma_response_tail(kind, crc);
    assert(f.drop_last() == head);
    assert forall|i: int| 0 <= i < payload.len() implies f[2 + i] == payload[i] by {
        assert(f[2 + i] == head[2 + i]);
    }
    match r {
        ResponseView::RegisterValue { chip_id, reg_addr, value } => {
            lemma_le_u32_round_trip(value);
            assert(payload[0] == chip_id[0] && payload[1] == chip_id[1] && payload[2]
                == reg_addr);
            assert(payload[3] == u32_le_bytes(value)[0] && payload[4] == u32_le_bytes(value)[1]
                && payload[5] == u32_le_bytes(value)[2] && payload[6] == u32_le_bytes(
                value,
            )[3]);
            assert(f[2] == payload[0] && f[3] == payload[1] && f[4] == payload[2]
                && f[5] == payload[3] && f[6] == payload[4] && f[7] == payload[5]
                && f[8] == payload[6]);
            assert(seq![f[2], f[3]] =~= chip_id);
        },
        ResponseView::NonceFound { job_id, nonce, midstate_idx, core_id } => {
            lemma_le_u32_round_trip(nonce);
            assert(payload[0] == job_id);
            assert(payload[1] == u32_le_bytes(nonce)[0] && payload[2] == u32_le_bytes(nonce)[1]
                && payload[3] == u32_le_bytes(nonce)[2] && payload[4] == u32_le_bytes(
                nonce,
            )[3]);
            assert(f[2] == payload[0] && f[3] == payload[1] && f[4] == payload[2]
                && f[5] == payload[3] && f[6] == payload[4]);
            if midstate_idx is Some {
                let core = core_id->0;
                assert(payload[5] == midstate_idx->0);
                assert(payload[6] == u16_le_bytes(core)[0] && payload[7] == u16_le_bytes(
                    core,
                )[1]);
                assert(f[7] == payload[5] && f[8] == payload[6] && f[9]
                    == payload[7]);
                assert(le_u16(f[8], f[9]) == core);
            }
        },
        ResponseView::Version { version } => {
            lemma_le_u32_round_trip(version);
            assert(f[2] == payload[0] && f[3] == payload[1] && f[4] == payload[2]
                && f[5] == payload[3]);
        },
        _ => {},
    }
}

/// Encoding undoes decoding on the response alphabet: a correctly framed
/// response reads as a response of the alphabet, and the frame built for
/// that response is the frame that was read.
pub proof fn lemma_encode_decoded_response(f: Seq<u8>)
    requires
        canonical_response_frame(f),
    ensures
        decode_response_spec(f) is Ok,
        in_response_alphabet(decode_response_spec(f)->Ok_0),
        response_encoding(decode_response_spec(f)->Ok_0) == Ok::<Seq<u8>, FrameError>(f),
{
    let head = f.drop_last();
    let last = f.last();
    let kind = (last >> 5) & 0x07;
    lemma_response_tail_rebuilt(last);
    assert(crc5_spec(head) == last & 0x1f);
    if kind == KIND_REGISTER_READ {
        lemma_u32_le_bytes_of_read(f[5], f[6], f[7], f[8]);
        let payload = seq![f[2], f[3]] + seq![f[4]] + u32_le_bytes(le_u32_at(f, 5));
        assert(head =~= seq![0xAAu8, 0x55u8] + payload);
        assert(f =~= head.push(last));
    } else if kind == KIND_NONCE_FOUND {
        lemma_u32_le_bytes_of_read(f[3], f[4], f[5], f[6]);
        if f.len() == 11 {
            let core = le_u16(f[8], f[9]);
            assert(u16_le_bytes(core) =~= seq![f[8], f[9]]);
            let payload = seq![f[2]] + u32_le_bytes(le_u32_at(f, 3)) + seq![f[7]] + u16_le_bytes(
                core,
            );
            assert(head =~= seq![0xAAu8, 0x55u8] + payload);
            assert(f =~= head.push(last));
        } else {
            let payload = seq![f[2]] + u32_le_bytes(le_u32_at(f, 3));
            assert(head =~= seq![0xAAu8, 0x55u8] + payload);
            assert(f =~= head.push(last));
        }
    } else {
        lemma_u32_le_bytes_of_read(f[2], f[3], f[4], f[5]);
        let payload = u32_le_bytes(le_u32_at(f, 2));
        assert(head =~= seq![0xAAu8, 0x55u8] + payload);
        assert(f =~= head.push(last));
    }
}

/// Blocks of 32 bytes laid end to end are found again at every 32nd byte.
proof fn lemma_concat_blocks(blocks: Seq<Seq<u8>>)
    requires
        forall|i: int| 0 <= i < blocks.len() ==> (#[trigger] blocks[i]).len() == 32,
    ensures
        concat_blocks(blocks).len() == 32 * blocks.len(),
        forall|i: int|
            0 <= i < blocks.len() ==> #[trigger] concat_blocks(blocks).subrange(
                32 * i,
                32 * i + 32,
            ) == blocks[i],
    decreases blocks.len(),
{
    if blocks.len() > 0 {
        let front = blocks.drop_last();
        assert forall|i: int| 0 <= i < front.len() implies (#[trigger] front[i]).len() == 32 by {
            assert(front[i] == blocks[i]);
        }
        lemma_concat_blocks(front);
        let all = concat_blocks(blocks);
        assert(all == concat_blocks(front) + blocks.last());
        assert forall|i: int| 0 <= i < blocks.len() implies #[trigger] all.subrange(
            32 * i,
            32 * i + 32,
        ) == blocks[i] by {
            if i < front.len() {
                assert(all.subrange(32 * i, 32 * i + 32) =~= concat_blocks(front).subrange(
                    32 * i,
                    32 * i + 32,
                ));
                assert(front[i] == blocks[i]);
            } else {
                assert(all.subrange(32 * i, 32 * i + 32) =~= blocks.last());
            }
        }
    }
}

/// Decoding undoes encoding for jobs in the midstate format: the frame of a
/// job with one to four midstates has `18 + 32 * n` bytes, announces that
/// length, and reads back as the job with every midstate.
pub proof fn lemma_decode_encoded_midstate_job(job: JobMidstateFormatView)
    requires
        midstate_job_encodable(job),
        forall|i: int| 0 <= i < job.midstates.len() ==> (#[trigger] job.midstates[i]).len() == 32,
    ensures
        midstate_job_frame(job).len() == 18 + 32 * job.midstates.len(),
        midstate_job_frame(job)[3] == midstate_job_frame(job).len(),
        decode_mining_job_spec(midstate_job_frame(job), midstate_job_frame(job)[3] as usize)
            == FrameContentView::Command(CommandView::MiningJob(MiningJobDataView::Midstate(job))),
{
    let f = midstate_job_frame(job);
    let n = job.midstates.len();
    let blocks = concat_blocks(job.midstates);
    lemma_concat_blocks(job.midstates);
    let fields = seq![job.job_id, job.midstate_num] + u32_le_bytes(job.nbits) + u32_le_bytes(
        job.ntime,
    ) + u32_le_bytes(job.merkle_root_lsw);
    let head = seq![0x55u8, 0xAAu8, work_type(CMD_WRITE), (18 + 32 * n) as u8] + fields;
    assert(f =~= head + blocks);
    assert(head.len() == 18);
    assert(f.len() == 18 + 32 * n);
    lemma_le_u32_round_trip(job.nbits);
    lemma_le_u32_round_trip(job.ntime);
    lemma_le_u32_round_trip(job.merkle_root_lsw);
    assert(f[4] == job.job_id && f[5] == job.midstate_num);
    assert(f[6] == u32_le_bytes(job.nbits)[0] && f[7] == u32_le_bytes(job.nbits)[1] && f[8]
        == u32_le_bytes(job.nbits)[2] && f[9] == u32_le_bytes(job.nbits)[3]);
    assert(f[10] == u32_le_bytes(job.ntime)[0] && f[11] == u32_le_bytes(job.ntime)[1] && f[12]
        == u32_le_bytes(job.ntime)[2] && f[13] == u32_le_bytes(job.ntime)[3]);
    assert(f[14] == u32_le_bytes(job.merkle_root_lsw)[0] && f[15] == u32_le_bytes(
        job.merkle_root_lsw,
    )[1] && f[16] == u32_le_bytes(job.merkle_root_lsw)[2] && f[17] == u32_le_bytes(
        job.merkle_root_lsw,
    )[3]);
    let read = Seq::new(n, |i: int| midstate_at(f, MIDSTATES_AT as int, i));
    assert forall|i: int| 0 <= i < n implies read[i] == job.midstates[i] by {
        assert(f.subrange(18 + 32 * i, 18 + 32 * i + 32) =~= blocks.subrange(
            32 * i,
            32 * i + 32,
        ));
    }
    assert(read =~= job.midstates);
}

} // verus!
