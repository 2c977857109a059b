use mujina_miner::dissect::{
    decode_command, decode_mining_job, dissect_command, dissect_i2c_operation, dissect_response,
    emc2101_format_transaction, tps546_format_transaction, CrcStatus, FrameContent, I2cDevice,
};
use mujina_miner::i2c::I2cOperation;
use mujina_miner::protocol::{Command, MiningJobData, Response, ResponseType, TypeFlags};

fn invalid(msg: &str) -> FrameContent {
    FrameContent::Invalid(msg.to_string())
}

#[test]
fn short_and_strange_command_frames_are_invalid() {
    assert_eq!(
        dissect_command(&[0x55, 0xAA, 0x00, 0x06]),
        (invalid("Frame too short: 4 bytes"), CrcStatus::NotChecked)
    );
    assert_eq!(dissect_command(&[]), (invalid("Frame too short: 0 bytes"), CrcStatus::NotChecked));
    assert_eq!(
        dissect_command(&[0xAA, 0x55, 0x00, 0x06, 0x04, 0x0D]),
        (invalid("Invalid preamble"), CrcStatus::NotChecked)
    );
    assert_eq!(
        dissect_command(&[0x55, 0xAA, 0x00, 0x20, 0x04, 0x0D]),
        (invalid("Incomplete frame: expected 32 bytes, got 6"), CrcStatus::NotChecked)
    );
}

#[test]
fn commands_too_short_for_their_kind_are_invalid() {
    let flags = |b: u8| TypeFlags::from_byte(b);
    assert_eq!(decode_command(flags(0x00), &[0x55, 0xAA, 0x00, 0x04]), invalid("Command too short"));
    assert_eq!(
        decode_command(flags(0x01), &[0x55, 0xAA, 0x01, 0x09, 1, 2, 3, 4, 5]),
        invalid("WriteRegister too short")
    );
    assert_eq!(
        decode_command(flags(0x02), &[0x55, 0xAA, 0x02, 0x05, 1]),
        invalid("ReadRegister too short")
    );
    assert_eq!(
        decode_command(flags(0x41), &[0x55, 0xAA, 0x41, 0x08, 1, 2, 3, 4]),
        invalid("WriteRegisterBroadcast too short")
    );
}

#[test]
fn commands_are_told_apart_by_number_and_broadcast_bit() {
    let data = [0x55, 0xAA, 0x00, 0x0B, 0x10, 0x20, 0x01, 0x02, 0x03, 0x04, 0x00];
    let decode = |b: u8| decode_command(TypeFlags::from_byte(b), &data);
    assert_eq!(decode(0x00), FrameContent::Command(Command::SetChipAddress { addr: 0x10 }));
    assert_eq!(
        decode(0x01),
        FrameContent::Command(Command::WriteRegister {
            chip_addr: 0x10,
            reg_addr: 0x20,
            value: 0x04030201
        })
    );
    assert_eq!(
        decode(0x02),
        FrameContent::Command(Command::ReadRegister { chip_addr: 0x10, reg_addr: 0x20 })
    );
    assert_eq!(
        decode(0x41),
        FrameContent::Command(Command::WriteRegisterBroadcast { reg_addr: 0x10, value: 0x03020120 })
    );
    assert_eq!(
        decode(0x42),
        FrameContent::Command(Command::ReadRegisterBroadcast { reg_addr: 0x10 })
    );
    assert_eq!(
        decode(0x40),
        FrameContent::Command(Command::Unknown { type_flags: 0x00, payload: data[4..].to_vec() })
    );
    assert_eq!(
        decode(0x03),
        FrameContent::Command(Command::Unknown { type_flags: 0x00, payload: data[4..].to_vec() })
    );
}

#[test]
fn job_frames_too_short_are_invalid() {
    assert_eq!(decode_mining_job(&[0u8; 17], 17), invalid("Job frame too short"));
    let mut frame = vec![0u8; 30];
    frame[5] = 2;
    assert_eq!(decode_mining_job(&frame, 30), invalid("Midstate job too short: expected 82, got 30"));
}

#[test]
fn a_midstate_job_holds_every_midstate_it_announces() {
    for n in 0usize..=4 {
        let mut frame = vec![0u8; 18 + 32 * n];
        frame[4] = 9;
        frame[5] = n as u8;
        for i in 0..n {
            for b in frame[18 + 32 * i..50 + 32 * i].iter_mut() {
                *b = 0xA0 + i as u8;
            }
        }
        let expected: Vec<[u8; 32]> = (0..n).map(|i| [0xA0 + i as u8; 32]).collect();
        match decode_mining_job(&frame, frame.len()) {
            FrameContent::Command(Command::MiningJob(MiningJobData::Midstate(job))) => {
                assert_eq!(job.job_id, 9);
                assert_eq!(job.midstate_num as usize, n);
                assert_eq!(job.midstates, expected);
            }
            other => panic!("{other:?}"),
        }
        // Bytes behind the announced frame change nothing.
        frame.extend_from_slice(&[0x12, 0x34]);
        match decode_mining_job(&frame, 18 + 32 * n) {
            FrameContent::Command(Command::MiningJob(MiningJobData::Midstate(job))) => {
                assert_eq!(job.midstates, expected);
            }
            other => panic!("{other:?}"),
        }
        if n > 0 {
            frame.truncate(17 + 32 * n);
            assert!(matches!(decode_mining_job(&frame, frame.len()), FrameContent::Invalid(_)));
        }
    }
}

#[test]
fn a_job_of_148_bytes_is_in_the_full_format() {
    let mut frame = vec![0u8; 148];
    frame[3] = 148;
    frame[4] = 0x30;
    frame[5..9].copy_from_slice(&0x1729D72Du32.to_le_bytes());
    frame[9..13].copy_from_slice(&1700000000u32.to_le_bytes());
    frame[13..17].copy_from_slice(&0xCAFEBABEu32.to_le_bytes());
    for i in 0..128 {
        frame[17 + i] = i as u8;
    }
    match decode_mining_job(&frame, 148) {
        FrameContent::Command(Command::MiningJob(MiningJobData::Full(job))) => {
            assert_eq!(job.job_id, 0x30);
            assert_eq!(job.nbits, 0x1729D72D);
            assert_eq!(job.ntime, 1700000000);
            assert_eq!(job.merkle_root_lsw, 0xCAFEBABE);
            assert_eq!(job.midstates[0][0], 0);
            assert_eq!(job.midstates[1][0], 32);
            assert_eq!(job.midstates[3][31], 127);
        }
        other => panic!("{other:?}"),
    }
    // With another length byte the same bytes are read in the midstate
    // format, in which the sixth byte counts the midstates.
    assert_eq!(
        decode_mining_job(&frame, 147),
        invalid("Midstate job too short: expected 1458, got 148")
    );
}

#[test]
fn work_frames_are_checked_with_crc16() {
    let mut frame = mujina_miner::codec::encode_work(1, &[0u8; 14]).unwrap();
    assert_eq!(dissect_command(&frame).1, CrcStatus::Valid);
    let last = frame.len() - 1;
    frame[last] ^= 1;
    assert_eq!(dissect_command(&frame).1, CrcStatus::Invalid);
    assert!(matches!(dissect_command(&frame).0, FrameContent::Command(Command::MiningJob(_))));
}

#[test]
fn short_and_strange_responses_are_invalid() {
    assert_eq!(
        dissect_response(&[0xAA, 0x55]),
        (invalid("Response too short: 2 bytes"), CrcStatus::NotChecked)
    );
    assert_eq!(
        dissect_response(&[0x55, 0xAA, 0x00]),
        (invalid("Invalid response preamble"), CrcStatus::NotChecked)
    );
    assert_eq!(
        dissect_response(&[0xAA, 0x55, 0x01, 0x02, 0x00]).0,
        invalid("Register read response too short")
    );
    assert_eq!(
        dissect_response(&[0xAA, 0x55, 0x01, 0x02, 0x40]).0,
        invalid("Nonce response too short")
    );
    assert_eq!(
        dissect_response(&[0xAA, 0x55, 0x01, 0x02, 0xC0]).0,
        invalid("Version response too short")
    );
}

#[test]
fn responses_are_told_apart_by_their_kind() {
    assert_eq!(
        dissect_response(&[0xAA, 0x55, 0x13, 0x70, 0x00, 0x78, 0x56, 0x34, 0x12, 0x06]),
        (
            FrameContent::Response(Response::RegisterValue {
                chip_id: [0x13, 0x70],
                reg_addr: 0x00,
                value: 0x12345678
            }),
            CrcStatus::Valid
        )
    );
    assert_eq!(
        dissect_response(&[0xAA, 0x55, 0x18, 0xEF, 0xBE, 0xAD, 0xDE, 0x42]),
        (
            FrameContent::Response(Response::NonceFound {
                job_id: 0x18,
                nonce: 0xDEADBEEF,
                midstate_idx: None,
                core_id: None
            }),
            CrcStatus::Valid
        )
    );
    assert_eq!(
        dissect_response(&[0xAA, 0x55, 0x18, 0xEF, 0xBE, 0xAD, 0xDE, 0x02, 0x34, 0x12, 0x53]),
        (
            FrameContent::Response(Response::NonceFound {
                job_id: 0x18,
                nonce: 0xDEADBEEF,
                midstate_idx: Some(2),
                core_id: Some(0x1234)
            }),
            CrcStatus::Valid
        )
    );
    assert_eq!(
        dissect_response(&[0xAA, 0x55, 0x00, 0x00, 0x70, 0x13, 0xCA]),
        (FrameContent::Response(Response::Version { version: 0x13700000 }), CrcStatus::Invalid)
    );
}

#[test]
fn an_unknown_kind_is_read_as_a_register_value() {
    assert_eq!(ResponseType::from_u8(0), ResponseType::RegisterRead);
    assert_eq!(ResponseType::from_u8(2), ResponseType::NonceFound);
    assert_eq!(ResponseType::from_u8(6), ResponseType::Version);
    for other in [1u8, 3, 4, 5, 7, 8, 255] {
        assert_eq!(ResponseType::from_u8(other), ResponseType::RegisterRead);
    }
    let frame = [0xAA, 0x55, 1, 2, 3, 4, 5, 6, 7, 0x20];
    assert!(matches!(
        dissect_response(&frame).0,
        FrameContent::Response(Response::RegisterValue { .. })
    ));
}

#[test]
fn commands_and_responses_have_one_line_renderings() {
    assert_eq!(Command::SetChipAddress { addr: 4 }.to_text(), "SetChipAddress(addr=0x04)");
    assert_eq!(
        Command::WriteRegister { chip_addr: 1, reg_addr: 0xA4, value: 0x90 }.to_text(),
        "WriteReg(chip=0x01, reg=0xa4, val=0x00000090)"
    );
    assert_eq!(
        Command::ReadRegister { chip_addr: 0xFF, reg_addr: 0 }.to_text(),
        "ReadReg(chip=0xff, reg=0x00)"
    );
    assert_eq!(
        Command::WriteRegisterBroadcast { reg_addr: 0x3C, value: 0x80008540 }.to_text(),
        "WriteRegBcast(reg=0x3c, val=0x80008540)"
    );
    assert_eq!(Command::ReadRegisterBroadcast { reg_addr: 0 }.to_text(), "ReadRegBcast(reg=0x00)");
    assert_eq!(
        Command::Unknown { type_flags: 0x53, payload: vec![0; 12] }.to_text(),
        "Unknown(type=0x53, len=12)"
    );
    assert_eq!(
        Response::RegisterValue { chip_id: [0x13, 0x70], reg_addr: 0, value: 0x13700000 }.to_text(),
        "RegValue(chip=1370, reg=0x00, val=0x13700000)"
    );
    assert_eq!(
        Response::NonceFound { job_id: 24, nonce: 0xDEADBEEF, midstate_idx: None, core_id: None }
            .to_text(),
        "NonceFound(job=24, nonce=0xdeadbeef)"
    );
    assert_eq!(
        Response::NonceFound { job_id: 24, nonce: 1, midstate_idx: Some(3), core_id: Some(300) }
            .to_text(),
        "NonceFound(job=24, nonce=0x00000001, midstate=3, core=300)"
    );
    assert_eq!(Response::Version { version: 0x13700000 }.to_text(), "Version(0x13700000)");
    assert_eq!(
        Response::Unknown { response_type: 5, payload: vec![] }.to_text(),
        "Unknown(type=0x05, len=0)"
    );
    assert_eq!(CrcStatus::Valid.to_text(), "CRC OK");
    assert_eq!(CrcStatus::Invalid.to_text(), "CRC FAIL");
    assert_eq!(CrcStatus::NotChecked.to_text(), "");
}

#[test]
fn job_renderings_name_id_and_bits() {
    let frame = mujina_miner::codec::encode_work(1, &[7, 1, 0xFF, 0xFF, 0x00, 0x1A]).unwrap();
    assert_eq!(dissect_command(&frame).0, invalid("Job frame too short"));
    let mut frame = vec![0u8; 52];
    frame[4] = 7;
    frame[5] = 1;
    frame[6..10].copy_from_slice(&0x1A00FFFFu32.to_le_bytes());
    match decode_mining_job(&frame, 52) {
        FrameContent::Command(c) => {
            assert_eq!(c.to_text(), "MiningJob(Midstate(id=7, num=1, nbits=0x1a00ffff))")
        }
        other => panic!("{other:?}"),
    }
    let mut full = vec![0u8; 148];
    full[4] = 200;
    full[5..9].copy_from_slice(&0x1A00FFFFu32.to_le_bytes());
    match decode_mining_job(&full, 148) {
        FrameContent::Command(c) => {
            assert_eq!(c.to_text(), "MiningJob(Full(id=200, nbits=0x1a00ffff))")
        }
        other => panic!("{other:?}"),
    }
}

#[test]
fn register_accesses_are_worded_by_device() {
    assert_eq!(emc2101_format_transaction(0x00, Some(&[0x1F]), true), "READ INTERNAL_TEMP=[1f]");
    assert_eq!(emc2101_format_transaction(0x4C, Some(&[0x20, 0x01]), false), "WRITE FAN_SETTING=[20, 01]");
    assert_eq!(emc2101_format_transaction(0xFE, None, true), "READ MFG_ID");
    assert_eq!(emc2101_format_transaction(0x4A, None, false), "WRITE REG[0x4a]");
    assert_eq!(emc2101_format_transaction(0x77, Some(&[]), true), "READ UNKNOWN=[]");
    assert_eq!(emc2101_format_transaction(0x01, None, true), "READ EXTERNAL_TEMP_HIGH");
    assert_eq!(emc2101_format_transaction(0xFD, None, true), "READ PRODUCT_ID");
    assert_eq!(emc2101_format_transaction(0xFF, None, true), "READ REVISION");
    assert_eq!(tps546_format_transaction(0x79, Some(&[0x02, 0x00]), true), "READ STATUS_WORD=[02, 00]");
    assert_eq!(tps546_format_transaction(0x01, Some(&[0x80]), false), "WRITE OPERATION=[80]");
    assert_eq!(tps546_format_transaction(0xAD, None, true), "READ IC_DEVICE_ID");
    assert_eq!(tps546_format_transaction(0x03, None, false), "WRITE CMD[0x03]");
    assert_eq!(tps546_format_transaction(0x03, None, true), "READ UNKNOWN");
}

fn operation(
    address: u8,
    register: Option<u8>,
    write_data: Option<Vec<u8>>,
    read_data: Option<Vec<u8>>,
) -> I2cOperation {
    I2cOperation { start_time: 5, end_time: 9, address, register, write_data, read_data }
}

#[test]
fn operations_are_dissected_by_address() {
    let fan = dissect_i2c_operation(&operation(0x4C, Some(0x00), None, Some(vec![0x2A])));
    assert_eq!(fan.device, I2cDevice::Emc2101);
    assert_eq!(fan.operation, "EMC2101 READ INTERNAL_TEMP=[2a]");
    assert_eq!(fan.raw_data, vec![0x2A]);
    assert_eq!(fan.timestamp, 5);
    assert_eq!(fan.address, 0x4C);

    let power = dissect_i2c_operation(&operation(0x24, Some(0x01), Some(vec![0x01, 0x80]), None));
    assert_eq!(power.device, I2cDevice::Tps546);
    assert_eq!(power.operation, "TPS546 WRITE OPERATION=[01, 80]");
    assert_eq!(power.raw_data, vec![0x01, 0x80]);

    let both = dissect_i2c_operation(&operation(0x24, Some(0x79), Some(vec![0x00]), Some(vec![1, 2])));
    assert_eq!(both.operation, "TPS546 READ STATUS_WORD=[01, 02]");
    assert_eq!(both.raw_data, vec![0x00]);

    let read = dissect_i2c_operation(&operation(0x50, Some(0x10), None, Some(vec![0xAA, 0xBB])));
    assert_eq!(read.device, I2cDevice::Unknown);
    assert_eq!(read.operation, "READ [0x10]=[aa, bb]");
    let write = dissect_i2c_operation(&operation(0x50, Some(0x10), Some(vec![0x10, 0x01]), None));
    assert_eq!(write.operation, "WRITE [0x10]=[10, 01]");
    let bare = dissect_i2c_operation(&operation(0x50, Some(0x10), None, None));
    assert_eq!(bare.operation, "ACCESS [0x10]");
    assert_eq!(bare.raw_data, Vec::<u8>::new());
    let empty = dissect_i2c_operation(&operation(0x4C, None, None, None));
    assert_eq!(empty.operation, "I2C op @ 0x4c");
    assert_eq!(empty.device, I2cDevice::Emc2101);
}
