use mujina_miner::codec::{
    decode_response, encode_command, encode_work, read_register, read_register_broadcast,
    set_address, write_register, write_register_broadcast, FrameError,
};
use mujina_miner::dissect::{dissect_command, CrcStatus, FrameContent};
use mujina_miner::protocol::{
    Command, JobFullFormat, JobMidstateFormat, MiningJobData, Response, TypeFlags,
};

#[test]
fn command_frames_have_preamble_type_length_payload_and_crc() {
    assert_eq!(set_address(0x04), vec![0x55, 0xAA, 0x00, 0x06, 0x04, 0x0D]);
    assert_eq!(
        write_register(0x01, 0x02, 0x06050403),
        vec![0x55, 0xAA, 0x01, 0x0B, 0x01, 0x02, 0x03, 0x04, 0x05, 0x06, 0x08]
    );
    assert_eq!(read_register(0x01, 0x02), vec![0x55, 0xAA, 0x02, 0x07, 0x01, 0x02, 0x18]);
    assert_eq!(
        write_register_broadcast(0x28, 0x44332211),
        vec![0x55, 0xAA, 0x41, 0x0A, 0x28, 0x11, 0x22, 0x33, 0x44, 0x0C]
    );
    assert_eq!(read_register_broadcast(0x00), vec![0x55, 0xAA, 0x42, 0x06, 0x00, 0x07]);
}

#[test]
fn encode_command_sets_the_broadcast_bit() {
    assert_eq!(encode_command(2, false, &[1, 2]).unwrap()[2], 0x02);
    assert_eq!(encode_command(2, true, &[1, 2]).unwrap()[2], 0x42);
    assert_eq!(encode_command(31, true, &[]).unwrap()[2], 0x5F);
}

#[test]
fn encode_command_refuses_bad_command_numbers_and_long_payloads() {
    assert_eq!(encode_command(32, false, &[]), Err(FrameError::BadCommand));
    assert_eq!(encode_command(255, true, &[0; 40]), Err(FrameError::BadCommand));
    assert_eq!(encode_command(1, false, &[0; 28]), Err(FrameError::TooLong));
    let longest = encode_command(1, false, &[0; 27]).unwrap();
    assert_eq!(longest.len(), 32);
    assert_eq!(longest[3], 32);
}

#[test]
fn work_frames_end_in_a_crc16_over_all_but_the_preamble() {
    assert_eq!(
        encode_work(1, &[1, 2, 3]).unwrap(),
        vec![0x55, 0xAA, 0x81, 0x09, 0x01, 0x02, 0x03, 0x0B, 0xCB]
    );
    assert_eq!(encode_work(32, &[]), Err(FrameError::BadCommand));
    assert_eq!(encode_work(1, &[0; 250]), Err(FrameError::TooLong));
    assert_eq!(encode_work(1, &[0; 249]).unwrap().len(), 255);
}

#[test]
fn decoding_undoes_encoding_for_commands() {
    let commands = vec![
        Command::SetChipAddress { addr: 0x7F },
        Command::WriteRegister { chip_addr: 0x10, reg_addr: 0xA4, value: 0xDEADBEEF },
        Command::ReadRegister { chip_addr: 0x00, reg_addr: 0x00 },
        Command::WriteRegisterBroadcast { reg_addr: 0x3C, value: 0x00000001 },
        Command::ReadRegisterBroadcast { reg_addr: 0xFF },
    ];
    for command in commands {
        let frame = command.encode().unwrap();
        let (content, crc) = dissect_command(&frame);
        assert_eq!(content, FrameContent::Command(command));
        assert_eq!(crc, CrcStatus::Valid);
    }
}

#[test]
fn encoding_undoes_decoding_for_commands() {
    let frames: Vec<Vec<u8>> = vec![
        vec![0x55, 0xAA, 0x00, 0x06, 0x04, 0x0D],
        vec![0x55, 0xAA, 0x01, 0x0B, 0x01, 0x02, 0x03, 0x04, 0x05, 0x06, 0x08],
        vec![0x55, 0xAA, 0x02, 0x07, 0x01, 0x02, 0x18],
        vec![0x55, 0xAA, 0x41, 0x0A, 0x28, 0x11, 0x22, 0x33, 0x44, 0x0C],
        vec![0x55, 0xAA, 0x42, 0x06, 0x00, 0x07],
    ];
    for frame in frames {
        match dissect_command(&frame) {
            (FrameContent::Command(command), CrcStatus::Valid) => {
                assert_eq!(command.encode().unwrap(), frame);
            }
            other => panic!("{other:?}"),
        }
    }
}

#[test]
fn unknown_commands_keep_their_type_byte() {
    let command = Command::Unknown { type_flags: 0x23, payload: vec![9, 8, 7] };
    let frame = command.encode().unwrap();
    assert_eq!(&frame[..7], &[0x55, 0xAA, 0x23, 0x08, 9, 8, 7]);
    let work = Command::Unknown { type_flags: 0x83, payload: vec![] };
    assert_eq!(work.encode(), Err(FrameError::BadCommand));
    let long = Command::Unknown { type_flags: 0x03, payload: vec![0; 28] };
    assert_eq!(long.encode(), Err(FrameError::TooLong));
}

#[test]
fn response_frames_carry_kind_and_crc_in_their_last_byte() {
    let value = Response::RegisterValue { chip_id: [0x13, 0x70], reg_addr: 0x00, value: 0x12345678 };
    assert_eq!(
        value.encode().unwrap(),
        vec![0xAA, 0x55, 0x13, 0x70, 0x00, 0x78, 0x56, 0x34, 0x12, 0x06]
    );
    let nonce =
        Response::NonceFound { job_id: 0x18, nonce: 0xDEADBEEF, midstate_idx: None, core_id: None };
    assert_eq!(nonce.encode().unwrap(), vec![0xAA, 0x55, 0x18, 0xEF, 0xBE, 0xAD, 0xDE, 0x42]);
    let extended = Response::NonceFound {
        job_id: 0x18,
        nonce: 0xDEADBEEF,
        midstate_idx: Some(2),
        core_id: Some(0x1234),
    };
    assert_eq!(
        extended.encode().unwrap(),
        vec![0xAA, 0x55, 0x18, 0xEF, 0xBE, 0xAD, 0xDE, 0x02, 0x34, 0x12, 0x53]
    );
    let version = Response::Version { version: 0x13700000 };
    assert_eq!(version.encode().unwrap(), vec![0xAA, 0x55, 0x00, 0x00, 0x70, 0x13, 0xCB]);
}

#[test]
fn decoding_undoes_encoding_for_responses() {
    let responses = vec![
        Response::RegisterValue { chip_id: [0x13, 0x70], reg_addr: 0x08, value: 0xCAFEF00D },
        Response::NonceFound { job_id: 7, nonce: 1, midstate_idx: None, core_id: None },
        Response::NonceFound { job_id: 7, nonce: 1, midstate_idx: Some(3), core_id: Some(511) },
        Response::Version { version: 0x13660000 },
        Response::Unknown { response_type: 5, payload: vec![1, 2, 3] },
    ];
    for response in responses {
        let frame = response.encode().unwrap();
        assert_eq!(decode_response(&frame), Ok(response));
    }
}

#[test]
fn encoding_undoes_decoding_for_responses() {
    let frames: Vec<Vec<u8>> = vec![
        vec![0xAA, 0x55, 0x13, 0x70, 0x00, 0x78, 0x56, 0x34, 0x12, 0x06],
        vec![0xAA, 0x55, 0x18, 0xEF, 0xBE, 0xAD, 0xDE, 0x42],
        vec![0xAA, 0x55, 0x18, 0xEF, 0xBE, 0xAD, 0xDE, 0x02, 0x34, 0x12, 0x53],
        vec![0xAA, 0x55, 0x00, 0x00, 0x70, 0x13, 0xCB],
    ];
    for frame in frames {
        assert_eq!(decode_response(&frame).unwrap().encode().unwrap(), frame);
    }
}

#[test]
fn decode_response_names_each_fault() {
    assert_eq!(decode_response(&[0xAA, 0x55]), Err(FrameError::TooShort));
    assert_eq!(decode_response(&[]), Err(FrameError::TooShort));
    assert_eq!(
        decode_response(&[0x55, 0xAA, 0x00, 0x00, 0x70, 0x13, 0xCB]),
        Err(FrameError::BadPreamble)
    );
    assert_eq!(
        decode_response(&[0xAA, 0x55, 0x00, 0x00, 0x70, 0x13, 0xCA]),
        Err(FrameError::BadCrc)
    );
    // A version response that is cut short, with the checksum made right.
    let mut short = vec![0xAA, 0x55, 0x00, 0x00, 0x70];
    let crc = mujina_miner::crc::crc5(&short);
    short.push(0xC0 | crc);
    assert_eq!(decode_response(&short), Err(FrameError::BadLength));
}

#[test]
fn responses_that_cannot_be_sent_are_refused() {
    let half = Response::NonceFound { job_id: 1, nonce: 2, midstate_idx: Some(1), core_id: None };
    assert_eq!(half.encode(), Err(FrameError::NotEncodable));
    let wide = Response::Unknown { response_type: 8, payload: vec![] };
    assert_eq!(wide.encode(), Err(FrameError::NotEncodable));
}

#[test]
fn type_flags_split_and_pack() {
    let flags = TypeFlags::from_byte(0xC1);
    assert_eq!(flags, TypeFlags { is_work: true, is_broadcast: true, cmd: 1 });
    assert_eq!(flags.to_byte(), 0xC1);
    assert_eq!(TypeFlags::from_byte(0x3F).cmd, 0x1F);
    assert_eq!(TypeFlags::from_byte(0x3F).to_byte(), 0x1F);
    assert_eq!(TypeFlags::from_byte(0x00), TypeFlags { is_work: false, is_broadcast: false, cmd: 0 });
}

#[test]
fn full_jobs_travel_in_148_bytes() {
    let mut midstates = [[0u8; 32]; 4];
    for (i, m) in midstates.iter_mut().enumerate() {
        for (k, b) in m.iter_mut().enumerate() {
            *b = (i * 32 + k) as u8;
        }
    }
    let job = JobFullFormat {
        job_id: 0x28,
        nbits: 0x1A00FFFF,
        ntime: 1700000000,
        merkle_root_lsw: 0x11223344,
        midstates,
    };
    let command = Command::MiningJob(MiningJobData::Full(job));
    let frame = command.encode().unwrap();
    assert_eq!(frame.len(), 148);
    assert_eq!(&frame[..9], &[0x55, 0xAA, 0x81, 148, 0x28, 0xFF, 0xFF, 0x00, 0x1A]);
    assert_eq!(frame[145], 0);
    let (content, crc) = dissect_command(&frame);
    assert_eq!(content, FrameContent::Command(command));
    assert_eq!(crc, CrcStatus::Valid);
}

#[test]
fn midstate_jobs_travel_with_their_midstates() {
    for n in 1usize..=4 {
        let job = JobMidstateFormat {
            job_id: 3,
            midstate_num: n as u8,
            nbits: 0x17034219,
            ntime: 0x65000000,
            merkle_root_lsw: 0xAABBCCDD,
            midstates: (0..n).map(|i| [0x11 * (i as u8 + 1); 32]).collect(),
        };
        let command = Command::MiningJob(MiningJobData::Midstate(job));
        let frame = command.encode().unwrap();
        assert_eq!(frame.len(), 18 + 32 * n);
        assert_eq!(frame[3] as usize, frame.len());
        assert_eq!(
            &frame[..18],
            &[
                0x55, 0xAA, 0x81, frame.len() as u8, 3, n as u8, 0x19, 0x42, 0x03, 0x17, 0x00,
                0x00, 0x00, 0x65, 0xDD, 0xCC, 0xBB, 0xAA
            ]
        );
        assert_eq!(&frame[18 + 32 * (n - 1)..], &[0x11 * n as u8; 32]);
        let (content, _) = dissect_command(&frame);
        assert_eq!(content, FrameContent::Command(command));
    }
}

#[test]
fn midstate_jobs_must_announce_what_they_carry() {
    let job = |midstate_num: u8, n: usize| {
        Command::MiningJob(MiningJobData::Midstate(JobMidstateFormat {
            job_id: 0,
            midstate_num,
            nbits: 0,
            ntime: 0,
            merkle_root_lsw: 0,
            midstates: vec![[0; 32]; n],
        }))
    };
    assert_eq!(job(0, 0).encode(), Err(FrameError::NotEncodable));
    assert_eq!(job(2, 1).encode(), Err(FrameError::NotEncodable));
    assert_eq!(job(5, 5).encode(), Err(FrameError::NotEncodable));
    assert!(job(4, 4).encode().is_ok());
}
