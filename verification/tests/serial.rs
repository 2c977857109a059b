use mujina_miner::dissect::{dissect_serial_frame, CrcStatus, FrameContent};
use mujina_miner::protocol::{Command, Response};
use mujina_miner::serial::{
    Channel, Direction, FrameAssembler, MultiChannelAssembler, SerialEvent, SerialFrame,
};

fn feed(assembler: &mut FrameAssembler, channel: Channel, start: u64, step: u64, bytes: &[u8]) -> Vec<SerialFrame> {
    let mut frames = Vec::new();
    for (i, b) in bytes.iter().enumerate() {
        let event =
            SerialEvent { timestamp: start + step * i as u64, channel, data: *b, error: false };
        if let Some(frame) = assembler.process(&event) {
            frames.push(frame);
        }
    }
    frames
}

#[test]
fn channels_map_to_directions() {
    assert_eq!(Direction::from(Channel::CI), Direction::HostToChip);
    assert_eq!(Direction::from(Channel::RO), Direction::ChipToHost);
}

#[test]
fn write_register_frame_on_the_command_channel() {
    let mut assembler = FrameAssembler::new(Direction::HostToChip);
    let stream = [0x55, 0xAA, 0x01, 0x0B, 0x01, 0x02, 0x03, 0x04, 0x05, 0x06, 0x08];
    let frames = feed(&mut assembler, Channel::CI, 1_000, 100, &stream);
    assert_eq!(
        frames,
        vec![SerialFrame {
            direction: Direction::HostToChip,
            start_time: 1_000,
            end_time: 2_000,
            data: stream.to_vec(),
            has_errors: false,
        }]
    );
    assert!(assembler.is_idle());
    let dissected = dissect_serial_frame(&frames[0]);
    assert_eq!(
        dissected.content,
        FrameContent::Command(Command::WriteRegister {
            chip_addr: 0x01,
            reg_addr: 0x02,
            value: 0x06050403
        })
    );
    assert_eq!(dissected.crc_status, CrcStatus::Valid);
    assert_eq!(dissected.timestamp, 1_000);
    assert_eq!(dissected.raw_data, stream.to_vec());
}

#[test]
fn a_wrong_checksum_is_reported_beside_the_decoded_command() {
    let mut assembler = FrameAssembler::new(Direction::HostToChip);
    let stream = [0x55, 0xAA, 0x01, 0x0B, 0x01, 0x02, 0x03, 0x04, 0x05, 0x06, 0x09];
    let frames = feed(&mut assembler, Channel::CI, 0, 100, &stream);
    assert_eq!(frames.len(), 1);
    let dissected = dissect_serial_frame(&frames[0]);
    assert_eq!(
        dissected.content,
        FrameContent::Command(Command::WriteRegister {
            chip_addr: 0x01,
            reg_addr: 0x02,
            value: 0x06050403
        })
    );
    assert_eq!(dissected.crc_status, CrcStatus::Invalid);
}

#[test]
fn the_length_byte_counts_the_whole_frame() {
    // The length byte says 9, so the frame ends with its ninth byte and the
    // bytes behind it belong to no frame.
    let mut assembler = FrameAssembler::new(Direction::HostToChip);
    let stream = [0x55, 0xAA, 0x01, 0x09, 0x01, 0x02, 0x03, 0x04, 0x05, 0x06, 0x07, 0x1E];
    let frames = feed(&mut assembler, Channel::CI, 0, 100, &stream);
    assert_eq!(frames.len(), 1);
    assert_eq!(frames[0].data, stream[..9].to_vec());
    assert_eq!(frames[0].end_time, 800);
    assert!(assembler.is_idle());
    let dissected = dissect_serial_frame(&frames[0]);
    assert_eq!(dissected.content, FrameContent::Invalid("WriteRegister too short".to_string()));
    assert_eq!(dissected.crc_status, CrcStatus::Invalid);
}

#[test]
fn a_gap_closes_the_frame_as_errored() {
    let mut assembler = FrameAssembler::new(Direction::HostToChip);
    assert!(feed(&mut assembler, Channel::CI, 0, 100, &[0x55, 0xAA, 0x01]).is_empty());
    assert!(!assembler.is_idle());
    // The next byte comes 5 ms after the last one.
    let late = SerialEvent { timestamp: 5_200, channel: Channel::CI, data: 0x00, error: false };
    let frame = assembler.process(&late).unwrap();
    assert_eq!(
        frame,
        SerialFrame {
            direction: Direction::HostToChip,
            start_time: 0,
            end_time: 200,
            data: vec![0x55, 0xAA, 0x01],
            has_errors: true,
        }
    );
    assert!(assembler.is_idle());
    assert_eq!(assembler.flush(), None);
}

#[test]
fn a_late_byte_can_start_the_next_frame() {
    let mut assembler = FrameAssembler::new(Direction::HostToChip);
    feed(&mut assembler, Channel::CI, 0, 100, &[0x55, 0xAA, 0x01]);
    let late = SerialEvent { timestamp: 5_200, channel: Channel::CI, data: 0x55, error: false };
    assert!(assembler.process(&late).is_some());
    assert!(!assembler.is_idle());
    let frames = feed(&mut assembler, Channel::CI, 5_300, 100, &[0xAA, 0x00, 0x06, 0x04, 0x0D]);
    assert_eq!(frames.len(), 1);
    assert_eq!(frames[0].data, vec![0x55, 0xAA, 0x00, 0x06, 0x04, 0x0D]);
    assert_eq!(frames[0].start_time, 5_200);
    assert!(!frames[0].has_errors);
}

#[test]
fn a_gap_of_exactly_one_millisecond_is_no_timeout() {
    let mut assembler = FrameAssembler::new(Direction::HostToChip);
    let frames = feed(&mut assembler, Channel::CI, 0, 1_000, &[0x55, 0xAA, 0x00, 0x06, 0x04, 0x0D]);
    assert_eq!(frames.len(), 1);
    assert!(!frames[0].has_errors);
    let mut assembler = FrameAssembler::new(Direction::HostToChip);
    let frames = feed(&mut assembler, Channel::CI, 0, 1_001, &[0x55, 0xAA, 0x00, 0x06, 0x04, 0x0D]);
    assert!(frames.iter().all(|f| f.has_errors));
}

#[test]
fn flush_gives_the_pending_frame_and_goes_idle() {
    let mut assembler = FrameAssembler::new(Direction::HostToChip);
    feed(&mut assembler, Channel::CI, 10, 100, &[0x55, 0xAA, 0x01]);
    let frame = assembler.flush().unwrap();
    assert_eq!(frame.data, vec![0x55, 0xAA, 0x01]);
    assert_eq!(frame.start_time, 10);
    assert_eq!(frame.end_time, 210);
    assert!(frame.has_errors);
    assert!(assembler.is_idle());
    assert_eq!(assembler.flush(), None);
}

#[test]
fn bytes_before_the_preamble_are_skipped() {
    let mut assembler = FrameAssembler::new(Direction::HostToChip);
    let stream = [0x00, 0x55, 0x55, 0xAA, 0x00, 0x06, 0x04, 0x0D];
    let frames = feed(&mut assembler, Channel::CI, 0, 10, &stream);
    assert_eq!(frames.len(), 1);
    assert_eq!(frames[0].data, vec![0x55, 0xAA, 0x00, 0x06, 0x04, 0x0D]);
    assert_eq!(frames[0].start_time, 20);
    assert_eq!(assembler.direction(), Direction::HostToChip);
}

#[test]
fn a_short_length_byte_ends_the_frame_at_once() {
    let mut assembler = FrameAssembler::new(Direction::HostToChip);
    let frames = feed(&mut assembler, Channel::CI, 0, 10, &[0x55, 0xAA, 0x00, 0x02]);
    assert_eq!(frames.len(), 1);
    assert_eq!(frames[0].data.len(), 4);
}

#[test]
fn chip_frames_end_at_seven_bytes() {
    let mut assembler = FrameAssembler::new(Direction::ChipToHost);
    let stream = [0xAA, 0x55, 0x00, 0x00, 0x70, 0x13, 0xCB, 0xAA, 0x55, 1, 2, 3, 4, 5];
    let frames = feed(&mut assembler, Channel::RO, 0, 10, &stream);
    assert_eq!(frames.len(), 2);
    assert_eq!(frames[0].data, stream[..7].to_vec());
    assert_eq!(frames[1].data, stream[7..].to_vec());
    let dissected = dissect_serial_frame(&frames[0]);
    assert_eq!(dissected.content, FrameContent::Response(Response::Version { version: 0x13700000 }));
    assert_eq!(dissected.crc_status, CrcStatus::Valid);
    assert_eq!(dissected.direction, Direction::ChipToHost);
}

#[test]
fn the_error_flag_of_the_last_byte_marks_the_frame() {
    let mut assembler = FrameAssembler::new(Direction::HostToChip);
    feed(&mut assembler, Channel::CI, 0, 10, &[0x55, 0xAA, 0x00, 0x06, 0x04]);
    let last = SerialEvent { timestamp: 50, channel: Channel::CI, data: 0x0D, error: true };
    assert!(assembler.process(&last).unwrap().has_errors);
}

#[test]
fn each_channel_has_its_own_assembler() {
    let mut m = MultiChannelAssembler::new();
    let ci = [0x55u8, 0xAA, 0x00, 0x06, 0x04, 0x0D];
    let ro = [0xAAu8, 0x55, 0x00, 0x00, 0x70, 0x13, 0xCB];
    for i in 0..7 {
        if i < ci.len() {
            m.process(&SerialEvent {
                timestamp: 20 * i as u64,
                channel: Channel::CI,
                data: ci[i],
                error: false,
            });
        }
        m.process(&SerialEvent {
            timestamp: 20 * i as u64 + 10,
            channel: Channel::RO,
            data: ro[i],
            error: false,
        });
    }
    let first = m.next_frame().unwrap();
    assert_eq!(first.direction, Direction::HostToChip);
    assert_eq!(first.data, ci.to_vec());
    let second = m.next_frame().unwrap();
    assert_eq!(second.direction, Direction::ChipToHost);
    assert_eq!(second.data, ro.to_vec());
    assert_eq!(m.next_frame(), None);
}

#[test]
fn flushing_both_channels_queues_host_before_chip() {
    let mut m = MultiChannelAssembler::new();
    for (i, b) in [0xAAu8, 0x55, 0x01].iter().enumerate() {
        m.process(&SerialEvent { timestamp: i as u64, channel: Channel::RO, data: *b, error: false });
    }
    for (i, b) in [0x55u8, 0xAA, 0x02].iter().enumerate() {
        m.process(&SerialEvent {
            timestamp: 10 + i as u64,
            channel: Channel::CI,
            data: *b,
            error: false,
        });
    }
    m.flush();
    let first = m.next_frame().unwrap();
    assert_eq!(first.direction, Direction::HostToChip);
    assert!(first.has_errors);
    let second = m.next_frame().unwrap();
    assert_eq!(second.direction, Direction::ChipToHost);
    assert_eq!(second.data, vec![0xAA, 0x55, 0x01]);
    assert_eq!(m.next_frame(), None);
    m.flush();
    assert_eq!(m.next_frame(), None);
}
