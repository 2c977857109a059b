use mujina_miner::job_source::stratum_v2::client::{
    after_failed_attempt, check_open_reply, check_setup_reply, open_channel_message, open_reply,
    parse_url, setup_message, setup_reply, ConnectStep, Endpoint, Protocol,
};
use mujina_miner::job_source::stratum_v2::messages::{
    job_to_template, share_to_submit, CommonMessage, NewMiningJob, PoolMessage, SetNewPrevHash,
    SetTarget, SubmitSharesStandard,
};
use mujina_miner::job_source::stratum_v2::state::{FutureJobs, ProtocolState, SequenceCounter};
use mujina_miner::job_source::stratum_v2::{Reaction, StratumV2Config, StratumV2Source};
use mujina_miner::job_source::{
    ErrorKind, GeneralPurposeBits, JobTemplate, MerkleRootKind, Share, SourceCommand, SourceError,
    SourceEvent, Target, VersionTemplate,
};

fn config() -> StratumV2Config {
    StratumV2Config {
        url: "sv2+tcp://127.0.0.1:3333".to_string(),
        worker: "rig.1".to_string(),
        password: None,
        user_agent: "mujina".to_string(),
    }
}

fn future_job(job_id: u32) -> NewMiningJob {
    NewMiningJob {
        channel_id: 7,
        job_id,
        min_ntime: None,
        version: 0x20000000,
        merkle_root: vec![0x11; 32],
    }
}

fn prev_hash(job_id: u32) -> SetNewPrevHash {
    SetNewPrevHash {
        channel_id: 7,
        job_id,
        prev_hash: vec![0x22; 32],
        min_ntime: 1700000000,
        nbits: 0x1a00ffff,
    }
}

fn template_42() -> JobTemplate {
    JobTemplate {
        id: "42".to_string(),
        prev_blockhash: [0x22; 32],
        version: VersionTemplate { base: 0x20000000, gp_bits: GeneralPurposeBits { mask: 0xffff } },
        bits: 0x1a00ffff,
        share_target: Target { le_bytes: [0xff; 32] },
        time: 1700000000,
        merkle_root: MerkleRootKind::Fixed([0x11; 32]),
    }
}

#[test]
fn test_parse_url() {
    // Valid URL
    let addr = parse_url("sv2+tcp://127.0.0.1:3333").unwrap();
    assert_eq!(addr.port, 3333);

    // Invalid prefix
    assert!(parse_url("stratum+tcp://127.0.0.1:3333").is_err());

    // Invalid address
    assert!(parse_url("sv2+tcp://invalid").is_err());
}

#[test]
fn test_share_to_submit() {
    let share = Share {
        job_id: "12345".to_string(),
        nonce: 0xdeadbeef,
        time: 1234567890,
        version: 0x20000000,
        extranonce2: None,
    };

    let submit = share_to_submit(&share, 1, 42).unwrap();
    assert_eq!(submit.channel_id, 1);
    assert_eq!(submit.sequence_number, 42);
    assert_eq!(submit.job_id, 12345);
    assert_eq!(submit.nonce, 0xdeadbeef);
    assert_eq!(submit.ntime, 1234567890);
    assert_eq!(submit.version, 0x20000000);
}

#[test]
fn test_sequence_numbers() {
    let mut state = ProtocolState::new();
    assert_eq!(state.next_sequence_number(), 0);
    assert_eq!(state.next_sequence_number(), 1);
    assert_eq!(state.next_sequence_number(), 2);
}

#[test]
fn test_clean_old_jobs() {
    let mut state = ProtocolState::new();

    // Test that new state is empty
    assert_eq!(state.future_jobs.len(), 0);

    // Clean with no jobs does nothing
    state.clean_old_jobs(5);
    assert_eq!(state.future_jobs.len(), 0);
}

#[test]
fn parse_url_names_host_and_port() {
    assert_eq!(
        parse_url("sv2+tcp://pool.example.org:34254"),
        Ok(Endpoint { host: "pool.example.org".to_string(), port: 34254 })
    );
    assert_eq!(
        parse_url("sv2+tcp://[::1]:3333"),
        Ok(Endpoint { host: "[::1]".to_string(), port: 3333 })
    );
    assert_eq!(parse_url("sv2+tcp://h:0"), Ok(Endpoint { host: "h".to_string(), port: 0 }));
    assert_eq!(parse_url("sv2+tcp://h:65535").unwrap().port, 65535);
}

#[test]
fn parse_url_tells_scheme_faults_from_endpoint_faults() {
    for url in ["", "sv2", "http://127.0.0.1:3333", "SV2+TCP://127.0.0.1:3333", "sv2+tcp:/x:1"] {
        assert_eq!(parse_url(url), Err(SourceError::InvalidScheme), "{url}");
    }
    for url in [
        "sv2+tcp://",
        "sv2+tcp://host",
        "sv2+tcp://host:",
        "sv2+tcp://:3333",
        "sv2+tcp://host:65536",
        "sv2+tcp://host:+1",
        "sv2+tcp://host:12a",
        "sv2+tcp://host:3333/",
    ] {
        assert_eq!(parse_url(url), Err(SourceError::InvalidEndpoint), "{url}");
    }
}

#[test]
fn the_pool_is_tried_three_times() {
    assert_eq!(after_failed_attempt(1), ConnectStep::RetryAfter { delay_secs: 5 });
    assert_eq!(after_failed_attempt(2), ConnectStep::RetryAfter { delay_secs: 5 });
    assert_eq!(after_failed_attempt(3), ConnectStep::GiveUp);
    assert_eq!(after_failed_attempt(4), ConnectStep::GiveUp);
}

#[test]
fn setup_asks_for_version_2_and_standard_jobs() {
    let msg = setup_message(&config(), "127.0.0.1", 3333).unwrap();
    assert_eq!(msg.protocol, Protocol::Mining);
    assert_eq!(msg.min_version, 2);
    assert_eq!(msg.max_version, 2);
    assert_eq!(msg.flags, 1);
    assert_eq!(msg.endpoint_host, "127.0.0.1");
    assert_eq!(msg.endpoint_port, 3333);
    assert_eq!(msg.device_id, "rig.1");
    assert_eq!(msg.vendor, "");
    assert_eq!(msg.hardware_version, "");
    assert_eq!(msg.firmware, "");
}

#[test]
fn names_too_long_for_a_message_are_refused() {
    let mut long = config();
    long.worker = "w".repeat(256);
    assert_eq!(setup_message(&long, "h", 1), Err(SourceError::InvalidEndpoint));
    assert_eq!(open_channel_message(&long), Err(SourceError::InvalidEndpoint));
    assert_eq!(setup_message(&config(), &"h".repeat(256), 1), Err(SourceError::InvalidEndpoint));
    long.worker = "w".repeat(255);
    assert!(setup_message(&long, &"h".repeat(255), 1).is_ok());
    // Lengths count bytes, not characters.
    long.worker = "é".repeat(128);
    assert_eq!(open_channel_message(&long), Err(SourceError::InvalidEndpoint));
}

#[test]
fn the_channel_is_opened_for_any_difficulty() {
    let msg = open_channel_message(&config()).unwrap();
    assert_eq!(msg.request_id, 0);
    assert_eq!(msg.user_identity, "rig.1");
    assert_eq!(msg.nominal_hash_rate, 1_000_000_000_000);
    assert_eq!(msg.max_target, [0xff; 32]);
}

#[test]
fn answers_to_the_setup_are_told_apart() {
    assert_eq!(
        check_setup_reply(Some(CommonMessage::SetupSuccess { used_version: 2, flags: 0 })),
        Ok((2, 0))
    );
    assert_eq!(check_setup_reply(Some(CommonMessage::SetupError)), Err(SourceError::SetupRejected));
    assert_eq!(check_setup_reply(Some(CommonMessage::Other)), Err(SourceError::UnexpectedMessage));
    assert_eq!(check_setup_reply(None), Err(SourceError::MalformedMessage));
}

#[test]
fn answers_to_the_channel_request_are_told_apart() {
    assert_eq!(check_open_reply(Some(PoolMessage::ChannelOpened(7))), Ok(7));
    assert_eq!(check_open_reply(Some(PoolMessage::ChannelRefused)), Err(SourceError::ChannelRejected));
    assert_eq!(
        check_open_reply(Some(PoolMessage::SubmitSharesSuccess)),
        Err(SourceError::UnexpectedMessage)
    );
    assert_eq!(check_open_reply(None), Err(SourceError::MalformedMessage));
}

#[test]
fn setup_answers_are_decoded_from_their_frames() {
    // SetupConnectionSuccess: used_version 2, flags 0.
    assert_eq!(setup_reply(0x01, vec![2, 0, 0, 0, 0, 0]), Ok((2, 0)));
    assert_eq!(setup_reply(0x01, vec![2, 0, 4, 0, 0, 0]), Ok((2, 4)));
    // SetupConnectionError: flags, then the error code as a short string.
    assert_eq!(setup_reply(0x02, vec![0, 0, 0, 0, 3, b'b', b'a', b'd']), Err(SourceError::SetupRejected));
    assert_eq!(setup_reply(0x01, vec![2, 0]), Err(SourceError::MalformedMessage));
    assert_eq!(setup_reply(0x15, vec![2, 0, 0, 0, 0, 0]), Err(SourceError::MalformedMessage));
}

fn open_success_payload(channel_id: u32) -> Vec<u8> {
    let mut p = Vec::new();
    p.extend_from_slice(&0u32.to_le_bytes());
    p.extend_from_slice(&channel_id.to_le_bytes());
    p.extend_from_slice(&[0xff; 32]);
    p.push(4);
    p.extend_from_slice(&[1, 2, 3, 4]);
    p.extend_from_slice(&9u32.to_le_bytes());
    p
}

#[test]
fn channel_answers_are_decoded_from_their_frames() {
    assert_eq!(open_reply(0x11, open_success_payload(7)), Ok(7));
    assert_eq!(open_reply(0x11, open_success_payload(0x01020304)), Ok(0x01020304));
    // OpenMiningChannelError: request id, then the error code.
    assert_eq!(open_reply(0x12, vec![0, 0, 0, 0, 2, b'n', b'o']), Err(SourceError::ChannelRejected));
    assert_eq!(open_reply(0x1c, vec![0; 20]), Err(SourceError::UnexpectedMessage));
    assert_eq!(open_reply(0x11, vec![0; 3]), Err(SourceError::MalformedMessage));
    assert_eq!(open_reply(0xEE, vec![]), Err(SourceError::MalformedMessage));
}

#[test]
fn happy_path_job_then_prev_hash() {
    let mut source = StratumV2Source::new(config());
    assert_eq!(source.handle_new_mining_job(future_job(42)), Ok(None));
    let event = source.handle_set_new_prev_hash(prev_hash(42)).unwrap().unwrap();
    match &event {
        SourceEvent::ReplaceJob(t) => {
            assert_eq!(t.id, "42");
            assert_eq!(t.version.base, 0x20000000);
            assert_eq!(t.bits, 0x1a00ffff);
            assert_eq!(t.time, 1700000000);
            assert_eq!(t.prev_blockhash, [0x22; 32]);
            assert_eq!(t.merkle_root, MerkleRootKind::Fixed([0x11; 32]));
        }
        other => panic!("{other:?}"),
    }
    assert_eq!(event, SourceEvent::ReplaceJob(template_42()));
}

#[test]
fn reordered_rendezvous_gives_the_same_job() {
    let mut source = StratumV2Source::new(config());
    assert_eq!(source.handle_set_new_prev_hash(prev_hash(42)), Ok(None));
    assert_eq!(
        source.handle_new_mining_job(future_job(42)),
        Ok(Some(SourceEvent::ReplaceJob(template_42())))
    );
    // Nothing more follows from either message alone.
    assert_eq!(source.handle_new_mining_job(future_job(43)), Ok(None));
}

#[test]
fn a_stale_future_job_is_not_activated() {
    let mut source = StratumV2Source::new(config());
    for id in 1..=15 {
        assert_eq!(source.handle_new_mining_job(future_job(id)), Ok(None));
    }
    assert_eq!(source.state().future_jobs.len(), 10);
    for id in 1..=5 {
        assert!(!source.state().future_jobs.contains_key(id));
    }
    for id in 6..=15 {
        assert!(source.state().future_jobs.contains_key(id));
    }
    assert_eq!(source.handle_set_new_prev_hash(prev_hash(3)), Ok(None));
    assert!(matches!(source.handle_set_new_prev_hash(prev_hash(6)), Ok(Some(SourceEvent::ReplaceJob(_)))));
}

#[test]
fn the_window_keeps_the_largest_ids_in_any_order() {
    let mut source = StratumV2Source::new(config());
    for id in [9, 2, 15, 7, 1, 12, 4, 14, 6, 11, 3, 13, 5, 10, 8] {
        source.handle_new_mining_job(future_job(id)).unwrap();
    }
    let kept: Vec<u32> = (1..=20).filter(|id| source.state().future_jobs.contains_key(*id)).collect();
    assert_eq!(kept, (6..=15).collect::<Vec<u32>>());
}

#[test]
fn share_submission_counts_from_zero() {
    let mut source = StratumV2Source::new(config());
    source.channel_opened(7);
    let share = Share {
        job_id: "42".to_string(),
        nonce: 0xdeadbeef,
        time: 1700000010,
        version: 0x20200000,
        extranonce2: None,
    };
    assert_eq!(
        source.handle_scheduler_command(SourceCommand::SubmitShare(share.clone())),
        Ok(SubmitSharesStandard {
            channel_id: 7,
            sequence_number: 0,
            job_id: 42,
            nonce: 0xdeadbeef,
            ntime: 1700000010,
            version: 0x20200000,
        })
    );
    let next = source.handle_scheduler_command(SourceCommand::SubmitShare(share)).unwrap();
    assert_eq!(next.sequence_number, 1);
}

#[test]
fn the_channel_is_set_once() {
    let mut source = StratumV2Source::new(config());
    source.channel_opened(7);
    source.channel_opened(8);
    assert_eq!(source.state().channel_id, Some(7));
    source.handle_mining_message(PoolMessage::ChannelOpened(9)).unwrap();
    assert_eq!(source.state().channel_id, Some(7));
}

#[test]
fn a_share_without_a_channel_uses_no_sequence_number() {
    let mut source = StratumV2Source::new(config());
    let share = Share { job_id: "1".to_string(), nonce: 0, time: 0, version: 0, extranonce2: None };
    assert_eq!(
        source.handle_scheduler_command(SourceCommand::SubmitShare(share.clone())),
        Err(SourceError::NoChannel)
    );
    source.channel_opened(1);
    assert_eq!(
        source.handle_scheduler_command(SourceCommand::SubmitShare(share)).unwrap().sequence_number,
        0
    );
}

#[test]
fn a_share_with_a_bad_job_id_is_a_data_fault_and_uses_a_sequence_number() {
    let mut source = StratumV2Source::new(config());
    source.channel_opened(1);
    let share =
        |id: &str| Share { job_id: id.to_string(), nonce: 0, time: 0, version: 0, extranonce2: None };
    assert_eq!(
        source.handle_scheduler_command(SourceCommand::SubmitShare(share("1"))).unwrap().sequence_number,
        0
    );
    let fault = source.handle_scheduler_command(SourceCommand::SubmitShare(share("beef")));
    assert_eq!(fault, Err(SourceError::InvalidJobId));
    assert_eq!(fault.unwrap_err().kind(), ErrorKind::Data);
    assert_eq!(
        source.handle_scheduler_command(SourceCommand::SubmitShare(share("2"))).unwrap().sequence_number,
        2
    );
}

#[test]
fn the_sequence_counter_counts_from_zero() {
    let mut counter = SequenceCounter::new();
    assert_eq!(counter.take(), 0);
    assert_eq!(counter.take(), 1);
}

#[test]
fn set_target_is_used_by_the_next_activation() {
    let mut source = StratumV2Source::new(config());
    let mut target = vec![0u8; 32];
    target[30] = 0xff;
    let reaction = source.handle_mining_message(PoolMessage::SetTarget(SetTarget {
        channel_id: 7,
        maximum_target: target.clone(),
    }));
    assert_eq!(reaction, Ok(Reaction::Nothing));
    source.handle_new_mining_job(future_job(1)).unwrap();
    match source.handle_set_new_prev_hash(prev_hash(1)) {
        Ok(Some(SourceEvent::ReplaceJob(t))) => {
            assert_eq!(t.share_target.to_le_bytes().to_vec(), target);
            assert_eq!(t.id, "1");
        }
        other => panic!("{other:?}"),
    }
}

#[test]
fn the_version_mask_gives_the_rollable_bits() {
    let job = future_job(5);
    let prev = prev_hash(5);
    let bits = |mask| job_to_template(&job, &prev, &[0xff; 32], mask).unwrap().version.gp_bits.mask;
    assert_eq!(bits(None), 0xffff);
    assert_eq!(bits(Some(0x1fffe000)), 0xffff);
    assert_eq!(bits(Some(0x00002000)), 0x0001);
    assert_eq!(bits(Some(0x10000000)), 0x8000);
    assert_eq!(bits(Some(0xe0001fff)), 0x0000);
    assert_eq!(bits(Some(0x00c00000)), 0x0600);
    assert_eq!(GeneralPurposeBits::new([0x12, 0x34]).mask, 0x1234);
    assert_eq!(GeneralPurposeBits::full().mask, 0xffff);
}

#[test]
fn a_version_mask_of_the_pool_limits_the_rolling() {
    let mut source = StratumV2Source::new(config());
    source.set_version_mask(Some(0x00ffe000));
    assert_eq!(source.state().version_mask, Some(0x00ffe000));
    source.handle_new_mining_job(future_job(1)).unwrap();
    match source.handle_set_new_prev_hash(prev_hash(1)) {
        Ok(Some(SourceEvent::ReplaceJob(t))) => assert_eq!(t.version.gp_bits.mask, 0x07ff),
        other => panic!("{other:?}"),
    }
}

#[test]
fn the_id_of_a_template_reads_back_as_the_job_id() {
    for job_id in [0u32, 1, 42, 1_000_000, u32::MAX] {
        let template =
            job_to_template(&future_job(job_id), &prev_hash(job_id), &[0xff; 32], None).unwrap();
        assert_eq!(mujina_miner::text::parse_u32(&template.id), Some(job_id));
        let share = Share {
            job_id: template.id.clone(),
            nonce: 1,
            time: 2,
            version: 3,
            extranonce2: None,
        };
        assert_eq!(share_to_submit(&share, 0, 0).unwrap().job_id, job_id);
    }
}

#[test]
fn wrong_lengths_are_data_faults() {
    let mut job = future_job(5);
    let mut prev = prev_hash(5);
    assert_eq!(
        job_to_template(&job, &prev, &[0xff; 31], None),
        Err(SourceError::InvalidTargetLength)
    );
    prev.prev_hash.push(0);
    assert_eq!(
        job_to_template(&job, &prev, &[0xff; 32], None),
        Err(SourceError::InvalidPrevHashLength)
    );
    assert_eq!(
        job_to_template(&job, &prev, &[0xff; 33], None),
        Err(SourceError::InvalidTargetLength)
    );
    job.merkle_root.pop();
    assert_eq!(
        job_to_template(&job, &prev, &[], None),
        Err(SourceError::InvalidMerkleRootLength)
    );
    for e in [
        SourceError::InvalidTargetLength,
        SourceError::InvalidPrevHashLength,
        SourceError::InvalidMerkleRootLength,
        SourceError::InvalidJobId,
    ] {
        assert_eq!(e.kind(), ErrorKind::Data);
        assert!(e.is_recoverable());
    }
}

#[test]
fn a_fault_in_activation_leaves_the_job_stored() {
    let mut source = StratumV2Source::new(config());
    let mut bad = prev_hash(1);
    bad.prev_hash = vec![0; 4];
    assert_eq!(source.handle_set_new_prev_hash(bad), Ok(None));
    assert_eq!(
        source.handle_new_mining_job(future_job(1)),
        Err(SourceError::InvalidPrevHashLength)
    );
    assert!(source.state().future_jobs.contains_key(1));
    assert_eq!(
        source.handle_set_new_prev_hash(prev_hash(1)).unwrap().map(|e| matches!(e, SourceEvent::ReplaceJob(_))),
        Some(true)
    );
}

#[test]
fn a_job_to_mine_at_once_is_activated_without_being_stored() {
    let mut source = StratumV2Source::new(config());
    let mut now = future_job(9);
    now.min_ntime = Some(1700000005);
    // No previous-block hash is pending: nothing to activate with.
    assert_eq!(source.handle_new_mining_job(now.clone()), Ok(None));
    // The pending hash names another job: nothing either.
    source.handle_set_new_prev_hash(prev_hash(42)).unwrap();
    assert_eq!(source.handle_new_mining_job(now.clone()), Ok(None));
    // The pending hash names the job: it replaces the current one.
    assert_eq!(source.handle_set_new_prev_hash(prev_hash(9)), Ok(None));
    match source.handle_new_mining_job(now) {
        Ok(Some(SourceEvent::ReplaceJob(t))) => {
            assert_eq!(t.id, "9");
            assert_eq!(t.time, 1700000000);
            assert_eq!(t.bits, 0x1a00ffff);
            assert_eq!(t.merkle_root, MerkleRootKind::Fixed([0x11; 32]));
        }
        other => panic!("{other:?}"),
    }
    assert!(!source.state().future_jobs.contains_key(9));
    assert_eq!(source.state().future_jobs.len(), 0);
}

#[test]
fn a_job_to_mine_at_once_with_bad_data_is_a_data_fault() {
    let mut source = StratumV2Source::new(config());
    source.handle_set_new_prev_hash(prev_hash(9)).unwrap();
    let mut now = future_job(9);
    now.min_ntime = Some(1);
    now.merkle_root = vec![0; 31];
    assert_eq!(source.handle_new_mining_job(now), Err(SourceError::InvalidMerkleRootLength));
}

#[test]
fn every_failure_has_its_kind() {
    assert_eq!(SourceError::ConnectFailed.kind(), ErrorKind::Transport);
    assert_eq!(SourceError::HandshakeFailed.kind(), ErrorKind::Transport);
    assert_eq!(SourceError::SetupRejected.kind(), ErrorKind::Protocol);
    assert_eq!(SourceError::ChannelRejected.kind(), ErrorKind::Protocol);
    assert_eq!(SourceError::UnexpectedMessage.kind(), ErrorKind::Protocol);
    assert_eq!(SourceError::NoChannel.kind(), ErrorKind::Protocol);
    assert_eq!(SourceError::MalformedMessage.kind(), ErrorKind::Frame);
    assert_eq!(SourceError::InvalidScheme.kind(), ErrorKind::Config);
    assert_eq!(SourceError::InvalidEndpoint.kind(), ErrorKind::Config);
    assert_eq!(SourceError::ChannelClosed.kind(), ErrorKind::Resource);
    assert!(SourceError::MalformedMessage.is_recoverable());
    assert!(!SourceError::SetupRejected.is_recoverable());
    assert!(!SourceError::ConnectFailed.is_recoverable());
    assert!(!SourceError::ChannelClosed.is_recoverable());
    assert!(!SourceError::InvalidScheme.is_recoverable());
}

fn new_mining_job_payload(channel_id: u32, job_id: u32, min_ntime: Option<u32>, version: u32) -> Vec<u8> {
    let mut p = Vec::new();
    p.extend_from_slice(&channel_id.to_le_bytes());
    p.extend_from_slice(&job_id.to_le_bytes());
    match min_ntime {
        Some(t) => {
            p.push(1);
            p.extend_from_slice(&t.to_le_bytes());
        }
        None => p.push(0),
    }
    p.extend_from_slice(&version.to_le_bytes());
    p.extend_from_slice(&[0x11; 32]);
    p
}

fn set_new_prev_hash_payload(channel_id: u32, job_id: u32) -> Vec<u8> {
    let mut p = Vec::new();
    p.extend_from_slice(&channel_id.to_le_bytes());
    p.extend_from_slice(&job_id.to_le_bytes());
    p.extend_from_slice(&[0x22; 32]);
    p.extend_from_slice(&1700000000u32.to_le_bytes());
    p.extend_from_slice(&0x1a00ffffu32.to_le_bytes());
    p
}

#[test]
fn pool_frames_are_decoded_and_handled() {
    let mut source = StratumV2Source::new(config());
    assert_eq!(
        source.handle_pool_message(0x15, new_mining_job_payload(7, 42, None, 0x20000000)),
        Ok(Reaction::Nothing)
    );
    assert_eq!(source.state().future_jobs.get(42), Some(&future_job(42)));
    assert_eq!(
        source.handle_pool_message(0x20, set_new_prev_hash_payload(7, 42)),
        Ok(Reaction::Emit(SourceEvent::ReplaceJob(template_42())))
    );
    assert_eq!(source.state().prev_hash, Some(prev_hash(42)));
}

#[test]
fn a_target_from_the_pool_is_stored() {
    let mut source = StratumV2Source::new(config());
    let mut payload = 7u32.to_le_bytes().to_vec();
    payload.extend_from_slice(&[0x5a; 32]);
    assert_eq!(source.handle_pool_message(0x21, payload), Ok(Reaction::Nothing));
    assert_eq!(source.state().current_target, Some(vec![0x5a; 32]));
}

#[test]
fn share_answers_are_reported_and_change_nothing() {
    let mut source = StratumV2Source::new(config());
    source.channel_opened(7);
    // SubmitSharesSuccess: channel, last sequence number, count, sum.
    let mut success = Vec::new();
    success.extend_from_slice(&7u32.to_le_bytes());
    success.extend_from_slice(&0u32.to_le_bytes());
    success.extend_from_slice(&1u32.to_le_bytes());
    success.extend_from_slice(&1u64.to_le_bytes());
    assert_eq!(source.handle_pool_message(0x1c, success), Ok(Reaction::ShareAccepted));
    // SubmitSharesError: channel, sequence number, error code.
    let mut error = Vec::new();
    error.extend_from_slice(&7u32.to_le_bytes());
    error.extend_from_slice(&0u32.to_le_bytes());
    error.push(10);
    error.extend_from_slice(b"stale-work");
    assert_eq!(
        source.handle_pool_message(0x1d, error),
        Ok(Reaction::ShareRejected(b"stale-work".to_vec()))
    );
    assert_eq!(source.state().channel_id, Some(7));
    assert_eq!(source.state().future_jobs.len(), 0);
}

#[test]
fn frames_that_do_not_decode_are_frame_faults() {
    let mut source = StratumV2Source::new(config());
    let fault = source.handle_pool_message(0x15, vec![1, 2, 3]);
    assert_eq!(fault, Err(SourceError::MalformedMessage));
    assert_eq!(source.handle_pool_message(0xEE, vec![]), Err(SourceError::MalformedMessage));
    assert_eq!(source.handle_decoded(None), Err(SourceError::MalformedMessage));
    assert_eq!(source.state().future_jobs.len(), 0);
}

#[test]
fn other_mining_messages_are_not_handled() {
    let mut source = StratumV2Source::new(config());
    assert_eq!(source.handle_mining_message(PoolMessage::Other), Ok(Reaction::Unhandled));
    assert_eq!(source.handle_mining_message(PoolMessage::ChannelOpened(3)), Ok(Reaction::Unhandled));
    assert_eq!(source.handle_mining_message(PoolMessage::ChannelRefused), Ok(Reaction::Unhandled));
    assert_eq!(
        source.handle_mining_message(PoolMessage::SetCustomMiningJob),
        Ok(Reaction::CustomJobIgnored)
    );
    assert_eq!(source.state().channel_id, None);
}

#[test]
fn the_job_table_keeps_one_job_for_each_id() {
    let mut jobs = FutureJobs::new();
    assert!(jobs.is_empty());
    jobs.insert(future_job(3));
    let mut newer = future_job(3);
    newer.version = 0x20000004;
    jobs.insert(newer.clone());
    jobs.insert(future_job(1));
    assert_eq!(jobs.len(), 2);
    assert_eq!(jobs.get(3), Some(&newer));
    assert_eq!(jobs.get(2), None);
    jobs.retain_largest(1);
    assert_eq!(jobs.len(), 1);
    assert!(jobs.contains_key(3));
    jobs.retain_largest(0);
    assert!(jobs.is_empty());
}

#[test]
fn a_source_starts_with_nothing_known() {
    let source = StratumV2Source::new(config());
    assert_eq!(source.config(), &config());
    assert_eq!(source.state().channel_id, None);
    assert_eq!(source.state().prev_hash, None);
    assert_eq!(source.state().current_target, None);
    assert_eq!(source.state().version_mask, None);
    assert_eq!(source.activate_job(1), Ok(None));
    let state = ProtocolState::default();
    assert_eq!(state.future_jobs.len(), 0);
    assert_eq!(state.get_future_job(1), None);
    assert_eq!(Target::from_le_bytes([1; 32]).to_le_bytes(), [1; 32]);
    assert_eq!(VersionTemplate::new(5, GeneralPurposeBits::full()).base, 5);
}
