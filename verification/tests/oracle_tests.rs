use orchestrator::bytesutil::u64_word;
use orchestrator::error::{DecodeError, GravityError};
use orchestrator::main_loop::{OracleAction, OracleEvent, OracleLoop, OraclePhase};
use orchestrator::merge::SubmittableClaim;
use orchestrator::oracle::{check_for_events, compute_scan_window, find_latest_valset,
    get_block_delay, health_check, resync_start_height, verify_advance, EventLogs, HealthPause};
use orchestrator::submit::is_benign_submission_error;
use orchestrator::types::{BatchTxInfo, ChainStatus, EthAddr, RawLog, SignerSetTx};

fn addr32(last: u8) -> Vec<u8> {
    let mut v = vec![0u8; 31];
    v.push(last);
    v
}

fn addr20(last: u8) -> Vec<u8> {
    let mut v = vec![0u8; 19];
    v.push(last);
    v
}

#[test]
fn finality_delay_table() {
    for id in [1u64, 3, 7] {
        assert_eq!(get_block_delay(id), 6);
    }
    for id in [4u64, 5, 6, 15, 16, 2018] {
        assert_eq!(get_block_delay(id), 0);
    }
    assert_eq!(get_block_delay(999), 6);
    assert_eq!(get_block_delay(2), 6);
}

#[test]
fn window_caps_at_thousand_blocks() {
    assert_eq!(compute_scan_window(0, 5000, 0), 1000);
    assert_eq!(compute_scan_window(100, 5000, 6), 1100);
    assert_eq!(compute_scan_window(4000, 4500, 6), 4494);
    // Exactly at the cap boundary the confirmed tip wins.
    assert_eq!(compute_scan_window(0, 1000, 0), 1000);
}

#[test]
fn health_gate_distinguishes_every_pause() {
    assert_eq!(
        health_check(Some(9), Some(ChainStatus::Moving { block_height: 4 })),
        Ok((9, 4))
    );
    assert_eq!(
        health_check(Some(9), Some(ChainStatus::Syncing)),
        Err(HealthPause::DestinationSyncing)
    );
    assert_eq!(
        health_check(Some(9), Some(ChainStatus::WaitingToStart)),
        Err(HealthPause::DestinationWaitingToStart)
    );
    assert_eq!(
        health_check(Some(9), None),
        Err(HealthPause::DestinationUnreachable)
    );
    assert_eq!(
        health_check(None, Some(ChainStatus::Syncing)),
        Err(HealthPause::ExternalUnreachable)
    );
    assert_eq!(health_check(None, None), Err(HealthPause::BothUnreachable));
}

#[test]
fn advance_verification() {
    assert_eq!(verify_advance(5, 5), Err(GravityError::ClaimsNotProcessed));
    assert_eq!(verify_advance(5, 6), Ok(()));
}

#[test]
fn resync_uses_recorded_height_or_confirmed_tip() {
    assert_eq!(resync_start_height(Some(123), 4000, 6), 123);
    assert_eq!(resync_start_height(None, 4000, 6), 3994);
}

#[test]
fn latest_valset_is_required_for_bootstrap() {
    assert_eq!(
        find_latest_valset(None),
        Err(GravityError::ValsetNotFound)
    );
    let vs = SignerSetTx { nonce: 3, members: Vec::new() };
    assert_eq!(find_latest_valset(Some(vs.clone())), Ok(vs));
}

fn transfer_raw(nonce: u64) -> RawLog {
    let mut topics = Vec::new();
    topics.push(vec![0u8; 32]);
    topics.push(addr32(0x11));
    topics.push(addr32(0x22));
    let mut chain_topic = b"destchain".to_vec();
    chain_topic.resize(32, 0u8);
    topics.push(chain_topic);
    let mut data = addr32(0x33);
    data.extend_from_slice(&u64_word(100));
    data.extend_from_slice(&u64_word(1));
    data.extend_from_slice(&u64_word(nonce));
    RawLog {
        topics,
        data,
        block_number: Some(1000),
        transaction_hash: Some(vec![0xAB; 32]),
    }
}

fn valset_raw(nonce: u64) -> RawLog {
    let mut topics = Vec::new();
    topics.push(vec![0u8; 32]);
    topics.push(u64_word(7));
    let mut data = u64_word(nonce);
    data.extend_from_slice(&u64_word(0));
    data.extend_from_slice(&u64_word(0));
    data.extend_from_slice(&u64_word(0));
    data.extend_from_slice(&u64_word(0));
    RawLog {
        topics,
        data,
        block_number: Some(77),
        transaction_hash: Some(vec![0xCD; 32]),
    }
}

fn batch_raw(nonce: u64) -> (RawLog, BatchTxInfo) {
    let mut topics = Vec::new();
    topics.push(vec![0u8; 32]);
    topics.push(u64_word(44));
    topics.push(addr32(0x55));
    let log = RawLog {
        topics,
        data: u64_word(nonce),
        block_number: Some(123),
        transaction_hash: Some(vec![0xEF; 32]),
    };
    let info = BatchTxInfo {
        gas_price: 3,
        gas_used: 5,
        fee_payer: EthAddr { bytes: addr20(0x66) },
    };
    (log, info)
}

#[test]
fn scan_decodes_merges_and_filters() {
    let (blog, binfo) = batch_raw(2);
    let logs = EventLogs {
        transfers: vec![transfer_raw(1)],
        batches: vec![blog],
        batch_infos: vec![binfo],
        valsets: vec![valset_raw(3)],
        logic_calls: Vec::new(),
    };
    let claims = check_for_events(&logs, 0).unwrap();
    let got: Vec<u64> = claims.iter().map(|c| c.event_nonce()).collect();
    assert_eq!(got, vec![1, 2, 3]);
    let filtered = check_for_events(&logs, 3).unwrap();
    assert!(filtered.is_empty());
}

#[test]
fn scan_aborts_on_one_malformed_log() {
    let mut bad = transfer_raw(1);
    bad.data.truncate(4);
    let logs = EventLogs {
        transfers: vec![transfer_raw(2), bad],
        batches: Vec::new(),
        batch_infos: Vec::new(),
        valsets: vec![valset_raw(3)],
        logic_calls: Vec::new(),
    };
    assert_eq!(
        check_for_events(&logs, 0),
        Err(GravityError::InvalidEventLog(DecodeError::TruncatedData))
    );
}

#[test]
fn sequence_race_errors_are_benign() {
    assert!(is_benign_submission_error(
        &b"rpc error: account sequence mismatch, expected 5, got 4".to_vec()
    ));
    assert!(!is_benign_submission_error(&b"out of gas".to_vec()));
    assert!(!is_benign_submission_error(&b"".to_vec()));
}

fn scan_claims(n: u64) -> Vec<SubmittableClaim> {
    let logs = EventLogs {
        transfers: vec![transfer_raw(n)],
        batches: Vec::new(),
        batch_infos: Vec::new(),
        valsets: Vec::new(),
        logic_calls: Vec::new(),
    };
    check_for_events(&logs, 0).unwrap()
}

#[test]
fn oracle_iteration_advances_cursor_on_success() {
    let oracle = OracleLoop::new(10, 0);
    let (oracle, action) = oracle.step(OracleEvent::Tick);
    assert!(matches!(action, OracleAction::QueryHealth));
    let (oracle, action) = oracle.step(OracleEvent::HealthReport {
        external: Some(500),
        destination: Some(ChainStatus::Moving { block_height: 40 }),
    });
    match action {
        OracleAction::FetchLogs { start, end } => {
            assert_eq!(start, 10);
            assert_eq!(end, 500);
        }
        _ => panic!("expected a log fetch"),
    }
    let (oracle, action) = oracle.step(OracleEvent::ScanResult {
        outcome: Ok(scan_claims(1)),
        last_event_nonce: 0,
    });
    assert!(matches!(action, OracleAction::SubmitClaims { .. }));
    let (oracle, action) = oracle.step(OracleEvent::SubmitResult { error: None });
    assert!(matches!(action, OracleAction::AwaitNextBlockAndQueryNonce));
    let (oracle, action) = oracle.step(OracleEvent::NonceReport { event_nonce: 1 });
    assert!(matches!(action, OracleAction::Sleep));
    assert_eq!(oracle.start_block, 500);
    assert!(matches!(oracle.phase, OraclePhase::Idle));
}

#[test]
fn oracle_keeps_window_when_claims_not_processed() {
    let oracle = OracleLoop::new(10, 0);
    let (oracle, _) = oracle.step(OracleEvent::Tick);
    let (oracle, _) = oracle.step(OracleEvent::HealthReport {
        external: Some(500),
        destination: Some(ChainStatus::Moving { block_height: 40 }),
    });
    let (oracle, _) = oracle.step(OracleEvent::ScanResult {
        outcome: Ok(scan_claims(1)),
        last_event_nonce: 0,
    });
    let (oracle, _) = oracle.step(OracleEvent::SubmitResult { error: None });
    let (oracle, action) = oracle.step(OracleEvent::NonceReport { event_nonce: 0 });
    match action {
        OracleAction::Report { error } => assert_eq!(error, GravityError::ClaimsNotProcessed),
        _ => panic!("expected the distinct non-advance report"),
    }
    assert_eq!(oracle.start_block, 10);
}

#[test]
fn oracle_pauses_on_failed_health_check() {
    let oracle = OracleLoop::new(10, 6);
    let (oracle, _) = oracle.step(OracleEvent::Tick);
    let (oracle, action) = oracle.step(OracleEvent::HealthReport {
        external: None,
        destination: None,
    });
    assert!(matches!(action, OracleAction::Sleep));
    assert!(matches!(
        oracle.phase,
        OraclePhase::Paused { reason: HealthPause::BothUnreachable }
    ));
    // The next tick goes straight back to the health check.
    let (_, action) = oracle.step(OracleEvent::Tick);
    assert!(matches!(action, OracleAction::QueryHealth));
}

#[test]
fn oracle_empty_scan_advances_without_submission() {
    let oracle = OracleLoop::new(10, 0);
    let (oracle, _) = oracle.step(OracleEvent::Tick);
    let (oracle, _) = oracle.step(OracleEvent::HealthReport {
        external: Some(500),
        destination: Some(ChainStatus::Moving { block_height: 40 }),
    });
    let (oracle, action) = oracle.step(OracleEvent::ScanResult {
        outcome: Ok(Vec::new()),
        last_event_nonce: 0,
    });
    assert!(matches!(action, OracleAction::Sleep));
    assert_eq!(oracle.start_block, 500);
}

#[test]
fn oracle_suppresses_benign_submission_race() {
    let oracle = OracleLoop::new(10, 0);
    let (oracle, _) = oracle.step(OracleEvent::Tick);
    let (oracle, _) = oracle.step(OracleEvent::HealthReport {
        external: Some(500),
        destination: Some(ChainStatus::Moving { block_height: 40 }),
    });
    let (oracle, _) = oracle.step(OracleEvent::ScanResult {
        outcome: Ok(scan_claims(1)),
        last_event_nonce: 0,
    });
    let (oracle, action) = oracle.step(OracleEvent::SubmitResult {
        error: Some(b"account sequence mismatch".to_vec()),
    });
    assert!(matches!(action, OracleAction::Sleep));
    assert_eq!(oracle.start_block, 10);
    // A real failure is reported instead.
    let oracle2 = OracleLoop::new(10, 0);
    let (oracle2, _) = oracle2.step(OracleEvent::Tick);
    let (oracle2, _) = oracle2.step(OracleEvent::HealthReport {
        external: Some(500),
        destination: Some(ChainStatus::Moving { block_height: 40 }),
    });
    let (oracle2, _) = oracle2.step(OracleEvent::ScanResult {
        outcome: Ok(scan_claims(1)),
        last_event_nonce: 0,
    });
    let (_, action) = oracle2.step(OracleEvent::SubmitResult {
        error: Some(b"out of gas".to_vec()),
    });
    match action {
        OracleAction::Report { error } => assert_eq!(error, GravityError::SubmissionFailed),
        _ => panic!("expected a submission failure report"),
    }
}
