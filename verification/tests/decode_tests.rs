use orchestrator::bytesutil::u64_word;
use orchestrator::error::DecodeError;
use orchestrator::events::{TransferToChainEvent, TransactionBatchExecutedEvent,
    LogicCallExecutedEvent, ValsetUpdatedEvent};
use orchestrator::types::{BatchTxInfo, EthAddr, RawLog};

fn addr32(last: u8) -> Vec<u8> {
    let mut v = vec![0u8; 31];
    v.push(last);
    v
}

fn addr20(last: u8) -> Vec<u8> {
    let mut v = vec![0u8; 19];
    v.push(last);
    v
}

fn transfer_log() -> RawLog {
    let mut topics = Vec::new();
    topics.push(vec![0u8; 32]);
    topics.push(addr32(0x11));
    topics.push(addr32(0x22));
    let mut chain_topic = b"destchain".to_vec();
    chain_topic.resize(32, 0u8);
    topics.push(chain_topic);
    let mut data = addr32(0x33);
    data.extend_from_slice(&u64_word(100));
    data.extend_from_slice(&u64_word(1));
    data.extend_from_slice(&u64_word(5));
    RawLog {
        topics,
        data,
        block_number: Some(1000),
        transaction_hash: Some(vec![0xAB; 32]),
    }
}

#[test]
fn transfer_decodes_literal_log_exactly() {
    let ev = TransferToChainEvent::from_log(&transfer_log()).unwrap();
    assert_eq!(ev.event_nonce, 5);
    assert_eq!(ev.amount, u64_word(100));
    assert_eq!(ev.fee, u64_word(1));
    assert_eq!(ev.erc20.bytes, addr20(0x11));
    assert_eq!(ev.sender.bytes, addr20(0x22));
    assert_eq!(ev.destination.bytes, addr20(0x33));
    assert_eq!(ev.destination_chain, b"destchain".to_vec());
    assert_eq!(ev.block_height, 1000);
    assert_eq!(ev.tx_hash, vec![0xAB; 32]);
}

#[test]
fn transfer_too_few_topics() {
    let mut log = transfer_log();
    log.topics.truncate(2);
    assert_eq!(
        TransferToChainEvent::from_log(&log),
        Err(DecodeError::TooFewTopics)
    );
}

#[test]
fn transfer_malformed_address_topic() {
    let mut log = transfer_log();
    log.topics[1].truncate(31);
    assert_eq!(
        TransferToChainEvent::from_log(&log),
        Err(DecodeError::AddressParseError)
    );
}

#[test]
fn transfer_truncated_data() {
    let mut log = transfer_log();
    log.data.truncate(50);
    assert_eq!(
        TransferToChainEvent::from_log(&log),
        Err(DecodeError::TruncatedData)
    );
}

#[test]
fn transfer_missing_block_height() {
    let mut log = transfer_log();
    log.block_number = None;
    assert_eq!(
        TransferToChainEvent::from_log(&log),
        Err(DecodeError::MissingBlockHeight)
    );
}

#[test]
fn transfer_missing_transaction_hash() {
    let mut log = transfer_log();
    log.transaction_hash = None;
    assert_eq!(
        TransferToChainEvent::from_log(&log),
        Err(DecodeError::MissingTransactionHash)
    );
}

#[test]
fn transfer_nonce_overflow() {
    let mut log = transfer_log();
    // A non-zero byte nine positions from the end exceeds any u64.
    let n = log.data.len();
    log.data[n - 9] = 1;
    assert_eq!(
        TransferToChainEvent::from_log(&log),
        Err(DecodeError::NumericOverflow)
    );
}

#[test]
fn decode_many_is_all_or_nothing() {
    let good = transfer_log();
    let mut bad = transfer_log();
    bad.data.truncate(10);
    let logs = vec![transfer_log(), bad, good];
    assert_eq!(
        TransferToChainEvent::from_logs(&logs),
        Err(DecodeError::TruncatedData)
    );
    let all_good = vec![transfer_log(), transfer_log()];
    assert_eq!(TransferToChainEvent::from_logs(&all_good).unwrap().len(), 2);
}

fn valset_log(first_power: u64, second_power: u64) -> RawLog {
    let mut topics = Vec::new();
    topics.push(vec![0u8; 32]);
    topics.push(u64_word(7));
    let mut data = u64_word(9);
    data.extend_from_slice(&u64_word(0));
    data.extend_from_slice(&u64_word(0));
    data.extend_from_slice(&u64_word(2));
    data.extend_from_slice(&addr32(0xAA));
    data.extend_from_slice(&addr32(0xBB));
    data.extend_from_slice(&u64_word(2));
    data.extend_from_slice(&u64_word(first_power));
    data.extend_from_slice(&u64_word(second_power));
    RawLog {
        topics,
        data,
        block_number: Some(77),
        transaction_hash: Some(vec![0xCD; 32]),
    }
}

#[test]
fn valset_decodes_members() {
    let ev = ValsetUpdatedEvent::from_log(&valset_log(100, 50)).unwrap();
    assert_eq!(ev.valset_nonce, 7);
    assert_eq!(ev.event_nonce, 9);
    assert_eq!(ev.block_height, 77);
    assert_eq!(ev.members.len(), 2);
    assert_eq!(ev.members[0].power, 100);
    assert_eq!(ev.members[0].eth_address.bytes, addr20(0xAA));
    assert_eq!(ev.members[1].power, 50);
    assert_eq!(ev.members[1].eth_address.bytes, addr20(0xBB));
    assert!(ev.members_are_sorted());
}

#[test]
fn unsorted_valset_still_decodes() {
    let ev = ValsetUpdatedEvent::from_log(&valset_log(50, 100)).unwrap();
    assert_eq!(ev.members.len(), 2);
    assert_eq!(ev.members[0].power, 50);
    assert!(!ev.members_are_sorted());
}

#[test]
fn valset_array_length_mismatch() {
    let mut log = valset_log(100, 50);
    // Overwrite the powers-length slot (at offset 192) with a different count.
    let word = u64_word(3);
    log.data[192..224].copy_from_slice(&word);
    assert_eq!(
        ValsetUpdatedEvent::from_log(&log),
        Err(DecodeError::ArrayLengthMismatch)
    );
}

#[test]
fn valset_nonce_overflow() {
    let mut log = valset_log(100, 50);
    log.topics[1] = vec![1u8; 32];
    assert_eq!(
        ValsetUpdatedEvent::from_log(&log),
        Err(DecodeError::NumericOverflow)
    );
}

#[test]
fn batch_decodes_with_fee_facts() {
    let mut topics = Vec::new();
    topics.push(vec![0u8; 32]);
    topics.push(u64_word(44));
    topics.push(addr32(0x55));
    let log = RawLog {
        topics,
        data: u64_word(77),
        block_number: Some(123),
        transaction_hash: Some(vec![0xEF; 32]),
    };
    let info = BatchTxInfo {
        gas_price: 3,
        gas_used: 5,
        fee_payer: EthAddr { bytes: addr20(0x66) },
    };
    let ev = TransactionBatchExecutedEvent::from_log(&log, &info).unwrap();
    assert_eq!(ev.batch_nonce, 44);
    assert_eq!(ev.event_nonce, 77);
    assert_eq!(ev.erc20.bytes, addr20(0x55));
    assert_eq!(ev.block_height, 123);
    assert_eq!(ev.fee_paid, 15);
    assert_eq!(ev.fee_payer.bytes, addr20(0x66));
}

#[test]
fn logic_call_decodes() {
    let mut data = vec![9u8; 32];
    data.extend_from_slice(&u64_word(3));
    data.extend_from_slice(&u64_word(8));
    data.extend_from_slice(b"xyz");
    let log = RawLog {
        topics: Vec::new(),
        data,
        block_number: Some(5),
        transaction_hash: Some(vec![0x12; 32]),
    };
    let ev = LogicCallExecutedEvent::from_log(&log).unwrap();
    assert_eq!(ev.invalidation_id, vec![9u8; 32]);
    assert_eq!(ev.invalidation_nonce, 3);
    assert_eq!(ev.event_nonce, 8);
    assert_eq!(ev.return_data, b"xyz".to_vec());
    assert_eq!(ev.block_height, 5);
}

#[test]
fn filter_keeps_only_nonces_past_cursor() {
    let mut a = TransferToChainEvent::from_log(&transfer_log()).unwrap();
    a.event_nonce = 1;
    let mut b = TransferToChainEvent::from_log(&transfer_log()).unwrap();
    b.event_nonce = 5;
    let mut c = TransferToChainEvent::from_log(&transfer_log()).unwrap();
    c.event_nonce = 3;
    let input = vec![a, b, c];
    let kept = TransferToChainEvent::filter_by_event_nonce(2, &input);
    assert_eq!(kept.len(), 2);
    assert_eq!(kept[0].event_nonce, 5);
    assert_eq!(kept[1].event_nonce, 3);
}

#[test]
fn logic_call_invalidation_nonce_overflow() {
    let mut data = vec![9u8; 32];
    data.extend_from_slice(&vec![1u8; 32]);
    data.extend_from_slice(&u64_word(8));
    let log = RawLog {
        topics: Vec::new(),
        data,
        block_number: Some(5),
        transaction_hash: Some(vec![0x12; 32]),
    };
    assert_eq!(
        LogicCallExecutedEvent::from_log(&log),
        Err(DecodeError::NumericOverflow)
    );
}
