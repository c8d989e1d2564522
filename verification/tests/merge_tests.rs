use orchestrator::bytesutil::u64_word;
use orchestrator::events::{TransferToChainEvent, TransactionBatchExecutedEvent,
    LogicCallExecutedEvent, ValsetUpdatedEvent};
use orchestrator::merge::{merge_and_filter, SubmittableClaim};
use orchestrator::types::EthAddr;

fn addr(last: u8) -> EthAddr {
    let mut v = vec![0u8; 19];
    v.push(last);
    EthAddr { bytes: v }
}

fn transfer(nonce: u64) -> TransferToChainEvent {
    TransferToChainEvent {
        erc20: addr(0x11),
        sender: addr(0x22),
        destination_chain: b"destchain".to_vec(),
        destination: addr(0x33),
        amount: u64_word(100),
        fee: u64_word(1),
        event_nonce: nonce,
        block_height: 10,
        tx_hash: vec![0xAB; 32],
    }
}

fn batch(nonce: u64) -> TransactionBatchExecutedEvent {
    TransactionBatchExecutedEvent {
        batch_nonce: 4,
        block_height: 11,
        erc20: addr(0x55),
        event_nonce: nonce,
        tx_hash: vec![0xCD; 32],
        fee_paid: 15,
        fee_payer: addr(0x66),
    }
}

fn valset(nonce: u64) -> ValsetUpdatedEvent {
    ValsetUpdatedEvent {
        valset_nonce: 7,
        event_nonce: nonce,
        block_height: 12,
        members: Vec::new(),
        tx_hash: vec![0xEF; 32],
    }
}

fn logic_call(nonce: u64) -> LogicCallExecutedEvent {
    LogicCallExecutedEvent {
        invalidation_id: vec![9u8; 32],
        invalidation_nonce: 3,
        return_data: Vec::new(),
        event_nonce: nonce,
        block_height: 13,
        tx_hash: vec![0x12; 32],
    }
}

fn nonces(claims: &[SubmittableClaim]) -> Vec<u64> {
    claims.iter().map(|c| c.event_nonce()).collect()
}

#[test]
fn merge_orders_across_all_kinds() {
    let claims = merge_and_filter(
        vec![transfer(1)],
        vec![batch(2)],
        Vec::new(),
        vec![valset(3)],
        0,
    );
    assert_eq!(nonces(&claims), vec![1, 2, 3]);
    assert!(matches!(claims[0], SubmittableClaim::Transfer(_)));
    assert!(matches!(claims[1], SubmittableClaim::BatchExecuted(_)));
    assert!(matches!(claims[2], SubmittableClaim::ValsetUpdated(_)));
}

#[test]
fn merge_never_returns_cursor_or_below() {
    let claims = merge_and_filter(
        vec![transfer(1)],
        vec![batch(2)],
        vec![logic_call(4)],
        vec![valset(3)],
        2,
    );
    assert_eq!(nonces(&claims), vec![3, 4]);
    for c in &claims {
        assert!(c.event_nonce() > 2);
    }
}

#[test]
fn merge_is_noop_once_cursor_passed_everything() {
    let claims = merge_and_filter(
        vec![transfer(1)],
        vec![batch(2)],
        Vec::new(),
        vec![valset(3)],
        3,
    );
    assert!(claims.is_empty());
    let again = merge_and_filter(
        vec![transfer(1)],
        vec![batch(2)],
        Vec::new(),
        vec![valset(3)],
        3,
    );
    assert!(again.is_empty());
}

#[test]
fn merge_empty_input_is_empty_output() {
    let claims = merge_and_filter(Vec::new(), Vec::new(), Vec::new(), Vec::new(), 0);
    assert!(claims.is_empty());
}

#[test]
fn merge_collision_keeps_last_inserted() {
    // A transfer and a validator-set update sharing one nonce: the map is
    // filled with transfers first and validator sets last, so the
    // validator-set update wins.
    let claims = merge_and_filter(
        vec![transfer(5)],
        Vec::new(),
        Vec::new(),
        vec![valset(5)],
        0,
    );
    assert_eq!(claims.len(), 1);
    assert!(matches!(claims[0], SubmittableClaim::ValsetUpdated(_)));
}

#[test]
fn merge_sorts_unordered_input() {
    let claims = merge_and_filter(
        vec![transfer(9), transfer(2), transfer(6)],
        Vec::new(),
        vec![logic_call(4)],
        Vec::new(),
        0,
    );
    assert_eq!(nonces(&claims), vec![2, 4, 6, 9]);
}
