use orchestrator::bytesutil::u64_word;
use orchestrator::confirm::{confirm, encode_valset_confirm, key_in_range, Confirmation,
    ConfirmationTarget, UnsignedArtifact};
use orchestrator::error::GravityError;
use orchestrator::main_loop::{SignerAction, SignerEvent, SignerLoop, SignerPhase};
use orchestrator::types::{BatchTx, ChainStatus, ContractCallTx, Erc20Token, EthAddr, SignerSetTx,
    ValsetMember};

const SECP256K1_ORDER_BYTES: [u8; 32] = [
    0xFF, 0xFF, 0xFF, 0xFF, 0xFF, 0xFF, 0xFF, 0xFF, 0xFF, 0xFF, 0xFF, 0xFF, 0xFF, 0xFF, 0xFF,
    0xFE, 0xBA, 0xAE, 0xDC, 0xE6, 0xAF, 0x48, 0xA0, 0x3B, 0xBF, 0xD2, 0x5E, 0x8C, 0xD0, 0x36,
    0x41, 0x41,
];

fn addr(last: u8) -> EthAddr {
    let mut v = vec![0u8; 19];
    v.push(last);
    EthAddr { bytes: v }
}

fn sample_valset() -> SignerSetTx {
    SignerSetTx {
        nonce: 5,
        members: vec![ValsetMember { power: 100, eth_address: addr(0x11) }],
    }
}

#[test]
fn key_range_check_matches_curve_order() {
    assert!(!key_in_range(&[0u8; 32]));
    let mut one = [0u8; 32];
    one[31] = 1;
    assert!(key_in_range(&one));
    assert!(key_in_range(&[1u8; 32]));
    assert!(!key_in_range(&SECP256K1_ORDER_BYTES));
    let mut below_order = SECP256K1_ORDER_BYTES;
    below_order[31] = 0x40;
    assert!(key_in_range(&below_order));
    assert!(!key_in_range(&[0xFF; 32]));
}

#[test]
fn valset_confirm_encoding_is_slot_exact() {
    let gid = b"id".to_vec();
    let valset = SignerSetTx { nonce: 1, members: Vec::new() };
    let mut expected = b"id".to_vec();
    expected.resize(32, 0u8);
    let mut tag = b"checkpoint".to_vec();
    tag.resize(32, 0u8);
    expected.extend_from_slice(&tag);
    expected.extend_from_slice(&u64_word(1));
    expected.extend_from_slice(&u64_word(0));
    assert_eq!(encode_valset_confirm(&gid, &valset), expected);
}

#[test]
fn valset_confirm_encoding_includes_members() {
    let gid = b"id".to_vec();
    let valset = sample_valset();
    let encoded = encode_valset_confirm(&gid, &valset);
    // gid slot + tag slot + nonce + count + (power word + address slot)
    assert_eq!(encoded.len(), 32 * 6);
    assert_eq!(&encoded[128..160], u64_word(100).as_slice());
    assert_eq!(&encoded[160..172], &[0u8; 12]);
    assert_eq!(&encoded[172..192], valset.members[0].eth_address.bytes.as_slice());
}

#[test]
fn confirm_signature_matches_the_signing_library() {
    let key_bytes = [1u8; 32];
    let gid = b"test-gravity".to_vec();
    let valset = sample_valset();
    let c: Confirmation = confirm(
        &UnsignedArtifact::SignerSet(sample_valset()),
        &key_bytes,
        &gid,
    )
    .unwrap();
    assert_eq!(c.signature.len(), 65);
    assert!(matches!(c.target, ConfirmationTarget::SignerSet { nonce: 5 }));

    let key = clarity::PrivateKey::from_bytes(key_bytes).unwrap();
    let msg = encode_valset_confirm(&gid, &valset);
    let expected_sig = key.sign_ethereum_msg(&msg).to_bytes().to_vec();
    assert_eq!(c.signature, expected_sig);
    assert_ne!(c.signature, msg);
    assert_eq!(c.signer.bytes, key.to_address().as_bytes().to_vec());
}

#[test]
fn confirm_rejects_invalid_key() {
    let r = confirm(
        &UnsignedArtifact::SignerSet(sample_valset()),
        &[0u8; 32],
        &b"test".to_vec(),
    );
    assert_eq!(r, Err(GravityError::InvalidSigningKey));
    let r2 = confirm(
        &UnsignedArtifact::SignerSet(sample_valset()),
        &SECP256K1_ORDER_BYTES,
        &b"test".to_vec(),
    );
    assert_eq!(r2, Err(GravityError::InvalidSigningKey));
}

#[test]
fn confirm_rejects_oversized_gravity_id() {
    let r = confirm(
        &UnsignedArtifact::SignerSet(sample_valset()),
        &[1u8; 32],
        &vec![0x61u8; 33],
    );
    assert_eq!(r, Err(GravityError::MalformedGravityId));
}

#[test]
fn confirm_rejects_short_invalidation_scope() {
    let call = ContractCallTx { invalidation_scope: vec![9u8; 31], invalidation_nonce: 2 };
    let r = confirm(&UnsignedArtifact::ContractCall(call), &[1u8; 32], &b"test".to_vec());
    assert_eq!(r, Err(GravityError::MalformedInvalidationScope));
}

#[test]
fn confirm_signs_batches_and_calls() {
    let key = [1u8; 32];
    let gid = b"test".to_vec();
    let b = BatchTx { nonce: 9, token_contract: addr(0x44), batch_timeout: 100 };
    let cb = confirm(&UnsignedArtifact::Batch(b), &key, &gid).unwrap();
    assert!(matches!(cb.target, ConfirmationTarget::Batch { nonce: 9, .. }));
    assert_eq!(cb.signature.len(), 65);
    let call = ContractCallTx { invalidation_scope: vec![9u8; 32], invalidation_nonce: 2 };
    let cc = confirm(&UnsignedArtifact::ContractCall(call), &key, &gid).unwrap();
    assert!(matches!(
        cc.target,
        ConfirmationTarget::ContractCall { invalidation_nonce: 2, .. }
    ));
    assert_ne!(cb.signature, cc.signature);
}

#[test]
fn signer_iteration_signs_and_moves_through_stages() {
    let signer = SignerLoop::new([1u8; 32], b"test-gravity".to_vec());
    let (signer, action) = signer.step(SignerEvent::Tick);
    assert!(matches!(action, SignerAction::QueryHealth));
    let (signer, action) = signer.step(SignerEvent::HealthReport {
        external: Some(500),
        destination: Some(ChainStatus::Moving { block_height: 40 }),
    });
    assert!(matches!(action, SignerAction::FetchUnsignedValsets));
    let (signer, action) = signer.step(SignerEvent::ValsetsFetched {
        result: Some(vec![sample_valset()]),
    });
    match action {
        SignerAction::SubmitConfirmations { confirmations } => {
            assert_eq!(confirmations.len(), 1);
            assert!(matches!(
                confirmations[0].target,
                ConfirmationTarget::SignerSet { nonce: 5 }
            ));
        }
        _ => panic!("expected confirmations to submit"),
    }
    let (signer, action) = signer.step(SignerEvent::SubmitResult { error: None });
    assert!(matches!(action, SignerAction::FetchUnsignedBatch));
    let (signer, action) = signer.step(SignerEvent::BatchFetched { result: Some(None) });
    assert!(matches!(action, SignerAction::FetchUnsignedLogicCalls));
    let (signer, action) = signer.step(SignerEvent::LogicCallsFetched {
        result: Some(Vec::new()),
    });
    assert!(matches!(action, SignerAction::Sleep));
    assert!(matches!(signer.phase, SignerPhase::Idle));
}

#[test]
fn signer_failed_fetch_does_not_block_later_stages() {
    let signer = SignerLoop::new([1u8; 32], b"test".to_vec());
    let (signer, _) = signer.step(SignerEvent::Tick);
    let (signer, _) = signer.step(SignerEvent::HealthReport {
        external: Some(500),
        destination: Some(ChainStatus::Moving { block_height: 40 }),
    });
    let (signer, action) = signer.step(SignerEvent::ValsetsFetched { result: None });
    assert!(matches!(action, SignerAction::FetchUnsignedBatch));
    let (_, action) = signer.step(SignerEvent::BatchFetched { result: None });
    assert!(matches!(action, SignerAction::FetchUnsignedLogicCalls));
}

#[test]
fn signer_halts_on_unusable_key() {
    let signer = SignerLoop::new([0u8; 32], b"test".to_vec());
    let (signer, _) = signer.step(SignerEvent::Tick);
    let (signer, _) = signer.step(SignerEvent::HealthReport {
        external: Some(500),
        destination: Some(ChainStatus::Moving { block_height: 40 }),
    });
    let (signer, action) = signer.step(SignerEvent::ValsetsFetched {
        result: Some(vec![sample_valset()]),
    });
    match action {
        SignerAction::Halt { error } => assert_eq!(error, GravityError::InvalidSigningKey),
        _ => panic!("expected the signer to halt"),
    }
    assert!(matches!(signer.phase, SignerPhase::Halted));
}

#[test]
fn token_record_parses_decimal_amount() {
    let token_id = clarity::Address::from_slice(&[0x11u8; 20]).unwrap().to_string();
    let t = Erc20Token::from_proto("1000000", &token_id).unwrap();
    assert_eq!(t.amount, u64_word(1000000));
    assert_eq!(t.token_contract_address.bytes, vec![0x11u8; 20]);
    assert_eq!(
        Erc20Token::from_proto("not-a-number", &token_id),
        Err(GravityError::MalformedTokenData)
    );
    assert_eq!(
        Erc20Token::from_proto("5", "0x1234"),
        Err(GravityError::MalformedTokenData)
    );
}

#[test]
fn word_encoding_is_big_endian() {
    let w = u64_word(0x0102);
    assert_eq!(w.len(), 32);
    assert_eq!(w[30], 0x01);
    assert_eq!(w[31], 0x02);
    assert_eq!(&w[0..30], &[0u8; 30]);
}

#[test]
fn token_amount_beyond_256_bits_is_rejected() {
    let token_id = clarity::Address::from_slice(&[0x11u8; 20]).unwrap().to_string();
    // 2^256 does not fit a 256-bit amount.
    let too_big =
        "115792089237316195423570985008687907853269984665640564039457584007913129639936";
    assert_eq!(
        Erc20Token::from_proto(too_big, &token_id),
        Err(GravityError::MalformedTokenData)
    );
    // 2^256 - 1 still fits.
    let max =
        "115792089237316195423570985008687907853269984665640564039457584007913129639935";
    let t = Erc20Token::from_proto(max, &token_id).unwrap();
    assert_eq!(t.amount, vec![0xFFu8; 32]);
}
