//! The event decoder: typed domain events parsed byte-exactly from raw
//! bridge-contract log records.
//!
//! Every fixed field occupies a 32-byte big-endian slot; the only
//! variable-length array (the member list of a validator-set update) is laid
//! out as an offset/length/payload triple.  Each decoder is specified by a
//! specification-level decode function of the raw log's view, so the
//! contract states byte-for-byte which event a log yields and which distinct
//! error rejects it.

use vstd::prelude::*;
use crate::bytesutil::{be_nat, copy_bytes, copy_range, read_be_u64, strip_trailing_zeros,
    trimmed_zeros};
use crate::error::DecodeError;
use crate::types::{res_view, res_seq_view, EthAddr, RawLog, RawLogV, ValsetMember, ValsetMemberV,
    BatchTxInfo, BatchTxInfoV};

verus! {

/// The event fired when someone deposits tokens for transfer to the
/// destination chain.
#[derive(Debug, Clone, PartialEq, Eq)]
pub struct TransferToChainEvent {
    pub erc20: EthAddr,
    pub sender: EthAddr,
    pub destination_chain: Vec<u8>,
    pub destination: EthAddr,
    pub amount: Vec<u8>,
    pub fee: Vec<u8>,
    pub event_nonce: u64,
    pub block_height: u64,
    pub tx_hash: Vec<u8>,
}

pub struct TransferToChainEventV {
    pub erc20: Seq<u8>,
    pub sender: Seq<u8>,
    pub destination_chain: Seq<u8>,
    pub destination: Seq<u8>,
    pub amount: Seq<u8>,
    pub fee: Seq<u8>,
    pub event_nonce: u64,
    pub block_height: u64,
    pub tx_hash: Seq<u8>,
}

impl View for TransferToChainEvent {
    type V = TransferToChainEventV;

    open spec fn view(&self) -> TransferToChainEventV {
        TransferToChainEventV {
            erc20: self.erc20@,
            sender: self.sender@,
            destination_chain: self.destination_chain@,
            destination: self.destination@,
            amount: self.amount@,
            fee: self.fee@,
            event_nonce: self.event_nonce,
            block_height: self.block_height,
            tx_hash: self.tx_hash@,
        }
    }
}

impl DeepView for TransferToChainEvent {
    type V = TransferToChainEventV;

    open spec fn deep_view(&self) -> TransferToChainEventV {
        self@
    }
}

/// The event fired when an arbitrary logic call prepared on the destination
/// chain has been executed by the bridge contract.
#[derive(Debug, Clone, PartialEq, Eq)]
pub struct LogicCallExecutedEvent {
    pub invalidation_id: Vec<u8>,
    pub invalidation_nonce: u64,
    pub return_data: Vec<u8>,
    pub event_nonce: u64,
    pub block_height: u64,
    pub tx_hash: Vec<u8>,
}

pub struct LogicCallExecutedEventV {
    pub invalidation_id: Seq<u8>,
    pub invalidation_nonce: u64,
    pub return_data: Seq<u8>,
    pub event_nonce: u64,
    pub block_height: u64,
    pub tx_hash: Seq<u8>,
}

impl View for LogicCallExecutedEvent {
    type V = LogicCallExecutedEventV;

    open spec fn view(&self) -> LogicCallExecutedEventV {
        LogicCallExecutedEventV {
            invalidation_id: self.invalidation_id@,
            invalidation_nonce: self.invalidation_nonce,
            return_data: self.return_data@,
            event_nonce: self.event_nonce,
            block_height: self.block_height,
            tx_hash: self.tx_hash@,
        }
    }
}

impl DeepView for LogicCallExecutedEvent {
    type V = LogicCallExecutedEventV;

    open spec fn deep_view(&self) -> LogicCallExecutedEventV {
        self@
    }
}

/// The event fired when the bridge contract's validator set is updated.
#[derive(Debug, Clone, PartialEq, Eq)]
pub struct ValsetUpdatedEvent {
    pub valset_nonce: u64,
    pub event_nonce: u64,
    pub block_height: u64,
    pub members: Vec<ValsetMember>,
    pub tx_hash: Vec<u8>,
}

pub struct ValsetUpdatedEventV {
    pub valset_nonce: u64,
    pub event_nonce: u64,
    pub block_height: u64,
    pub members: Seq<ValsetMemberV>,
    pub tx_hash: Seq<u8>,
}

impl View for ValsetUpdatedEvent {
    type V = ValsetUpdatedEventV;

    open spec fn view(&self) -> ValsetUpdatedEventV {
        ValsetUpdatedEventV {
            valset_nonce: self.valset_nonce,
            event_nonce: self.event_nonce,
            block_height: self.block_height,
            members: self.members.deep_view(),
            tx_hash: self.tx_hash@,
        }
    }
}

impl DeepView for ValsetUpdatedEvent {
    type V = ValsetUpdatedEventV;

    open spec fn deep_view(&self) -> ValsetUpdatedEventV {
        self@
    }
}

/// The event fired when a batch of outbound transfers has been executed.
#[derive(Debug, Clone, PartialEq, Eq)]
pub struct TransactionBatchExecutedEvent {
    pub batch_nonce: u64,
    pub block_height: u64,
    pub erc20: EthAddr,
    pub event_nonce: u64,
    pub tx_hash: Vec<u8>,
    pub fee_paid: u128,
    pub fee_payer: EthAddr,
}

pub struct TransactionBatchExecutedEventV {
    pub batch_nonce: u64,
    pub block_height: u64,
    pub erc20: Seq<u8>,
    pub event_nonce: u64,
    pub tx_hash: Seq<u8>,
    pub fee_paid: u128,
    pub fee_payer: Seq<u8>,
}

impl View for TransactionBatchExecutedEvent {
    type V = TransactionBatchExecutedEventV;

    open spec fn view(&self) -> TransactionBatchExecutedEventV {
        TransactionBatchExecutedEventV {
            batch_nonce: self.batch_nonce,
            block_height: self.block_height,
            erc20: self.erc20@,
            event_nonce: self.event_nonce,
            tx_hash: self.tx_hash@,
            fee_paid: self.fee_paid,
            fee_payer: self.fee_payer@,
        }
    }
}

impl DeepView for TransactionBatchExecutedEvent {
    type V = TransactionBatchExecutedEventV;

    open spec fn deep_view(&self) -> TransactionBatchExecutedEventV {
        self@
    }
}

/// The members decoded from the first `count` slots of the two parallel
/// arrays at `addrs_off` (addresses) and `powers_off` (powers).  The first
/// power word that does not fit a `u64` rejects the whole list.
pub open spec fn spec_decode_members(
    data: Seq<u8>,
    addrs_off: int,
    powers_off: int,
    count: int,
) -> Result<Seq<ValsetMemberV>, DecodeError>
    decreases count,
{
    if count <= 0 {
        Ok(Seq::empty())
    } else {
        match spec_decode_members(data, addrs_off, powers_off, count - 1) {
            Ok(ms) => {
                let i = count - 1;
                let power_word = data.subrange(powers_off + 32 * i, powers_off + 32 * i + 32);
                if be_nat(power_word) > u64::MAX {
                    Err(DecodeError::NumericOverflow)
                } else {
                    Ok(
                        ms.push(
                            ValsetMemberV {
                                power: be_nat(power_word) as u64,
                                eth_address: data.subrange(
                                    addrs_off + 32 * i + 12,
                                    addrs_off + 32 * i + 32,
                                ),
                            },
                        ),
                    )
                }
            },
            Err(e) => Err(e),
        }
    }
}

pub proof fn lemma_members_err_extends(
    data: Seq<u8>,
    addrs_off: int,
    powers_off: int,
    k: int,
    count: int,
)
    requires
        0 <= k <= count,
        spec_decode_members(data, addrs_off, powers_off, k) is Err,
    ensures
        spec_decode_members(data, addrs_off, powers_off, count) == spec_decode_members(
            data,
            addrs_off,
            powers_off,
            k,
        ),
    decreases count - k,
{
    if k < count {
        lemma_members_err_extends(data, addrs_off, powers_off, k, count - 1);
    }
}

/// What `ValsetUpdatedEvent::from_log` yields: the indexed valset nonce,
/// the event nonce, then a dynamic member list whose address count and
/// power count are each read from their own length slot and must agree.
pub open spec fn spec_decode_valset(l: RawLogV) -> Result<ValsetUpdatedEventV, DecodeError> {
    if l.topics.len() < 2 {
        Err(DecodeError::TooFewTopics)
    } else if be_nat(l.topics[1]) > u64::MAX {
        Err(DecodeError::NumericOverflow)
    } else if l.data.len() < 32 {
        Err(DecodeError::TruncatedData)
    } else if be_nat(l.data.subrange(0, 32)) > u64::MAX {
        Err(DecodeError::NumericOverflow)
    } else if l.data.len() < 128 {
        Err(DecodeError::TruncatedData)
    } else if be_nat(l.data.subrange(96, 128)) > usize::MAX {
        Err(DecodeError::NumericOverflow)
    } else {
        let count = be_nat(l.data.subrange(96, 128)) as int;
        let pls = (4 + count) * 32;
        if pls + 32 > l.data.len() {
            Err(DecodeError::TruncatedData)
        } else if be_nat(l.data.subrange(pls, pls + 32)) > usize::MAX {
            Err(DecodeError::NumericOverflow)
        } else if be_nat(l.data.subrange(pls, pls + 32)) != count {
            Err(DecodeError::ArrayLengthMismatch)
        } else if pls + 32 + count * 32 > l.data.len() {
            Err(DecodeError::TruncatedData)
        } else {
            match spec_decode_members(l.data, 128, pls + 32, count) {
                Ok(ms) => {
                    if l.block_number is None {
                        Err(DecodeError::MissingBlockHeight)
                    } else if l.transaction_hash is None {
                        Err(DecodeError::MissingTransactionHash)
                    } else {
                        Ok(
                            ValsetUpdatedEventV {
                                valset_nonce: be_nat(l.topics[1]) as u64,
                                event_nonce: be_nat(l.data.subrange(0, 32)) as u64,
                                block_height: l.block_number->0,
                                members: ms,
                                tx_hash: l.transaction_hash->0,
                            },
                        )
                    }
                },
                Err(e) => Err(e),
            }
        }
    }
}

/// What `TransactionBatchExecutedEvent::from_log` yields: the indexed batch
/// nonce and token contract, the event nonce from the data payload, and the
/// fee facts recovered from the transaction-level queries.
pub open spec fn spec_decode_batch(l: RawLogV, info: BatchTxInfoV) -> Result<
    TransactionBatchExecutedEventV,
    DecodeError,
> {
    if l.topics.len() < 3 {
        Err(DecodeError::TooFewTopics)
    } else if l.topics[2].len() != 32 {
        Err(DecodeError::AddressParseError)
    } else if l.block_number is None {
        Err(DecodeError::MissingBlockHeight)
    } else if be_nat(l.data) > u64::MAX || be_nat(l.topics[1]) > u64::MAX {
        Err(DecodeError::NumericOverflow)
    } else if l.transaction_hash is None {
        Err(DecodeError::MissingTransactionHash)
    } else {
        Ok(
            TransactionBatchExecutedEventV {
                batch_nonce: be_nat(l.topics[1]) as u64,
                block_height: l.block_number->0,
                erc20: l.topics[2].skip(12),
                event_nonce: be_nat(l.data) as u64,
                tx_hash: l.transaction_hash->0,
                fee_paid: (info.gas_price as nat * info.gas_used as nat) as u128,
                fee_payer: info.fee_payer,
            },
        )
    }
}

/// What `TransferToChainEvent::from_log` yields for a given raw log: the
/// three address topics, then four 32-byte data slots holding destination,
/// amount, fee and event nonce.
pub open spec fn spec_decode_transfer(l: RawLogV) -> Result<TransferToChainEventV, DecodeError> {
    if l.topics.len() < 4 {
        Err(DecodeError::TooFewTopics)
    } else if l.topics[1].len() != 32 || l.topics[2].len() != 32 {
        Err(DecodeError::AddressParseError)
    } else if l.data.len() < 96 {
        Err(DecodeError::TruncatedData)
    } else if l.block_number is None {
        Err(DecodeError::MissingBlockHeight)
    } else if be_nat(l.data.skip(96)) > u64::MAX {
        Err(DecodeError::NumericOverflow)
    } else if l.transaction_hash is None {
        Err(DecodeError::MissingTransactionHash)
    } else {
        Ok(TransferToChainEventV {
            erc20: l.topics[1].skip(12),
            sender: l.topics[2].skip(12),
            destination_chain: trimmed_zeros(l.topics[3]),
            destination: l.data.subrange(12, 32),
            amount: l.data.subrange(32, 64),
            fee: l.data.subrange(64, 96),
            event_nonce: be_nat(l.data.skip(96)) as u64,
            block_height: l.block_number->0,
            tx_hash: l.transaction_hash->0,
        })
    }
}

/// What `LogicCallExecutedEvent::from_log` yields: three fixed data slots
/// (invalidation id, invalidation nonce, event nonce) and a free-form tail
/// of return data.
pub open spec fn spec_decode_logic_call(l: RawLogV) -> Result<
    LogicCallExecutedEventV,
    DecodeError,
> {
    if l.data.len() < 96 {
        Err(DecodeError::TruncatedData)
    } else if be_nat(l.data.subrange(64, 96)) > u64::MAX {
        Err(DecodeError::NumericOverflow)
    } else if be_nat(l.data.subrange(32, 64)) > u64::MAX {
        Err(DecodeError::NumericOverflow)
    } else if l.block_number is None {
        Err(DecodeError::MissingBlockHeight)
    } else if l.transaction_hash is None {
        Err(DecodeError::MissingTransactionHash)
    } else {
        Ok(LogicCallExecutedEventV {
            invalidation_id: l.data.subrange(0, 32),
            invalidation_nonce: be_nat(l.data.subrange(32, 64)) as u64,
            return_data: l.data.skip(96),
            event_nonce: be_nat(l.data.subrange(64, 96)) as u64,
            block_height: l.block_number->0,
            tx_hash: l.transaction_hash->0,
        })
    }
}

/// Decodes a whole sequence of logs with the per-log decode function `f`,
/// all or nothing: the first failing log's error rejects the batch.
pub open spec fn spec_decode_seq<T>(
    logs: Seq<RawLogV>,
    f: spec_fn(RawLogV) -> Result<T, DecodeError>,
) -> Result<Seq<T>, DecodeError>
    decreases logs.len(),
{
    if logs.len() == 0 {
        Ok(Seq::empty())
    } else {
        match spec_decode_seq(logs.drop_last(), f) {
            Ok(evs) => match f(logs.last()) {
                Ok(e) => Ok(evs.push(e)),
                Err(er) => Err(er),
            },
            Err(er) => Err(er),
        }
    }
}

/// Once a prefix fails to decode, every extension fails with the same
/// error.
pub proof fn lemma_decode_seq_err_extends<T>(
    logs: Seq<RawLogV>,
    f: spec_fn(RawLogV) -> Result<T, DecodeError>,
    k: int,
)
    requires
        0 <= k <= logs.len(),
        spec_decode_seq(logs.take(k), f) is Err,
    ensures
        spec_decode_seq(logs, f) == spec_decode_seq(logs.take(k), f),
    decreases logs.len() - k,
{
    if k < logs.len() {
        assert(logs.take(k + 1).drop_last() =~= logs.take(k));
        lemma_decode_seq_err_extends(logs, f, k + 1);
    } else {
        assert(logs.take(k) =~= logs);
    }
}

/// All-or-nothing decoding of a sequence of deposit logs.
pub open spec fn spec_decode_transfers(logs: Seq<RawLogV>) -> Result<
    Seq<TransferToChainEventV>,
    DecodeError,
> {
    spec_decode_seq(logs, |l: RawLogV| spec_decode_transfer(l))
}

/// All-or-nothing decoding of a sequence of validator-set update logs.
pub open spec fn spec_decode_valsets(logs: Seq<RawLogV>) -> Result<
    Seq<ValsetUpdatedEventV>,
    DecodeError,
> {
    spec_decode_seq(logs, |l: RawLogV| spec_decode_valset(l))
}

/// All-or-nothing decoding of a sequence of logic-call execution logs.
pub open spec fn spec_decode_logic_calls(logs: Seq<RawLogV>) -> Result<
    Seq<LogicCallExecutedEventV>,
    DecodeError,
> {
    spec_decode_seq(logs, |l: RawLogV| spec_decode_logic_call(l))
}

/// All-or-nothing decoding of a sequence of batch-execution logs, each
/// paired positionally with its recovered fee facts.
pub open spec fn spec_decode_batches(logs: Seq<RawLogV>, infos: Seq<BatchTxInfoV>) -> Result<
    Seq<TransactionBatchExecutedEventV>,
    DecodeError,
>
    recommends
        infos.len() == logs.len(),
    decreases logs.len(),
{
    if logs.len() == 0 {
        Ok(Seq::empty())
    } else {
        match spec_decode_batches(logs.drop_last(), infos.drop_last()) {
            Ok(evs) => match spec_decode_batch(logs.last(), infos.last()) {
                Ok(e) => Ok(evs.push(e)),
                Err(er) => Err(er),
            },
            Err(er) => Err(er),
        }
    }
}

pub proof fn lemma_decode_batches_err_extends(logs: Seq<RawLogV>, infos: Seq<BatchTxInfoV>, k: int)
    requires
        0 <= k <= logs.len(),
        logs.len() == infos.len(),
        spec_decode_batches(logs.take(k), infos.take(k)) is Err,
    ensures
        spec_decode_batches(logs, infos) == spec_decode_batches(logs.take(k), infos.take(k)),
    decreases logs.len() - k,
{
    if k < logs.len() {
        assert(logs.take(k + 1).drop_last() =~= logs.take(k));
        assert(infos.take(k + 1).drop_last() =~= infos.take(k));
        lemma_decode_batches_err_extends(logs, infos, k + 1);
    } else {
        assert(logs.take(k) =~= logs);
        assert(infos.take(k) =~= infos);
    }
}

impl ValsetUpdatedEvent {
    /// Decodes one validator-set update log, member list included.
    #[verifier::loop_isolation(false)]
    pub fn from_log(input: &RawLog) -> (r: Result<ValsetUpdatedEvent, DecodeError>)
        ensures
            res_view(r) == spec_decode_valset(input@),
    {
        let ghost l = input@;
        if input.topics.len() < 2 {
            return Err(DecodeError::TooFewTopics);
        }
        let t1: &Vec<u8> = &input.topics[1];
        proof {
            assert(t1@ == l.topics[1]);
            assert(t1@.subrange(0, t1@.len() as int) =~= l.topics[1]);
        }
        let valset_nonce = match read_be_u64(t1, 0, t1.len()) {
            Some(v) => v,
            None => {
                return Err(DecodeError::NumericOverflow);
            },
        };
        let n = input.data.len();
        if n < 32 {
            return Err(DecodeError::TruncatedData);
        }
        let event_nonce = match read_be_u64(&input.data, 0, 32) {
            Some(v) => v,
            None => {
                return Err(DecodeError::NumericOverflow);
            },
        };
        if n < 128 {
            return Err(DecodeError::TruncatedData);
        }
        let count: usize = match read_be_u64(&input.data, 96, 128) {
            Some(v) => {
                if v > usize::MAX as u64 {
                    return Err(DecodeError::NumericOverflow);
                }
                v as usize
            },
            None => {
                proof {
                    assert(usize::MAX as u64 <= u64::MAX);
                }
                return Err(DecodeError::NumericOverflow);
            },
        };
        let ghost gcount = be_nat(l.data.subrange(96, 128)) as int;
        let ghost gpls = (4 + gcount) * 32;
        let pls128: u128 = (count as u128 + 4) * 32;
        if pls128 + 32 > n as u128 {
            return Err(DecodeError::TruncatedData);
        }
        let pls = pls128 as usize;
        proof {
            assert(pls as int == gpls);
        }
        let powers_len = match read_be_u64(&input.data, pls, pls + 32) {
            Some(v) => v,
            None => {
                proof {
                    assert(usize::MAX as u64 <= u64::MAX);
                }
                return Err(DecodeError::NumericOverflow);
            },
        };
        if powers_len > usize::MAX as u64 {
            return Err(DecodeError::NumericOverflow);
        }
        if powers_len as usize != count {
            return Err(DecodeError::ArrayLengthMismatch);
        }
        if (pls128 + 32 + count as u128 * 32) > n as u128 {
            return Err(DecodeError::TruncatedData);
        }
        let powers_off = pls + 32;
        let mut members: Vec<ValsetMember> = Vec::new();
        let mut i: usize = 0;
        proof {
            assert(members.deep_view() =~= Seq::<ValsetMemberV>::empty());
        }
        while i < count
            invariant
                i <= count,
                powers_off == gpls + 32,
                gpls == (4 + count) * 32,
                powers_off + count * 32 <= n,
                n == l.data.len(),
                l == input@,
                spec_decode_members(l.data, 128, powers_off as int, i as int) == Ok::<
                    Seq<ValsetMemberV>,
                    DecodeError,
                >(members.deep_view()),
            decreases count - i,
        {
            let ghost old_members = members.deep_view();
            let p_start = powers_off + i * 32;
            let power = match read_be_u64(&input.data, p_start, p_start + 32) {
                Some(p) => p,
                None => {
                    proof {
                        assert(spec_decode_members(
                            l.data,
                            128,
                            powers_off as int,
                            i + 1 as int,
                        ) == Err::<Seq<ValsetMemberV>, DecodeError>(DecodeError::NumericOverflow));
                        lemma_members_err_extends(
                            l.data,
                            128,
                            powers_off as int,
                            i + 1 as int,
                            count as int,
                        );
                    }
                    return Err(DecodeError::NumericOverflow);
                },
            };
            let a_start = 128 + i * 32;
            proof {
                assert(a_start + 32 <= gpls);
            }
            let addr = EthAddr::from_word(&input.data, a_start);
            members.push(ValsetMember { power, eth_address: addr });
            proof {
                assert(members.deep_view() =~= old_members.push(
                    ValsetMemberV {
                        power,
                        eth_address: l.data.subrange(a_start + 12, a_start + 32),
                    },
                ));
                assert(spec_decode_members(l.data, 128, powers_off as int, i + 1 as int)
                    == Ok::<Seq<ValsetMemberV>, DecodeError>(members.deep_view()));
            }
            i += 1;
        }
        let block_height = match input.block_number {
            Some(h) => h,
            None => {
                return Err(DecodeError::MissingBlockHeight);
            },
        };
        let tx_hash = match &input.transaction_hash {
            Some(h) => copy_bytes(h),
            None => {
                return Err(DecodeError::MissingTransactionHash);
            },
        };
        proof {
            assert(spec_decode_valset(l) is Ok);
            assert(tx_hash@ == l.transaction_hash->0);
            assert(block_height == l.block_number->0);
            assert(valset_nonce == be_nat(l.topics[1]) as u64);
            assert(event_nonce == be_nat(l.data.subrange(0, 32)) as u64);
        }
        Ok(
            ValsetUpdatedEvent {
                valset_nonce,
                event_nonce,
                block_height,
                members,
                tx_hash,
            },
        )
    }
}

impl TransactionBatchExecutedEvent {
    /// Decodes one batch-execution log, given the fee facts that the two
    /// transaction-level queries recovered for the same transaction.
    pub fn from_log(input: &RawLog, info: &BatchTxInfo) -> (r: Result<
        TransactionBatchExecutedEvent,
        DecodeError,
    >)
        ensures
            res_view(r) == spec_decode_batch(input@, info@),
    {
        let ghost l = input@;
        if input.topics.len() < 3 {
            return Err(DecodeError::TooFewTopics);
        }
        let t1: &Vec<u8> = &input.topics[1];
        let t2: &Vec<u8> = &input.topics[2];
        proof {
            assert(t1@ == l.topics[1]);
            assert(t2@ == l.topics[2]);
        }
        if t2.len() != 32 {
            return Err(DecodeError::AddressParseError);
        }
        let block_height = match input.block_number {
            Some(h) => h,
            None => {
                return Err(DecodeError::MissingBlockHeight);
            },
        };
        proof {
            assert(l.data.subrange(0, l.data.len() as int) =~= l.data);
            assert(t1@.subrange(0, t1@.len() as int) =~= l.topics[1]);
        }
        let event_nonce = match read_be_u64(&input.data, 0, input.data.len()) {
            Some(v) => v,
            None => {
                return Err(DecodeError::NumericOverflow);
            },
        };
        let batch_nonce = match read_be_u64(t1, 0, t1.len()) {
            Some(v) => v,
            None => {
                return Err(DecodeError::NumericOverflow);
            },
        };
        let tx_hash = match &input.transaction_hash {
            Some(h) => copy_bytes(h),
            None => {
                return Err(DecodeError::MissingTransactionHash);
            },
        };
        let erc20 = EthAddr { bytes: copy_range(t2, 12, 32) };
        proof {
            assert(t2@.subrange(12, 32) =~= l.topics[2].skip(12));
            assert(spec_decode_batch(l, info@) is Ok);
            assert(tx_hash@ == l.transaction_hash->0);
            assert(block_height == l.block_number->0);
            assert(batch_nonce == be_nat(l.topics[1]) as u64);
            assert(event_nonce == be_nat(l.data) as u64);
            vstd::arithmetic::mul::lemma_mul_upper_bound(
                info.gas_price as int,
                u64::MAX as int,
                info.gas_used as int,
                u64::MAX as int,
            );
        }
        Ok(
            TransactionBatchExecutedEvent {
                batch_nonce,
                block_height,
                erc20,
                event_nonce,
                tx_hash,
                fee_paid: info.gas_price as u128 * info.gas_used as u128,
                fee_payer: info.fee_payer.duplicate(),
            },
        )
    }
}

impl TransferToChainEvent {
    /// Decodes one deposit log.
    pub fn from_log(input: &RawLog) -> (r: Result<TransferToChainEvent, DecodeError>)
        ensures
            res_view(r) == spec_decode_transfer(input@),
    {
        let ghost l = input@;
        if input.topics.len() < 4 {
            return Err(DecodeError::TooFewTopics);
        }
        let t1: &Vec<u8> = &input.topics[1];
        let t2: &Vec<u8> = &input.topics[2];
        let t3: &Vec<u8> = &input.topics[3];
        proof {
            assert(t1@ == l.topics[1]);
            assert(t2@ == l.topics[2]);
            assert(t3@ == l.topics[3]);
        }
        if t1.len() != 32 || t2.len() != 32 {
            return Err(DecodeError::AddressParseError);
        }
        let n = input.data.len();
        if n < 96 {
            return Err(DecodeError::TruncatedData);
        }
        let block_height = match input.block_number {
            Some(h) => h,
            None => {
                return Err(DecodeError::MissingBlockHeight);
            },
        };
        proof {
            assert(l.data.subrange(96, n as int) =~= l.data.skip(96));
        }
        let event_nonce = match read_be_u64(&input.data, 96, n) {
            Some(v) => v,
            None => {
                return Err(DecodeError::NumericOverflow);
            },
        };
        let tx_hash = match &input.transaction_hash {
            Some(h) => copy_bytes(h),
            None => {
                return Err(DecodeError::MissingTransactionHash);
            },
        };
        let erc20 = EthAddr { bytes: copy_range(t1, 12, 32) };
        let sender = EthAddr { bytes: copy_range(t2, 12, 32) };
        proof {
            assert(t1@.subrange(12, 32) =~= l.topics[1].skip(12));
            assert(t2@.subrange(12, 32) =~= l.topics[2].skip(12));
            assert(spec_decode_transfer(l) is Ok);
            assert(tx_hash@ == l.transaction_hash->0);
            assert(block_height == l.block_number->0);
            assert(erc20@ == l.topics[1].skip(12));
            assert(event_nonce == be_nat(l.data.skip(96)) as u64);
        }
        Ok(
            TransferToChainEvent {
                erc20,
                sender,
                destination_chain: strip_trailing_zeros(t3),
                destination: EthAddr::from_word(&input.data, 0),
                amount: copy_range(&input.data, 32, 64),
                fee: copy_range(&input.data, 64, 96),
                event_nonce,
                block_height,
                tx_hash,
            },
        )
    }
}

impl LogicCallExecutedEvent {
    /// Decodes one logic-call execution log.
    pub fn from_log(input: &RawLog) -> (r: Result<LogicCallExecutedEvent, DecodeError>)
        ensures
            res_view(r) == spec_decode_logic_call(input@),
    {
        let ghost l = input@;
        let n = input.data.len();
        if n < 96 {
            return Err(DecodeError::TruncatedData);
        }
        let event_nonce = match read_be_u64(&input.data, 64, 96) {
            Some(v) => v,
            None => {
                return Err(DecodeError::NumericOverflow);
            },
        };
        let invalidation_nonce = match read_be_u64(&input.data, 32, 64) {
            Some(v) => v,
            None => {
                return Err(DecodeError::NumericOverflow);
            },
        };
        let block_height = match input.block_number {
            Some(h) => h,
            None => {
                return Err(DecodeError::MissingBlockHeight);
            },
        };
        let tx_hash = match &input.transaction_hash {
            Some(h) => copy_bytes(h),
            None => {
                return Err(DecodeError::MissingTransactionHash);
            },
        };
        proof {
            assert(l.data.subrange(96, n as int) =~= l.data.skip(96));
            assert(spec_decode_logic_call(l) is Ok);
            assert(tx_hash@ == l.transaction_hash->0);
            assert(block_height == l.block_number->0);
        }
        Ok(
            LogicCallExecutedEvent {
                invalidation_id: copy_range(&input.data, 0, 32),
                invalidation_nonce,
                return_data: copy_range(&input.data, 96, n),
                event_nonce,
                block_height,
                tx_hash,
            },
        )
    }
}

/// Whether `a` does not rank above `b` in the order the bridge contract
/// should emit members: by power, ties broken by address.
pub open spec fn member_le(a: ValsetMemberV, b: ValsetMemberV) -> bool {
    a.power < b.power || (a.power == b.power && (crate::bytesutil::bytes_lt(
        a.eth_address,
        b.eth_address,
    ) || a.eth_address == b.eth_address))
}

/// Whether a member list is sorted descending by power, ties broken by
/// address.
pub open spec fn members_sorted_descending(ms: Seq<ValsetMemberV>) -> bool {
    forall|i: int| 0 <= i && i + 1 < ms.len() ==> #[trigger] member_le(ms[i + 1], ms[i])
}

impl ValsetUpdatedEvent {
    /// Whether this update's member list arrived sorted descending by
    /// power.  An unsorted list still decodes and is still usable; the
    /// caller only logs it as a signal that something upstream produced
    /// unsorted input.
    #[verifier::loop_isolation(false)]
    pub fn members_are_sorted(&self) -> (r: bool)
        ensures
            r == members_sorted_descending(self@.members),
    {
        let ghost ms = self.members.deep_view();
        let n = self.members.len();
        if n == 0 {
            return true;
        }
        let mut i: usize = 0;
        while i + 1 < n
            invariant
                i < n,
                forall|k: int| 0 <= k && k + 1 <= i ==> #[trigger] member_le(ms[k + 1], ms[k]),
            decreases n - i,
        {
            let prev: &ValsetMember = &self.members[i];
            let next: &ValsetMember = &self.members[i + 1];
            proof {
                assert(prev@ == ms[i as int]);
                assert(next@ == ms[i + 1]);
            }
            let le = next.power < prev.power || (next.power == prev.power
                && (crate::bytesutil::bytes_less(&next.eth_address.bytes, &prev.eth_address.bytes)
                || crate::bytesutil::bytes_equal(&next.eth_address.bytes, &prev.eth_address.bytes)));
            if !le {
                proof {
                    assert(!member_le(ms[i + 1], ms[i as int]));
                }
                return false;
            }
            i += 1;
        }
        true
    }
}

impl TransferToChainEvent {
    /// An equal, independently owned copy.
    pub fn duplicate(&self) -> (r: Self)
        ensures
            r@ == self@,
    {
        TransferToChainEvent {
            erc20: self.erc20.duplicate(),
            sender: self.sender.duplicate(),
            destination_chain: copy_bytes(&self.destination_chain),
            destination: self.destination.duplicate(),
            amount: copy_bytes(&self.amount),
            fee: copy_bytes(&self.fee),
            event_nonce: self.event_nonce,
            block_height: self.block_height,
            tx_hash: copy_bytes(&self.tx_hash),
        }
    }

    /// Decodes a whole poll cycle's deposit logs, failing on the first
    /// malformed log.
    #[verifier::loop_isolation(false)]
    pub fn from_logs(input: &Vec<RawLog>) -> (r: Result<Vec<TransferToChainEvent>, DecodeError>)
        ensures
            res_seq_view(r) == spec_decode_transfers(input.deep_view()),
    {
        let ghost ls = input.deep_view();
        let ghost f = |l: RawLogV| spec_decode_transfer(l);
        let mut out: Vec<TransferToChainEvent> = Vec::new();
        let mut i: usize = 0;
        proof {
            assert(ls.take(0) =~= Seq::<RawLogV>::empty());
            assert(out.deep_view() =~= Seq::<TransferToChainEventV>::empty());
        }
        while i < input.len()
            invariant
                i <= input.len(),
                spec_decode_seq(ls.take(i as int), f) == Ok::<
                    Seq<TransferToChainEventV>,
                    DecodeError,
                >(out.deep_view()),
            decreases input.len() - i,
        {
            let log: &RawLog = &input[i];
            proof {
                assert(log@ == ls[i as int]);
                assert(ls.take(i + 1).drop_last() =~= ls.take(i as int));
                assert(ls.take(i + 1).last() == ls[i as int]);
            }
            match TransferToChainEvent::from_log(log) {
                Ok(e) => {
                    let ghost pre = out.deep_view();
                    out.push(e);
                    proof {
                        assert(out.deep_view() =~= pre.push(e@));
                    }
                },
                Err(er) => {
                    proof {
                        assert(spec_decode_seq(ls.take(i + 1), f) is Err);
                        lemma_decode_seq_err_extends(ls, f, i + 1);
                    }
                    return Err(er);
                },
            }
            i += 1;
        }
        proof {
            assert(ls.take(input.len() as int) =~= ls);
        }
        Ok(out)
    }

    /// The deposits whose event nonce lies past the given cursor, in their
    /// original order.
    #[verifier::loop_isolation(false)]
    pub fn filter_by_event_nonce(event_nonce: u64, input: &Vec<TransferToChainEvent>) -> (r: Vec<
        TransferToChainEvent,
    >)
        ensures
            r.deep_view() == input.deep_view().filter(
                |e: TransferToChainEventV| e.event_nonce > event_nonce,
            ),
    {
        let ghost pred = |e: TransferToChainEventV| e.event_nonce > event_nonce;
        let mut r: Vec<TransferToChainEvent> = Vec::new();
        let mut i: usize = 0;
        proof {
            assert(input.deep_view().take(0) =~= Seq::<TransferToChainEventV>::empty());
            assert(r.deep_view() =~= Seq::<TransferToChainEventV>::empty());
        }
        while i < input.len()
            invariant
                i <= input.len(),
                r.deep_view() == input.deep_view().take(i as int).filter(pred),
            decreases input.len() - i,
        {
            let item: &TransferToChainEvent = &input[i];
            proof {
                assert(item@ == input.deep_view()[i as int]);
                assert(input.deep_view().take(i + 1).drop_last() =~= input.deep_view().take(
                    i as int,
                ));
                assert(input.deep_view().take(i + 1).last() == input.deep_view()[i as int]);
            }
            if item.event_nonce > event_nonce {
                let ghost pre = r.deep_view();
                r.push(item.duplicate());
                proof {
                    reveal(Seq::filter);
                    assert(r.deep_view() =~= pre.push(item@));
                    assert(input.deep_view().take(i + 1).filter(pred)
                        == input.deep_view().take(i as int).filter(pred).push(item@));
                }
            } else {
                proof {
                    reveal(Seq::filter);
                    assert(input.deep_view().take(i + 1).filter(pred)
                        == input.deep_view().take(i as int).filter(pred));
                }
            }
            i += 1;
        }
        proof {
            assert(input.deep_view().take(input.len() as int) =~= input.deep_view());
        }
        r
    }
}

impl LogicCallExecutedEvent {
    /// An equal, independently owned copy.
    pub fn duplicate(&self) -> (r: Self)
        ensures
            r@ == self@,
    {
        LogicCallExecutedEvent {
            invalidation_id: copy_bytes(&self.invalidation_id),
            invalidation_nonce: self.invalidation_nonce,
            return_data: copy_bytes(&self.return_data),
            event_nonce: self.event_nonce,
            block_height: self.block_height,
            tx_hash: copy_bytes(&self.tx_hash),
        }
    }

    /// Decodes a whole poll cycle's logic-call logs, failing on the first
    /// malformed log.
    #[verifier::loop_isolation(false)]
    pub fn from_logs(input: &Vec<RawLog>) -> (r: Result<Vec<LogicCallExecutedEvent>, DecodeError>)
        ensures
            res_seq_view(r) == spec_decode_logic_calls(input.deep_view()),
    {
        let ghost ls = input.deep_view();
        let ghost f = |l: RawLogV| spec_decode_logic_call(l);
        let mut out: Vec<LogicCallExecutedEvent> = Vec::new();
        let mut i: usize = 0;
        proof {
            assert(ls.take(0) =~= Seq::<RawLogV>::empty());
            assert(out.deep_view() =~= Seq::<LogicCallExecutedEventV>::empty());
        }
        while i < input.len()
            invariant
                i <= input.len(),
                spec_decode_seq(ls.take(i as int), f) == Ok::<
                    Seq<LogicCallExecutedEventV>,
                    DecodeError,
                >(out.deep_view()),
            decreases input.len() - i,
        {
            let log: &RawLog = &input[i];
            proof {
                assert(log@ == ls[i as int]);
                assert(ls.take(i + 1).drop_last() =~= ls.take(i as int));
                assert(ls.take(i + 1).last() == ls[i as int]);
            }
            match LogicCallExecutedEvent::from_log(log) {
                Ok(e) => {
                    let ghost pre = out.deep_view();
                    out.push(e);
                    proof {
                        assert(out.deep_view() =~= pre.push(e@));
                    }
                },
                Err(er) => {
                    proof {
                        assert(spec_decode_seq(ls.take(i + 1), f) is Err);
                        lemma_decode_seq_err_extends(ls, f, i + 1);
                    }
                    return Err(er);
                },
            }
            i += 1;
        }
        proof {
            assert(ls.take(input.len() as int) =~= ls);
        }
        Ok(out)
    }

    /// The logic-call executions whose event nonce lies past the given
    /// cursor, in their original order.
    #[verifier::loop_isolation(false)]
    pub fn filter_by_event_nonce(event_nonce: u64, input: &Vec<LogicCallExecutedEvent>) -> (r: Vec<
        LogicCallExecutedEvent,
    >)
        ensures
            r.deep_view() == input.deep_view().filter(
                |e: LogicCallExecutedEventV| e.event_nonce > event_nonce,
            ),
    {
        let ghost pred = |e: LogicCallExecutedEventV| e.event_nonce > event_nonce;
        let mut r: Vec<LogicCallExecutedEvent> = Vec::new();
        let mut i: usize = 0;
        proof {
            assert(input.deep_view().take(0) =~= Seq::<LogicCallExecutedEventV>::empty());
            assert(r.deep_view() =~= Seq::<LogicCallExecutedEventV>::empty());
        }
        while i < input.len()
            invariant
                i <= input.len(),
                r.deep_view() == input.deep_view().take(i as int).filter(pred),
            decreases input.len() - i,
        {
            let item: &LogicCallExecutedEvent = &input[i];
            proof {
                assert(item@ == input.deep_view()[i as int]);
                assert(input.deep_view().take(i + 1).drop_last() =~= input.deep_view().take(
                    i as int,
                ));
                assert(input.deep_view().take(i + 1).last() == input.deep_view()[i as int]);
            }
            if item.event_nonce > event_nonce {
                let ghost pre = r.deep_view();
                r.push(item.duplicate());
                proof {
                    reveal(Seq::filter);
                    assert(r.deep_view() =~= pre.push(item@));
                    assert(input.deep_view().take(i + 1).filter(pred)
                        == input.deep_view().take(i as int).filter(pred).push(item@));
                }
            } else {
                proof {
                    reveal(Seq::filter);
                    assert(input.deep_view().take(i + 1).filter(pred)
                        == input.deep_view().take(i as int).filter(pred));
                }
            }
            i += 1;
        }
        proof {
            assert(input.deep_view().take(input.len() as int) =~= input.deep_view());
        }
        r
    }
}

impl ValsetUpdatedEvent {
    /// An equal, independently owned copy.
    pub fn duplicate(&self) -> (r: Self)
        ensures
            r@ == self@,
    {
        let mut ms: Vec<ValsetMember> = Vec::new();
        let mut j: usize = 0;
        proof {
            assert(ms.deep_view() =~= self.members.deep_view().take(0));
        }
        while j < self.members.len()
            invariant
                j <= self.members.len(),
                ms.deep_view() == self.members.deep_view().take(j as int),
            decreases self.members.len() - j,
        {
            let m: &ValsetMember = &self.members[j];
            let ghost pre = ms.deep_view();
            ms.push(m.duplicate());
            proof {
                assert(m@ == self.members.deep_view()[j as int]);
                assert(ms.deep_view() =~= pre.push(m@));
                assert(self.members.deep_view().take(j + 1) =~= pre.push(
                    self.members.deep_view()[j as int],
                ));
            }
            j += 1;
        }
        proof {
            assert(self.members.deep_view().take(self.members.len() as int)
                =~= self.members.deep_view());
        }
        ValsetUpdatedEvent {
            valset_nonce: self.valset_nonce,
            event_nonce: self.event_nonce,
            block_height: self.block_height,
            members: ms,
            tx_hash: copy_bytes(&self.tx_hash),
        }
    }

    /// Decodes a whole poll cycle's validator-set update logs, failing on
    /// the first malformed log.
    #[verifier::loop_isolation(false)]
    pub fn from_logs(input: &Vec<RawLog>) -> (r: Result<Vec<ValsetUpdatedEvent>, DecodeError>)
        ensures
            res_seq_view(r) == spec_decode_valsets(input.deep_view()),
    {
        let ghost ls = input.deep_view();
        let ghost f = |l: RawLogV| spec_decode_valset(l);
        let mut out: Vec<ValsetUpdatedEvent> = Vec::new();
        let mut i: usize = 0;
        proof {
            assert(ls.take(0) =~= Seq::<RawLogV>::empty());
            assert(out.deep_view() =~= Seq::<ValsetUpdatedEventV>::empty());
        }
        while i < input.len()
            invariant
                i <= input.len(),
                spec_decode_seq(ls.take(i as int), f) == Ok::<
                    Seq<ValsetUpdatedEventV>,
                    DecodeError,
                >(out.deep_view()),
            decreases input.len() - i,
        {
            let log: &RawLog = &input[i];
            proof {
                assert(log@ == ls[i as int]);
                assert(ls.take(i + 1).drop_last() =~= ls.take(i as int));
                assert(ls.take(i + 1).last() == ls[i as int]);
            }
            match ValsetUpdatedEvent::from_log(log) {
                Ok(e) => {
                    let ghost pre = out.deep_view();
                    out.push(e);
                    proof {
                        assert(out.deep_view() =~= pre.push(e@));
                    }
                },
                Err(er) => {
                    proof {
                        assert(spec_decode_seq(ls.take(i + 1), f) is Err);
                        lemma_decode_seq_err_extends(ls, f, i + 1);
                    }
                    return Err(er);
                },
            }
            i += 1;
        }
        proof {
            assert(ls.take(input.len() as int) =~= ls);
        }
        Ok(out)
    }

    /// The validator-set updates whose event nonce lies past the given
    /// cursor, in their original order.
    #[verifier::loop_isolation(false)]
    pub fn filter_by_event_nonce(event_nonce: u64, input: &Vec<ValsetUpdatedEvent>) -> (r: Vec<
        ValsetUpdatedEvent,
    >)
        ensures
            r.deep_view() == input.deep_view().filter(
                |e: ValsetUpdatedEventV| e.event_nonce > event_nonce,
            ),
    {
        let ghost pred = |e: ValsetUpdatedEventV| e.event_nonce > event_nonce;
        let mut r: Vec<ValsetUpdatedEvent> = Vec::new();
        let mut i: usize = 0;
        proof {
            assert(input.deep_view().take(0) =~= Seq::<ValsetUpdatedEventV>::empty());
            assert(r.deep_view() =~= Seq::<ValsetUpdatedEventV>::empty());
        }
        while i < input.len()
            invariant
                i <= input.len(),
                r.deep_view() == input.deep_view().take(i as int).filter(pred),
            decreases input.len() - i,
        {
            let item: &ValsetUpdatedEvent = &input[i];
            proof {
                assert(item@ == input.deep_view()[i as int]);
                assert(input.deep_view().take(i + 1).drop_last() =~= input.deep_view().take(
                    i as int,
                ));
                assert(input.deep_view().take(i + 1).last() == input.deep_view()[i as int]);
            }
            if item.event_nonce > event_nonce {
                let ghost pre = r.deep_view();
                r.push(item.duplicate());
                proof {
                    reveal(Seq::filter);
                    assert(r.deep_view() =~= pre.push(item@));
                    assert(input.deep_view().take(i + 1).filter(pred)
                        == input.deep_view().take(i as int).filter(pred).push(item@));
                }
            } else {
                proof {
                    reveal(Seq::filter);
                    assert(input.deep_view().take(i + 1).filter(pred)
                        == input.deep_view().take(i as int).filter(pred));
                }
            }
            i += 1;
        }
        proof {
            assert(input.deep_view().take(input.len() as int) =~= input.deep_view());
        }
        r
    }
}

impl TransactionBatchExecutedEvent {
    /// An equal, independently owned copy.
    pub fn duplicate(&self) -> (r: Self)
        ensures
            r@ == self@,
    {
        TransactionBatchExecutedEvent {
            batch_nonce: self.batch_nonce,
            block_height: self.block_height,
            erc20: self.erc20.duplicate(),
            event_nonce: self.event_nonce,
            tx_hash: copy_bytes(&self.tx_hash),
            fee_paid: self.fee_paid,
            fee_payer: self.fee_payer.duplicate(),
        }
    }

    /// Decodes a whole poll cycle's batch-execution logs, each paired
    /// positionally with its recovered fee facts, failing on the first
    /// malformed log.
    #[verifier::loop_isolation(false)]
    pub fn from_logs(input: &Vec<RawLog>, infos: &Vec<BatchTxInfo>) -> (r: Result<
        Vec<TransactionBatchExecutedEvent>,
        DecodeError,
    >)
        requires
            input@.len() == infos@.len(),
        ensures
            res_seq_view(r) == spec_decode_batches(input.deep_view(), infos.deep_view()),
    {
        let ghost ls = input.deep_view();
        let ghost fs = infos.deep_view();
        let mut out: Vec<TransactionBatchExecutedEvent> = Vec::new();
        let mut i: usize = 0;
        proof {
            assert(ls.take(0) =~= Seq::<RawLogV>::empty());
            assert(out.deep_view() =~= Seq::<TransactionBatchExecutedEventV>::empty());
        }
        while i < input.len()
            invariant
                i <= input.len(),
                spec_decode_batches(ls.take(i as int), fs.take(i as int)) == Ok::<
                    Seq<TransactionBatchExecutedEventV>,
                    DecodeError,
                >(out.deep_view()),
            decreases input.len() - i,
        {
            let log: &RawLog = &input[i];
            let info: &BatchTxInfo = &infos[i];
            proof {
                assert(log@ == ls[i as int]);
                assert(info@ == fs[i as int]);
                assert(ls.take(i + 1).drop_last() =~= ls.take(i as int));
                assert(ls.take(i + 1).last() == ls[i as int]);
                assert(fs.take(i + 1).drop_last() =~= fs.take(i as int));
                assert(fs.take(i + 1).last() == fs[i as int]);
            }
            match TransactionBatchExecutedEvent::from_log(log, info) {
                Ok(e) => {
                    let ghost pre = out.deep_view();
                    out.push(e);
                    proof {
                        assert(out.deep_view() =~= pre.push(e@));
                    }
                },
                Err(er) => {
                    proof {
                        assert(spec_decode_batches(ls.take(i + 1), fs.take(i + 1)) is Err);
                        lemma_decode_batches_err_extends(ls, fs, i + 1);
                    }
                    return Err(er);
                },
            }
            i += 1;
        }
        proof {
            assert(ls.take(input.len() as int) =~= ls);
            assert(fs.take(input.len() as int) =~= fs);
        }
        Ok(out)
    }

    /// The batch executions whose event nonce lies past the given cursor,
    /// in their original order.
    #[verifier::loop_isolation(false)]
    pub fn filter_by_event_nonce(event_nonce: u64, input: &Vec<TransactionBatchExecutedEvent>) -> (
    r: Vec<TransactionBatchExecutedEvent>)
        ensures
            r.deep_view() == input.deep_view().filter(
                |e: TransactionBatchExecutedEventV| e.event_nonce > event_nonce,
            ),
    {
        let ghost pred = |e: TransactionBatchExecutedEventV| e.event_nonce > event_nonce;
        let mut r: Vec<TransactionBatchExecutedEvent> = Vec::new();
        let mut i: usize = 0;
        proof {
            assert(input.deep_view().take(0) =~= Seq::<TransactionBatchExecutedEventV>::empty());
            assert(r.deep_view() =~= Seq::<TransactionBatchExecutedEventV>::empty());
        }
        while i < input.len()
            invariant
                i <= input.len(),
                r.deep_view() == input.deep_view().take(i as int).filter(pred),
            decreases input.len() - i,
        {
            let item: &TransactionBatchExecutedEvent = &input[i];
            proof {
                assert(item@ == input.deep_view()[i as int]);
                assert(input.deep_view().take(i + 1).drop_last() =~= input.deep_view().take(
                    i as int,
                ));
                assert(input.deep_view().take(i + 1).last() == input.deep_view()[i as int]);
            }
            if item.event_nonce > event_nonce {
                let ghost pre = r.deep_view();
                r.push(item.duplicate());
                proof {
                    reveal(Seq::filter);
                    assert(r.deep_view() =~= pre.push(item@));
                    assert(input.deep_view().take(i + 1).filter(pred)
                        == input.deep_view().take(i as int).filter(pred).push(item@));
                }
            } else {
                proof {
                    reveal(Seq::filter);
                    assert(input.deep_view().take(i + 1).filter(pred)
                        == input.deep_view().take(i as int).filter(pred));
                }
            }
            i += 1;
        }
        proof {
            assert(input.deep_view().take(input.len() as int) =~= input.deep_view());
        }
        r
    }
}

} // verus!
