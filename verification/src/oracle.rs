//! The oracle role: scan-window computation, chain-health gating, the
//! decode-merge pipeline of one scan, verification that a submission
//! advanced the destination chain's cursor, and the resume height on
//! restart.

use vstd::prelude::*;
use crate::error::{DecodeError, GravityError};
use crate::events::{TransferToChainEvent, TransactionBatchExecutedEvent, LogicCallExecutedEvent,
    ValsetUpdatedEvent, spec_decode_transfers, spec_decode_batches, spec_decode_valsets,
    spec_decode_logic_calls};
use crate::merge::{SubmittableClaim, combined_claims, merged_stream_ok, merge_and_filter};
use crate::types::{RawLog, BatchTxInfo, ChainStatus, SignerSetTx};

verus! {

/// The block cap of one scan window: bounds worst-case query size and
/// memory per cycle.
pub const SCAN_WINDOW_BLOCKS: u64 = 1000;

/// The finality delay of a chain without probabilistic finality.
pub const DELAY_FINAL: u64 = 0;

/// The conservative finality delay of a chain with probabilistic finality:
/// deep reorganizations beyond six blocks are astronomically unlikely.
pub const DELAY_PROBABILISTIC: u64 = 6;

/// The finality delay the oracle applies for a given network identifier:
/// zero for the known chains with deterministic finality, six blocks for
/// the known probabilistic chains and for any chain it does not know.
pub open spec fn spec_block_delay(net_version: u64) -> u64 {
    if net_version == 4 || net_version == 5 || net_version == 6 || net_version == 15
        || net_version == 16 || net_version == 2018 {
        DELAY_FINAL
    } else {
        DELAY_PROBABILISTIC
    }
}

/// The number of blocks behind the latest block the event scan must stay,
/// as a function of the external chain's network identifier.
pub fn get_block_delay(net_version: u64) -> (r: u64)
    ensures
        r == spec_block_delay(net_version),
{
    match net_version {
        1 | 3 | 7 => DELAY_PROBABILISTIC,
        4 | 5 | 2018 | 15 | 16 | 6 => DELAY_FINAL,
        _ => DELAY_PROBABILISTIC,
    }
}

/// The end of the scan window starting at `start`: the newest block the
/// finality delay allows, capped at `start + SCAN_WINDOW_BLOCKS`.
pub open spec fn spec_scan_end(start: u64, latest: u64, delay: u64) -> int {
    if latest - delay > start + SCAN_WINDOW_BLOCKS {
        start + SCAN_WINDOW_BLOCKS
    } else {
        latest - delay
    }
}

/// Computes the scan window's end block.  The cap keeps a long-idle oracle
/// from asking for an unbounded block range: whenever the chain is more
/// than `SCAN_WINDOW_BLOCKS` past `start`, the window ends at
/// `start + SCAN_WINDOW_BLOCKS`, never at the chain tip.
pub fn compute_scan_window(start: u64, latest: u64, delay: u64) -> (end: u64)
    requires
        delay <= latest,
        start + SCAN_WINDOW_BLOCKS <= u64::MAX,
    ensures
        end == spec_scan_end(start, latest, delay),
        latest - delay - start > SCAN_WINDOW_BLOCKS ==> end == start + SCAN_WINDOW_BLOCKS,
        end <= latest - delay,
{
    let confirmed = latest - delay;
    if confirmed > start + SCAN_WINDOW_BLOCKS {
        start + SCAN_WINDOW_BLOCKS
    } else {
        confirmed
    }
}

/// Why a loop iteration makes no progress: each of the five conditions is
/// logged distinctly and retried after a fixed delay.
#[derive(Clone, Copy, Debug, PartialEq, Eq, Structural)]
pub enum HealthPause {
    ExternalUnreachable,
    DestinationUnreachable,
    DestinationSyncing,
    DestinationWaitingToStart,
    BothUnreachable,
}

/// What the entry health check decides for a reported pair of chain
/// states: the two heights when both chains are live, else the distinct
/// pause condition.
pub open spec fn spec_health_check(
    external: Option<u64>,
    destination: Option<ChainStatus>,
) -> Result<(u64, u64), HealthPause> {
    match (external, destination) {
        (Some(e), Some(ChainStatus::Moving { block_height })) => Ok((e, block_height)),
        (Some(_), Some(ChainStatus::Syncing)) => Err(HealthPause::DestinationSyncing),
        (Some(_), Some(ChainStatus::WaitingToStart)) => Err(
            HealthPause::DestinationWaitingToStart,
        ),
        (Some(_), None) => Err(HealthPause::DestinationUnreachable),
        (None, Some(_)) => Err(HealthPause::ExternalUnreachable),
        (None, None) => Err(HealthPause::BothUnreachable),
    }
}

/// The entry guard of both loops: `external` is the external chain's
/// latest block if it answered, `destination` the destination chain's
/// status if it answered.
pub fn health_check(external: Option<u64>, destination: Option<ChainStatus>) -> (r: Result<
    (u64, u64),
    HealthPause,
>)
    ensures
        r == spec_health_check(external, destination),
{
    match (external, destination) {
        (Some(e), Some(ChainStatus::Moving { block_height })) => Ok((e, block_height)),
        (Some(_), Some(ChainStatus::Syncing)) => Err(HealthPause::DestinationSyncing),
        (Some(_), Some(ChainStatus::WaitingToStart)) => Err(
            HealthPause::DestinationWaitingToStart,
        ),
        (Some(_), None) => Err(HealthPause::DestinationUnreachable),
        (None, Some(_)) => Err(HealthPause::ExternalUnreachable),
        (None, None) => Err(HealthPause::BothUnreachable),
    }
}

/// Checks that a non-empty submission advanced the destination chain's
/// recorded cursor: an unchanged cursor is the distinct, retryable
/// `ClaimsNotProcessed` condition, not a silent success.
pub fn verify_advance(pre_submission_nonce: u64, post_submission_nonce: u64) -> (r: Result<
    (),
    GravityError,
>)
    ensures
        r is Ok <==> post_submission_nonce != pre_submission_nonce,
        r is Err ==> r->Err_0 == GravityError::ClaimsNotProcessed,
{
    if post_submission_nonce == pre_submission_nonce {
        Err(GravityError::ClaimsNotProcessed)
    } else {
        Ok(())
    }
}

/// The raw material of one scan: the four categories of logs the window
/// query returned, and for each batch log the fee facts recovered by the
/// two transaction-level queries.
pub struct EventLogs {
    pub transfers: Vec<RawLog>,
    pub batches: Vec<RawLog>,
    pub batch_infos: Vec<BatchTxInfo>,
    pub valsets: Vec<RawLog>,
    pub logic_calls: Vec<RawLog>,
}

/// The first decode failure of a scan, in the order the categories are
/// decoded: transfers, batches, validator sets, logic calls.
pub open spec fn spec_scan_decode_error(logs: EventLogs) -> Option<DecodeError> {
    let t = spec_decode_transfers(logs.transfers.deep_view());
    let b = spec_decode_batches(logs.batches.deep_view(), logs.batch_infos.deep_view());
    let v = spec_decode_valsets(logs.valsets.deep_view());
    let lc = spec_decode_logic_calls(logs.logic_calls.deep_view());
    if t is Err {
        Some(t->Err_0)
    } else if b is Err {
        Some(b->Err_0)
    } else if v is Err {
        Some(v->Err_0)
    } else if lc is Err {
        Some(lc->Err_0)
    } else {
        None
    }
}

/// Decodes one scan window's logs and merges them into the ordered,
/// cursor-filtered claim stream to submit.  Decoding is all-or-nothing: a
/// single malformed log anywhere aborts the cycle with its distinct error,
/// and the caller retries the same window on the next tick.
pub fn check_for_events(logs: &EventLogs, last_event_nonce: u64) -> (r: Result<
    Vec<SubmittableClaim>,
    GravityError,
>)
    requires
        logs.batches@.len() == logs.batch_infos@.len(),
    ensures
        r is Err <==> spec_scan_decode_error(*logs) is Some,
        r matches Err(e) ==> e == GravityError::InvalidEventLog(spec_scan_decode_error(*logs)->0),
        r matches Ok(claims) ==> ({
            let t = spec_decode_transfers(logs.transfers.deep_view());
            let b = spec_decode_batches(logs.batches.deep_view(), logs.batch_infos.deep_view());
            let v = spec_decode_valsets(logs.valsets.deep_view());
            let lc = spec_decode_logic_calls(logs.logic_calls.deep_view());
            merged_stream_ok(
                combined_claims(t->Ok_0, b->Ok_0, lc->Ok_0, v->Ok_0),
                last_event_nonce,
                claims.deep_view(),
            )
        }),
{
    let transfers = match TransferToChainEvent::from_logs(&logs.transfers) {
        Ok(v) => v,
        Err(e) => {
            return Err(GravityError::InvalidEventLog(e));
        },
    };
    let batches = match TransactionBatchExecutedEvent::from_logs(&logs.batches, &logs.batch_infos) {
        Ok(v) => v,
        Err(e) => {
            return Err(GravityError::InvalidEventLog(e));
        },
    };
    let valsets = match ValsetUpdatedEvent::from_logs(&logs.valsets) {
        Ok(v) => v,
        Err(e) => {
            return Err(GravityError::InvalidEventLog(e));
        },
    };
    let logic_calls = match LogicCallExecutedEvent::from_logs(&logs.logic_calls) {
        Ok(v) => v,
        Err(e) => {
            return Err(GravityError::InvalidEventLog(e));
        },
    };
    Ok(merge_and_filter(transfers, batches, logic_calls, valsets, last_event_nonce))
}

/// Resolves the destination chain's answer for its last recorded signer
/// set: the oracle cannot bootstrap before the chain has recorded one.
pub fn find_latest_valset(cosmos_chain_valset: Option<SignerSetTx>) -> (r: Result<
    SignerSetTx,
    GravityError,
>)
    ensures
        r matches Ok(v) ==> cosmos_chain_valset matches Some(w) && v == w,
        r is Err <==> cosmos_chain_valset is None,
        r matches Err(e) ==> e == GravityError::ValsetNotFound,
{
    match cosmos_chain_valset {
        Some(v) => Ok(v),
        None => Err(GravityError::ValsetNotFound),
    }
}

/// The block height scanning resumes from after a restart: the height at
/// which the destination chain last recorded an artifact, or the newest
/// confirmed block when it has recorded none yet.
pub fn resync_start_height(
    last_recorded_height: Option<u64>,
    latest_block: u64,
    block_delay: u64,
) -> (r: u64)
    requires
        block_delay <= latest_block,
    ensures
        last_recorded_height matches Some(h) ==> r == h,
        last_recorded_height is None ==> r == latest_block - block_delay,
{
    match last_recorded_height {
        Some(h) => h,
        None => latest_block - block_delay,
    }
}

} // verus!
