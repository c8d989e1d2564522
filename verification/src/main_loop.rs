//! The oracle and signer loops as explicit state machines.
//!
//! Each loop is a step function from a state and an observed event to the
//! next state and one action for the driver to perform: query, submit,
//! sleep, report.  The driver owns every suspension point — chain queries,
//! submissions, pacing delays — performs the action, and feeds the outcome
//! back as the next event.  The scan cursor lives only in the oracle
//! state, handed from iteration to iteration and rebuilt from the
//! destination chain on restart; nothing is persisted locally.

use vstd::prelude::*;
use crate::confirm::{Confirmation, ConfirmationV, spec_confirm_valsets, spec_confirm_batches,
    spec_confirm_logic_calls, signer_set_tx_confirmation_messages, batch_tx_confirmation_messages,
    contract_call_tx_confirmation_messages};
use crate::error::GravityError;
use crate::merge::SubmittableClaim;
use crate::oracle::{HealthPause, SCAN_WINDOW_BLOCKS, spec_health_check, spec_scan_end,
    health_check, compute_scan_window};
use crate::submit::{contains_subseq, sequence_race_pattern, is_benign_submission_error};
use crate::types::{ChainStatus, SignerSetTx, SignerSetTxV, BatchTx, BatchTxV, ContractCallTx,
    ContractCallTxV};

verus! {

/// Where the oracle stands within one iteration.
#[derive(Clone, Copy, Debug, PartialEq, Eq, Structural)]
pub enum OraclePhase {
    /// Waiting for the next tick.
    Idle,
    /// The health query is out.
    AwaitingHealth,
    /// The window's log queries are out.
    AwaitingScan { end: u64 },
    /// A non-empty claim batch is being submitted.
    AwaitingSubmission { end: u64, pre_nonce: u64 },
    /// Waiting for the next destination block and the re-queried cursor.
    AwaitingAdvance { end: u64, pre_nonce: u64 },
    /// A health check failed; retrying after a fixed delay.
    Paused { reason: HealthPause },
}

/// The oracle loop's whole state: the scan start handed from iteration to
/// iteration, the chain's finality delay, and the current phase.
#[derive(Debug, PartialEq, Eq)]
pub struct OracleLoop {
    pub start_block: u64,
    pub block_delay: u64,
    pub phase: OraclePhase,
}

/// What the driver observed and feeds back into the oracle.
#[derive(Debug)]
pub enum OracleEvent {
    /// The pacing timer fired.
    Tick,
    /// Both health queries answered or failed.
    HealthReport { external: Option<u64>, destination: Option<ChainStatus> },
    /// The window's logs were fetched and ran through decode and merge,
    /// with the cursor read beforehand.
    ScanResult {
        outcome: Result<Vec<SubmittableClaim>, GravityError>,
        last_event_nonce: u64,
    },
    /// The claim submission returned, with the error text if it failed.
    SubmitResult { error: Option<Vec<u8>> },
    /// The cursor re-queried after the post-submission wait.
    NonceReport { event_nonce: u64 },
}

/// What the oracle asks the driver to do next.
#[derive(Debug)]
pub enum OracleAction {
    /// Query both chains' liveness.
    QueryHealth,
    /// Fetch the four log categories over `[start, end]`, read the
    /// cursor, and run the scan.
    FetchLogs { start: u64, end: u64 },
    /// Submit the ordered claims as one batch.
    SubmitClaims { claims: Vec<SubmittableClaim> },
    /// Wait for the destination chain's next block, then re-query the
    /// cursor.
    AwaitNextBlockAndQueryNonce,
    /// Nothing to do until the next tick.
    Sleep,
    /// Log the distinct failure; the same window is retried next tick.
    Report { error: GravityError },
}

/// The oracle's transition function: one next state and one action for
/// every state and event.
pub open spec fn spec_oracle_step(s: OracleLoop, e: OracleEvent) -> (OracleLoop, OracleAction) {
    match e {
        OracleEvent::Tick => {
            if s.phase is Idle || s.phase is Paused {
                (
                    OracleLoop { phase: OraclePhase::AwaitingHealth, ..s },
                    OracleAction::QueryHealth,
                )
            } else {
                (s, OracleAction::Sleep)
            }
        },
        OracleEvent::HealthReport { external, destination } => {
            if s.phase is AwaitingHealth {
                match spec_health_check(external, destination) {
                    Err(p) => (
                        OracleLoop { phase: OraclePhase::Paused { reason: p }, ..s },
                        OracleAction::Sleep,
                    ),
                    Ok((latest, _)) => {
                        if latest < s.block_delay || s.start_block > u64::MAX - SCAN_WINDOW_BLOCKS
                            || latest - s.block_delay < s.start_block {
                            (OracleLoop { phase: OraclePhase::Idle, ..s }, OracleAction::Sleep)
                        } else {
                            let end = spec_scan_end(s.start_block, latest, s.block_delay) as u64;
                            (
                                OracleLoop { phase: OraclePhase::AwaitingScan { end }, ..s },
                                OracleAction::FetchLogs { start: s.start_block, end },
                            )
                        }
                    },
                }
            } else {
                (s, OracleAction::Sleep)
            }
        },
        OracleEvent::ScanResult { outcome, last_event_nonce } => {
            match s.phase {
                OraclePhase::AwaitingScan { end } => {
                    match outcome {
                        Err(err) => (
                            OracleLoop { phase: OraclePhase::Idle, ..s },
                            OracleAction::Report { error: err },
                        ),
                        Ok(claims) => {
                            if claims@.len() == 0 {
                                (
                                    OracleLoop {
                                        start_block: end,
                                        phase: OraclePhase::Idle,
                                        ..s
                                    },
                                    OracleAction::Sleep,
                                )
                            } else {
                                (
                                    OracleLoop {
                                        phase: OraclePhase::AwaitingSubmission {
                                            end,
                                            pre_nonce: last_event_nonce,
                                        },
                                        ..s
                                    },
                                    OracleAction::SubmitClaims { claims },
                                )
                            }
                        },
                    }
                },
                _ => (s, OracleAction::Sleep),
            }
        },
        OracleEvent::SubmitResult { error } => {
            match s.phase {
                OraclePhase::AwaitingSubmission { end, pre_nonce } => {
                    match error {
                        None => (
                            OracleLoop {
                                phase: OraclePhase::AwaitingAdvance { end, pre_nonce },
                                ..s
                            },
                            OracleAction::AwaitNextBlockAndQueryNonce,
                        ),
                        Some(text) => {
                            if contains_subseq(text@, sequence_race_pattern()) {
                                (OracleLoop { phase: OraclePhase::Idle, ..s }, OracleAction::Sleep)
                            } else {
                                (
                                    OracleLoop { phase: OraclePhase::Idle, ..s },
                                    OracleAction::Report { error: GravityError::SubmissionFailed },
                                )
                            }
                        },
                    }
                },
                _ => (s, OracleAction::Sleep),
            }
        },
        OracleEvent::NonceReport { event_nonce } => {
            match s.phase {
                OraclePhase::AwaitingAdvance { end, pre_nonce } => {
                    if event_nonce != pre_nonce {
                        (
                            OracleLoop { start_block: end, phase: OraclePhase::Idle, ..s },
                            OracleAction::Sleep,
                        )
                    } else {
                        (
                            OracleLoop { phase: OraclePhase::Idle, ..s },
                            OracleAction::Report { error: GravityError::ClaimsNotProcessed },
                        )
                    }
                },
                _ => (s, OracleAction::Sleep),
            }
        },
    }
}

impl OracleLoop {
    /// A fresh oracle loop resuming at `start_block` with the chain's
    /// finality delay.
    pub fn new(start_block: u64, block_delay: u64) -> (r: OracleLoop)
        ensures
            r.start_block == start_block,
            r.block_delay == block_delay,
            r.phase is Idle,
    {
        OracleLoop { start_block, block_delay, phase: OraclePhase::Idle }
    }

    /// Takes one step: consumes the observed event and yields the action
    /// to perform before the next event, exactly as the transition
    /// function prescribes.
    pub fn step(self, event: OracleEvent) -> (r: (OracleLoop, OracleAction))
        ensures
            r == spec_oracle_step(self, event),
    {
        match event {
            OracleEvent::Tick => {
                match self.phase {
                    OraclePhase::Idle | OraclePhase::Paused { .. } => (
                        OracleLoop { phase: OraclePhase::AwaitingHealth, ..self },
                        OracleAction::QueryHealth,
                    ),
                    _ => (self, OracleAction::Sleep),
                }
            },
            OracleEvent::HealthReport { external, destination } => {
                if let OraclePhase::AwaitingHealth = self.phase {
                    match health_check(external, destination) {
                        Err(p) => (
                            OracleLoop { phase: OraclePhase::Paused { reason: p }, ..self },
                            OracleAction::Sleep,
                        ),
                        Ok((latest, _destination_height)) => {
                            if latest < self.block_delay || self.start_block > u64::MAX
                                - SCAN_WINDOW_BLOCKS || latest - self.block_delay
                                < self.start_block {
                                (
                                    OracleLoop { phase: OraclePhase::Idle, ..self },
                                    OracleAction::Sleep,
                                )
                            } else {
                                let end = compute_scan_window(
                                    self.start_block,
                                    latest,
                                    self.block_delay,
                                );
                                let start = self.start_block;
                                (
                                    OracleLoop { phase: OraclePhase::AwaitingScan { end }, ..self },
                                    OracleAction::FetchLogs { start, end },
                                )
                            }
                        },
                    }
                } else {
                    (self, OracleAction::Sleep)
                }
            },
            OracleEvent::ScanResult { outcome, last_event_nonce } => {
                match self.phase {
                    OraclePhase::AwaitingScan { end } => {
                        match outcome {
                            Err(err) => (
                                OracleLoop { phase: OraclePhase::Idle, ..self },
                                OracleAction::Report { error: err },
                            ),
                            Ok(claims) => {
                                if claims.len() == 0 {
                                    (
                                        OracleLoop {
                                            start_block: end,
                                            phase: OraclePhase::Idle,
                                            ..self
                                        },
                                        OracleAction::Sleep,
                                    )
                                } else {
                                    (
                                        OracleLoop {
                                            phase: OraclePhase::AwaitingSubmission {
                                                end,
                                                pre_nonce: last_event_nonce,
                                            },
                                            ..self
                                        },
                                        OracleAction::SubmitClaims { claims },
                                    )
                                }
                            },
                        }
                    },
                    _ => (self, OracleAction::Sleep),
                }
            },
            OracleEvent::SubmitResult { error } => {
                match self.phase {
                    OraclePhase::AwaitingSubmission { end, pre_nonce } => {
                        match error {
                            None => (
                                OracleLoop {
                                    phase: OraclePhase::AwaitingAdvance { end, pre_nonce },
                                    ..self
                                },
                                OracleAction::AwaitNextBlockAndQueryNonce,
                            ),
                            Some(text) => {
                                if is_benign_submission_error(&text) {
                                    (
                                        OracleLoop { phase: OraclePhase::Idle, ..self },
                                        OracleAction::Sleep,
                                    )
                                } else {
                                    (
                                        OracleLoop { phase: OraclePhase::Idle, ..self },
                                        OracleAction::Report {
                                            error: GravityError::SubmissionFailed,
                                        },
                                    )
                                }
                            },
                        }
                    },
                    _ => (self, OracleAction::Sleep),
                }
            },
            OracleEvent::NonceReport { event_nonce } => {
                match self.phase {
                    OraclePhase::AwaitingAdvance { end, pre_nonce } => {
                        if event_nonce != pre_nonce {
                            (
                                OracleLoop {
                                    start_block: end,
                                    phase: OraclePhase::Idle,
                                    ..self
                                },
                                OracleAction::Sleep,
                            )
                        } else {
                            (
                                OracleLoop { phase: OraclePhase::Idle, ..self },
                                OracleAction::Report { error: GravityError::ClaimsNotProcessed },
                            )
                        }
                    },
                    _ => (self, OracleAction::Sleep),
                }
            },
        }
    }
}

/// Where the signer stands within one iteration: the three fetch/sign
/// stages run in a fixed order, and a failure in one stage never blocks
/// the following stages.
#[derive(Clone, Copy, Debug, PartialEq, Eq, Structural)]
pub enum SignerPhase {
    Idle,
    AwaitingHealth,
    AwaitingValsets,
    AwaitingValsetSubmit,
    AwaitingBatch,
    AwaitingBatchSubmit,
    AwaitingLogicCalls,
    AwaitingCallSubmit,
    Paused { reason: HealthPause },
    /// The signer cannot proceed: its key or an artifact's encoding is
    /// malformed.
    Halted,
}

/// The signer loop's whole state: the signing key, the deployment's
/// domain-separation identifier, and the current phase.
#[derive(Debug, PartialEq, Eq)]
pub struct SignerLoop {
    pub key: [u8; 32],
    pub gravity_id: Vec<u8>,
    pub phase: SignerPhase,
}

pub struct SignerLoopV {
    pub key: Seq<u8>,
    pub gravity_id: Seq<u8>,
    pub phase: SignerPhase,
}

impl View for SignerLoop {
    type V = SignerLoopV;

    open spec fn view(&self) -> SignerLoopV {
        SignerLoopV { key: self.key@, gravity_id: self.gravity_id@, phase: self.phase }
    }
}

/// What the driver observed and feeds back into the signer.  A fetch that
/// failed outright reports nothing fetched.
#[derive(Debug)]
pub enum SignerEvent {
    Tick,
    HealthReport { external: Option<u64>, destination: Option<ChainStatus> },
    ValsetsFetched { result: Option<Vec<SignerSetTx>> },
    BatchFetched { result: Option<Option<BatchTx>> },
    LogicCallsFetched { result: Option<Vec<ContractCallTx>> },
    SubmitResult { error: Option<Vec<u8>> },
}

pub enum SignerEventV {
    Tick,
    HealthReport { external: Option<u64>, destination: Option<ChainStatus> },
    ValsetsFetched { result: Option<Seq<SignerSetTxV>> },
    BatchFetched { result: Option<Option<BatchTxV>> },
    LogicCallsFetched { result: Option<Seq<ContractCallTxV>> },
    SubmitResult { error: Option<Seq<u8>> },
}

impl View for SignerEvent {
    type V = SignerEventV;

    open spec fn view(&self) -> SignerEventV {
        match self {
            SignerEvent::Tick => SignerEventV::Tick,
            SignerEvent::HealthReport { external, destination } => SignerEventV::HealthReport {
                external: *external,
                destination: *destination,
            },
            SignerEvent::ValsetsFetched { result } => SignerEventV::ValsetsFetched {
                result: match result {
                    Some(v) => Some(v.deep_view()),
                    None => None,
                },
            },
            SignerEvent::BatchFetched { result } => SignerEventV::BatchFetched {
                result: match result {
                    Some(Some(b)) => Some(Some(b@)),
                    Some(None) => Some(None),
                    None => None,
                },
            },
            SignerEvent::LogicCallsFetched { result } => SignerEventV::LogicCallsFetched {
                result: match result {
                    Some(v) => Some(v.deep_view()),
                    None => None,
                },
            },
            SignerEvent::SubmitResult { error } => SignerEventV::SubmitResult {
                error: match error {
                    Some(t) => Some(t@),
                    None => None,
                },
            },
        }
    }
}

/// What the signer asks the driver to do next.
#[derive(Debug)]
pub enum SignerAction {
    QueryHealth,
    FetchUnsignedValsets,
    FetchUnsignedBatch,
    FetchUnsignedLogicCalls,
    /// Submit the built confirmations for the stage just signed.
    SubmitConfirmations { confirmations: Vec<Confirmation> },
    Sleep,
    /// Stop the signer for good: no working signer can be built from this
    /// state.
    Halt { error: GravityError },
}

pub enum SignerActionV {
    QueryHealth,
    FetchUnsignedValsets,
    FetchUnsignedBatch,
    FetchUnsignedLogicCalls,
    SubmitConfirmations { confirmations: Seq<ConfirmationV> },
    Sleep,
    Halt { error: GravityError },
}

impl View for SignerAction {
    type V = SignerActionV;

    open spec fn view(&self) -> SignerActionV {
        match self {
            SignerAction::QueryHealth => SignerActionV::QueryHealth,
            SignerAction::FetchUnsignedValsets => SignerActionV::FetchUnsignedValsets,
            SignerAction::FetchUnsignedBatch => SignerActionV::FetchUnsignedBatch,
            SignerAction::FetchUnsignedLogicCalls => SignerActionV::FetchUnsignedLogicCalls,
            SignerAction::SubmitConfirmations { confirmations } => (
            SignerActionV::SubmitConfirmations { confirmations: confirmations.deep_view() }),
            SignerAction::Sleep => SignerActionV::Sleep,
            SignerAction::Halt { error } => SignerActionV::Halt { error: *error },
        }
    }
}

/// The signer's transition function: one next state and one action for
/// every state and event.
pub open spec fn spec_signer_step(s: SignerLoopV, e: SignerEventV) -> (SignerLoopV, SignerActionV) {
    match e {
        SignerEventV::Tick => {
            if s.phase is Idle || s.phase is Paused {
                (
                    SignerLoopV { phase: SignerPhase::AwaitingHealth, ..s },
                    SignerActionV::QueryHealth,
                )
            } else {
                (s, SignerActionV::Sleep)
            }
        },
        SignerEventV::HealthReport { external, destination } => {
            if s.phase is AwaitingHealth {
                match spec_health_check(external, destination) {
                    Ok(_) => (
                        SignerLoopV { phase: SignerPhase::AwaitingValsets, ..s },
                        SignerActionV::FetchUnsignedValsets,
                    ),
                    Err(p) => (
                        SignerLoopV { phase: SignerPhase::Paused { reason: p }, ..s },
                        SignerActionV::Sleep,
                    ),
                }
            } else {
                (s, SignerActionV::Sleep)
            }
        },
        SignerEventV::ValsetsFetched { result } => {
            if s.phase is AwaitingValsets {
                match result {
                    None => (
                        SignerLoopV { phase: SignerPhase::AwaitingBatch, ..s },
                        SignerActionV::FetchUnsignedBatch,
                    ),
                    Some(vs) => {
                        if vs.len() == 0 {
                            (
                                SignerLoopV { phase: SignerPhase::AwaitingBatch, ..s },
                                SignerActionV::FetchUnsignedBatch,
                            )
                        } else {
                            match spec_confirm_valsets(vs, s.key, s.gravity_id) {
                                Ok(confs) => (
                                    SignerLoopV { phase: SignerPhase::AwaitingValsetSubmit, ..s },
                                    SignerActionV::SubmitConfirmations { confirmations: confs },
                                ),
                                Err(err) => (
                                    SignerLoopV { phase: SignerPhase::Halted, ..s },
                                    SignerActionV::Halt { error: err },
                                ),
                            }
                        }
                    },
                }
            } else {
                (s, SignerActionV::Sleep)
            }
        },
        SignerEventV::BatchFetched { result } => {
            if s.phase is AwaitingBatch {
                match result {
                    Some(Some(b)) => {
                        match spec_confirm_batches(seq![b], s.key, s.gravity_id) {
                            Ok(confs) => (
                                SignerLoopV { phase: SignerPhase::AwaitingBatchSubmit, ..s },
                                SignerActionV::SubmitConfirmations { confirmations: confs },
                            ),
                            Err(err) => (
                                SignerLoopV { phase: SignerPhase::Halted, ..s },
                                SignerActionV::Halt { error: err },
                            ),
                        }
                    },
                    _ => (
                        SignerLoopV { phase: SignerPhase::AwaitingLogicCalls, ..s },
                        SignerActionV::FetchUnsignedLogicCalls,
                    ),
                }
            } else {
                (s, SignerActionV::Sleep)
            }
        },
        SignerEventV::LogicCallsFetched { result } => {
            if s.phase is AwaitingLogicCalls {
                match result {
                    Some(cs) => {
                        if cs.len() == 0 {
                            (SignerLoopV { phase: SignerPhase::Idle, ..s }, SignerActionV::Sleep)
                        } else {
                            match spec_confirm_logic_calls(cs, s.key, s.gravity_id) {
                                Ok(confs) => (
                                    SignerLoopV { phase: SignerPhase::AwaitingCallSubmit, ..s },
                                    SignerActionV::SubmitConfirmations { confirmations: confs },
                                ),
                                Err(err) => (
                                    SignerLoopV { phase: SignerPhase::Halted, ..s },
                                    SignerActionV::Halt { error: err },
                                ),
                            }
                        }
                    },
                    None => (
                        SignerLoopV { phase: SignerPhase::Idle, ..s },
                        SignerActionV::Sleep,
                    ),
                }
            } else {
                (s, SignerActionV::Sleep)
            }
        },
        SignerEventV::SubmitResult { error: _ } => {
            match s.phase {
                SignerPhase::AwaitingValsetSubmit => (
                    SignerLoopV { phase: SignerPhase::AwaitingBatch, ..s },
                    SignerActionV::FetchUnsignedBatch,
                ),
                SignerPhase::AwaitingBatchSubmit => (
                    SignerLoopV { phase: SignerPhase::AwaitingLogicCalls, ..s },
                    SignerActionV::FetchUnsignedLogicCalls,
                ),
                SignerPhase::AwaitingCallSubmit => (
                    SignerLoopV { phase: SignerPhase::Idle, ..s },
                    SignerActionV::Sleep,
                ),
                _ => (s, SignerActionV::Sleep),
            }
        },
    }
}

impl SignerLoop {
    /// A fresh signer loop for the given key and deployment identifier.
    pub fn new(key: [u8; 32], gravity_id: Vec<u8>) -> (r: SignerLoop)
        ensures
            r@.key == key@,
            r@.gravity_id == gravity_id@,
            r@.phase is Idle,
    {
        SignerLoop { key, gravity_id, phase: SignerPhase::Idle }
    }

    /// Takes one step: consumes the observed event and yields the action
    /// to perform before the next event, exactly as the transition
    /// function prescribes.
    pub fn step(self, event: SignerEvent) -> (r: (SignerLoop, SignerAction))
        ensures
            r.0@ == spec_signer_step(self@, event@).0,
            r.1@ == spec_signer_step(self@, event@).1,
    {
        let ghost sv = self@;
        let ghost ev = event@;
        match event {
            SignerEvent::Tick => {
                match self.phase {
                    SignerPhase::Idle | SignerPhase::Paused { .. } => (
                        SignerLoop { phase: SignerPhase::AwaitingHealth, ..self },
                        SignerAction::QueryHealth,
                    ),
                    _ => (self, SignerAction::Sleep),
                }
            },
            SignerEvent::HealthReport { external, destination } => {
                if let SignerPhase::AwaitingHealth = self.phase {
                    match health_check(external, destination) {
                        Ok(_) => (
                            SignerLoop { phase: SignerPhase::AwaitingValsets, ..self },
                            SignerAction::FetchUnsignedValsets,
                        ),
                        Err(p) => (
                            SignerLoop { phase: SignerPhase::Paused { reason: p }, ..self },
                            SignerAction::Sleep,
                        ),
                    }
                } else {
                    (self, SignerAction::Sleep)
                }
            },
            SignerEvent::ValsetsFetched { result } => {
                if let SignerPhase::AwaitingValsets = self.phase {
                    match result {
                        None => (
                            SignerLoop { phase: SignerPhase::AwaitingBatch, ..self },
                            SignerAction::FetchUnsignedBatch,
                        ),
                        Some(vs) => {
                            if vs.len() == 0 {
                                (
                                    SignerLoop { phase: SignerPhase::AwaitingBatch, ..self },
                                    SignerAction::FetchUnsignedBatch,
                                )
                            } else {
                                match signer_set_tx_confirmation_messages(
                                    &vs,
                                    &self.key,
                                    &self.gravity_id,
                                ) {
                                    Ok(confs) => (
                                        SignerLoop {
                                            phase: SignerPhase::AwaitingValsetSubmit,
                                            ..self
                                        },
                                        SignerAction::SubmitConfirmations {
                                            confirmations: confs,
                                        },
                                    ),
                                    Err(err) => (
                                        SignerLoop { phase: SignerPhase::Halted, ..self },
                                        SignerAction::Halt { error: err },
                                    ),
                                }
                            }
                        },
                    }
                } else {
                    (self, SignerAction::Sleep)
                }
            },
            SignerEvent::BatchFetched { result } => {
                if let SignerPhase::AwaitingBatch = self.phase {
                    match result {
                        Some(Some(b)) => {
                            let mut batch_list: Vec<BatchTx> = Vec::new();
                            let ghost bv = b@;
                            batch_list.push(b);
                            proof {
                                assert(batch_list.deep_view() =~= seq![bv]);
                            }
                            match batch_tx_confirmation_messages(
                                &batch_list,
                                &self.key,
                                &self.gravity_id,
                            ) {
                                Ok(confs) => (
                                    SignerLoop { phase: SignerPhase::AwaitingBatchSubmit, ..self },
                                    SignerAction::SubmitConfirmations { confirmations: confs },
                                ),
                                Err(err) => (
                                    SignerLoop { phase: SignerPhase::Halted, ..self },
                                    SignerAction::Halt { error: err },
                                ),
                            }
                        },
                        _ => (
                            SignerLoop { phase: SignerPhase::AwaitingLogicCalls, ..self },
                            SignerAction::FetchUnsignedLogicCalls,
                        ),
                    }
                } else {
                    (self, SignerAction::Sleep)
                }
            },
            SignerEvent::LogicCallsFetched { result } => {
                if let SignerPhase::AwaitingLogicCalls = self.phase {
                    match result {
                        Some(cs) => {
                            if cs.len() == 0 {
                                (
                                    SignerLoop { phase: SignerPhase::Idle, ..self },
                                    SignerAction::Sleep,
                                )
                            } else {
                                match contract_call_tx_confirmation_messages(
                                    &cs,
                                    &self.key,
                                    &self.gravity_id,
                                ) {
                                    Ok(confs) => (
                                        SignerLoop {
                                            phase: SignerPhase::AwaitingCallSubmit,
                                            ..self
                                        },
                                        SignerAction::SubmitConfirmations {
                                            confirmations: confs,
                                        },
                                    ),
                                    Err(err) => (
                                        SignerLoop { phase: SignerPhase::Halted, ..self },
                                        SignerAction::Halt { error: err },
                                    ),
                                }
                            }
                        },
                        None => (
                            SignerLoop { phase: SignerPhase::Idle, ..self },
                            SignerAction::Sleep,
                        ),
                    }
                } else {
                    (self, SignerAction::Sleep)
                }
            },
            SignerEvent::SubmitResult { error: _ } => {
                match self.phase {
                    SignerPhase::AwaitingValsetSubmit => (
                        SignerLoop { phase: SignerPhase::AwaitingBatch, ..self },
                        SignerAction::FetchUnsignedBatch,
                    ),
                    SignerPhase::AwaitingBatchSubmit => (
                        SignerLoop { phase: SignerPhase::AwaitingLogicCalls, ..self },
                        SignerAction::FetchUnsignedLogicCalls,
                    ),
                    SignerPhase::AwaitingCallSubmit => (
                        SignerLoop { phase: SignerPhase::Idle, ..self },
                        SignerAction::Sleep,
                    ),
                    _ => (self, SignerAction::Sleep),
                }
            },
        }
    }
}

} // verus!
