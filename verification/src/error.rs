//! Error taxonomy of the orchestrator core.

use vstd::prelude::*;

verus! {

/// A distinct failure for each validation the event decoder performs on a
/// raw log record.  Decoding is all-or-nothing: any of these aborts the
/// whole poll cycle.
#[derive(Clone, Copy, Debug, PartialEq, Eq, Structural)]
pub enum DecodeError {
    /// An expected indexed topic is absent.
    TooFewTopics,
    /// A nonce, power or array-length word exceeds the representable range
    /// of its semantic type.
    NumericOverflow,
    /// The address count and the power count of a validator-set update
    /// disagree.
    ArrayLengthMismatch,
    /// An address word is not a 32-byte slot holding a 12-byte pad and a
    /// 20-byte address.
    AddressParseError,
    /// The log carries no block height, so it is not part of a confirmed
    /// block yet.
    MissingBlockHeight,
    /// The log carries no transaction hash.
    MissingTransactionHash,
    /// The opaque data payload is shorter than the fixed slots the event
    /// layout requires.
    TruncatedData,
}

/// Loop-level failures of the oracle and signer roles.
#[derive(Clone, Copy, Debug, PartialEq, Eq, Structural)]
pub enum GravityError {
    /// A raw log of the current scan window failed to decode.
    InvalidEventLog(DecodeError),
    /// The destination chain accepted a claim submission but its recorded
    /// cursor did not advance within the wait window.
    ClaimsNotProcessed,
    /// A claim or confirmation submission was rejected for a reason other
    /// than a benign account-sequence race.
    SubmissionFailed,
    /// The destination chain has not recorded any signer set yet, so no
    /// resume height can be derived.
    ValsetNotFound,
    /// The signing key is not a valid scalar for the external chain's
    /// signature scheme; the signer cannot proceed.
    InvalidSigningKey,
    /// The domain-separation identifier does not fit its 32-byte slot in
    /// the canonical confirmation encoding.
    MalformedGravityId,
    /// A contract call's invalidation scope is not the 32-byte word the
    /// canonical encoding embeds.
    MalformedInvalidationScope,
    /// A token record's amount or contract identifier from the wire could
    /// not be parsed.
    MalformedTokenData,
}

} // verus!
