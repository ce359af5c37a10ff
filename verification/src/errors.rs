//! The error taxonomy of a fill attempt. Every stage fails fast with one
//! typed error; no stage retries internally.

use vstd::prelude::*;
use crate::types::TxHash;

verus! {

/// The terminal error of a fill attempt.
#[derive(Clone, Copy, Debug, PartialEq, Eq, Structural)]
pub enum FillError {
    /// The aggregator was handed zero orders.
    EmptyOrderSet,
    /// A fill was requested for a chain id with no configured fill
    /// contract.
    UnknownChain(u64),
    /// The lead order's deadline does not fit the engine's deadline type.
    InvalidDeadline,
    /// The signing capability rejected or failed.
    SigningFailed,
    /// Filling or signing a transaction failed; the whole batch is
    /// discarded.
    EncodingFailed,
    /// The relay rejected a bundle submission.
    RelayRejected,
    /// A transaction was not confirmed within the watch timeout.
    ConfirmationTimeout {
        /// The chain the transaction was expected to land on.
        chain_id: u64,
        /// The transaction that timed out.
        tx_hash: TxHash,
    },
    /// A chain provider failed while watching for a confirmation.
    ConfirmationError {
        /// The chain whose provider failed.
        chain_id: u64,
        /// The transaction being watched.
        tx_hash: TxHash,
    },
}

/// The short stable name of each error kind.
pub open spec fn spec_error_name(e: FillError) -> Seq<char> {
    match e {
        FillError::EmptyOrderSet => "empty order set"@,
        FillError::UnknownChain(_) => "unknown chain"@,
        FillError::InvalidDeadline => "invalid deadline"@,
        FillError::SigningFailed => "signing failed"@,
        FillError::EncodingFailed => "encoding failed"@,
        FillError::RelayRejected => "relay rejected"@,
        FillError::ConfirmationTimeout { .. } => "confirmation timeout"@,
        FillError::ConfirmationError { .. } => "confirmation error"@,
    }
}

impl FillError {
    /// A short stable name for the error kind.
    pub fn name(&self) -> (r: &'static str)
        ensures
            r@ == spec_error_name(*self),
    {
        match self {
            FillError::EmptyOrderSet => "empty order set",
            FillError::UnknownChain(_) => "unknown chain",
            FillError::InvalidDeadline => "invalid deadline",
            FillError::SigningFailed => "signing failed",
            FillError::EncodingFailed => "encoding failed",
            FillError::RelayRejected => "relay rejected",
            FillError::ConfirmationTimeout { .. } => "confirmation timeout",
            FillError::ConfirmationError { .. } => "confirmation error",
        }
    }
}

} // verus!
