//! The reasons for which a transaction is not applied.
use vstd::prelude::*;

verus! {

/// Why a transaction was refused or skipped.
#[derive(Clone, Copy, Debug, PartialEq, Eq, Structural)]
pub enum TransactionError {
    /// The funds do not cover the amount.
    NotEnoughFunds,
    /// A dispute has made the available funds negative.
    AvailableFundsNegative,
    /// The referenced transaction does not exist.
    ReferencedTransactionMissing(u32),
    /// A transaction with this id has already run.
    TransactionAlreadyCompleted(u32),
    /// The transaction was skipped: the client's account is locked.
    TransactionSkippedAccountLocked(u32, u16),
    /// The transaction is already under dispute (or its dispute is settled).
    AlreadyDisputed(u32),
    /// The transaction is not under dispute.
    NotYetDisputed(u32),
    /// The transaction's dispute is already settled.
    AlreadyResolved(u32),
}

} // verus!
