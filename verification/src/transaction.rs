//! A line of the transaction list.
use crate::amount::Amount;
use vstd::prelude::*;

verus! {

/// The kinds of transaction.
#[derive(Clone, Copy, Debug, PartialEq, Eq, Structural)]
pub enum TransactionType {
    Deposit,
    Withdrawal,
    Dispute,
    Resolve,
    Chargeback,
}

/// One transaction: its kind, the client it names, its id, and its amount (disputes,
/// resolutions and chargebacks carry no amount of their own and refer to the transaction
/// with the same id).
#[derive(Clone, Copy, Debug)]
pub struct Transaction {
    pub type_: TransactionType,
    pub client: u16,
    pub tx: u32,
    pub amount: Amount,
}

} // verus!
