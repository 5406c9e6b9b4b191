//! Why the engine turns an operation down.

use vstd::prelude::*;
use crate::data::Money;

verus! {

/// The reason an operation was rejected. Each reason names the client and
/// the transaction id of the rejected operation.
#[derive(Clone, Copy, Debug, PartialEq, Eq, Structural)]
pub enum TrError {
    /// A deposit or withdrawal of a negative amount.
    InvalidAmount { client: u16, tx: u32, amount: Money },
    /// A deposit or withdrawal under a transaction id that is already on record.
    DuplicateTransaction { client: u16, tx: u32 },
    /// A deposit or withdrawal on a locked account.
    AccountLocked { client: u16, tx: u32 },
    /// A withdrawal of more than the client has available.
    InsufficientFunds { client: u16, tx: u32, amount: Money },
    /// A dispute, resolve or chargeback of a transaction that is not on record.
    TransactionNotFound { client: u16, tx: u32 },
    /// A dispute, resolve or chargeback by a client other than the `owner`
    /// of the transaction.
    ClientMismatch { client: u16, tx: u32, owner: u16 },
    /// A dispute of a transaction already under dispute, or a resolve or
    /// chargeback of one that is not.
    InvalidDisputeState { client: u16, tx: u32 },
    /// An operation that is otherwise in order, but whose resulting
    /// balances cannot be stored as `Money`.
    BalanceOverflow { client: u16, tx: u32 },
}

} // verus!
