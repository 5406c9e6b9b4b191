//! The ledger as a mathematical object: two maps, and the rules by which
//! one operation turns a ledger into the next.
//!
//! Everything here is specification. The executable engine promises that it
//! follows these rules step by step.

use vstd::prelude::*;
use crate::data::{AccountView, ClientRecord, Tr, TrInfoView, TrType};
use crate::error::TrError;

verus! {

/// The state of the engine: the account of every client seen so far and the
/// record of every deposit and withdrawal that can still be disputed.
pub struct Ledger {
    pub accounts: Map<u16, AccountView>,
    pub records: Map<u32, TrInfoView>,
}

impl Ledger {
    /// The ledger before any operation.
    pub open spec fn empty() -> Ledger {
        Ledger { accounts: Map::empty(), records: Map::empty() }
    }

    /// Every account can be stored: its balances and their sum are `Money`.
    pub open spec fn wf(self) -> bool {
        forall|client: u16| #[trigger]
            self.accounts.contains_key(client) ==> self.accounts[client].fits()
    }

    /// The account of `client`, which is the fresh one if the client is new.
    pub open spec fn account(self, client: u16) -> AccountView {
        if self.accounts.contains_key(client) {
            self.accounts[client]
        } else {
            AccountView::fresh()
        }
    }

    /// The ledger once `client` is known to it. Every operation does this
    /// first, whether it is accepted or not.
    pub open spec fn open_account(self, client: u16) -> Ledger {
        Ledger { accounts: self.accounts.insert(client, self.account(client)), records: self.records }
    }

    /// What the account of the operation's client holds once the operation
    /// has been carried out.
    ///
    /// A deposit adds to `available`, a withdrawal takes from it. A dispute
    /// moves the amount of a deposit from `available` to `held`, a resolve
    /// moves it back, and a chargeback takes it out of `held`. The amount of
    /// a withdrawal is negative: disputing and resolving it moves nothing,
    /// and charging it back returns it to `available`. A chargeback locks
    /// the account.
    pub open spec fn account_after(self, tr: Tr) -> AccountView {
        let account = self.account(tr.client);
        let amount = self.records[tr.tx].amount;
        match tr.tp {
            TrType::Deposit(deposited) => account.moved(deposited as int, 0),
            TrType::Withdrawal(withdrawn) => account.moved(-withdrawn, 0),
            TrType::Dispute => if amount >= 0 {
                account.moved(-amount, amount)
            } else {
                account
            },
            TrType::Resolve => if amount >= 0 {
                account.moved(amount, -amount)
            } else {
                account
            },
            TrType::Chargeback => if amount >= 0 {
                account.moved(0, -amount).lock()
            } else {
                account.moved(-amount, 0).lock()
            },
        }
    }

    /// The transaction records once the operation has been carried out.
    ///
    /// A deposit or withdrawal leaves a new record under its id, with a
    /// positive amount for a deposit and a negative one for a withdrawal. A
    /// dispute marks the record, a resolve or chargeback removes it.
    pub open spec fn records_after(self, tr: Tr) -> Map<u32, TrInfoView> {
        match tr.tp {
            TrType::Deposit(deposited) => self.records.insert(
                tr.tx,
                TrInfoView::fresh(tr.client, deposited as int),
            ),
            TrType::Withdrawal(withdrawn) => self.records.insert(
                tr.tx,
                TrInfoView::fresh(tr.client, -withdrawn),
            ),
            TrType::Dispute => self.records.insert(tr.tx, self.records[tr.tx].dispute()),
            TrType::Resolve | TrType::Chargeback => self.records.remove(tr.tx),
        }
    }

    /// Whether the operation is accepted, and if not, why. The first
    /// failing test decides.
    pub open spec fn verdict(self, tr: Tr) -> Result<(), TrError> {
        let client = tr.client;
        let tx = tr.tx;
        let account = self.account(client);
        match tr.tp {
            TrType::Deposit(amount) => if amount < 0 {
                Err(TrError::InvalidAmount { client, tx, amount })
            } else if account.locked {
                Err(TrError::AccountLocked { client, tx })
            } else if self.records.contains_key(tx) {
                Err(TrError::DuplicateTransaction { client, tx })
            } else if !self.account_after(tr).fits() {
                Err(TrError::BalanceOverflow { client, tx })
            } else {
                Ok(())
            },
            TrType::Withdrawal(amount) => if amount < 0 {
                Err(TrError::InvalidAmount { client, tx, amount })
            } else if account.locked {
                Err(TrError::AccountLocked { client, tx })
            } else if account.available < amount {
                Err(TrError::InsufficientFunds { client, tx, amount })
            } else if self.records.contains_key(tx) {
                Err(TrError::DuplicateTransaction { client, tx })
            } else {
                Ok(())
            },
            TrType::Dispute => self.settlement_verdict(tr, false),
            TrType::Resolve | TrType::Chargeback => self.settlement_verdict(tr, true),
        }
    }

    /// The verdict on a dispute, resolve or chargeback: the transaction must
    /// be on record, belong to the operation's client, and be under dispute
    /// exactly if `disputed` says so.
    pub open spec fn settlement_verdict(self, tr: Tr, disputed: bool) -> Result<(), TrError> {
        let client = tr.client;
        let tx = tr.tx;
        if !self.records.contains_key(tx) {
            Err(TrError::TransactionNotFound { client, tx })
        } else if self.records[tx].client != client {
            Err(TrError::ClientMismatch { client, tx, owner: self.records[tx].client })
        } else if self.records[tx].disputed != disputed {
            Err(TrError::InvalidDisputeState { client, tx })
        } else if !self.account_after(tr).fits() {
            Err(TrError::BalanceOverflow { client, tx })
        } else {
            Ok(())
        }
    }

    /// The ledger after one operation. An accepted operation changes the
    /// client's account and the records; a rejected one changes nothing,
    /// except that the client's account now exists.
    pub open spec fn apply(self, tr: Tr) -> Ledger {
        if self.verdict(tr) is Ok {
            Ledger {
                accounts: self.accounts.insert(tr.client, self.account_after(tr)),
                records: self.records_after(tr),
            }
        } else {
            self.open_account(tr.client)
        }
    }

    /// The ledger after the operations in `trs`, taken in order.
    pub open spec fn apply_all(self, trs: Seq<Tr>) -> Ledger
        decreases trs.len(),
    {
        if trs.len() == 0 {
            self
        } else {
            self.apply_all(trs.drop_last()).apply(trs.last())
        }
    }

    /// The verdict on each operation in `trs`, each judged on the ledger
    /// that the operations before it have left.
    pub open spec fn verdicts(self, trs: Seq<Tr>) -> Seq<Result<(), TrError>> {
        Seq::new(trs.len(), |i: int| self.apply_all(trs.take(i)).verdict(trs[i]))
    }

    /// Whether `rows` is the report of this ledger: one row per client, in
    /// ascending order of client id, each showing that client's account.
    pub open spec fn reported_by(self, rows: Seq<ClientRecord>) -> bool {
        &&& forall|i: int, j: int|
            0 <= i < j < rows.len() ==> rows[i].client < rows[j].client
        &&& forall|i: int|
            0 <= i < rows.len() ==> self.accounts.contains_key(#[trigger] rows[i].client)
                && rows[i].shows(rows[i].client, self.accounts[rows[i].client])
        &&& forall|client: u16|
            self.accounts.contains_key(client) ==> exists|i: int|
                0 <= i < rows.len() && #[trigger] rows[i].client == client
    }
}

} // verus!
