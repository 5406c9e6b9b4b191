//! The engine: it owns the ledger and is the only one to change it.

use std::collections::HashMap;
use vstd::prelude::*;
use crate::data::{Account, AccountView, ClientRecord, Money, Tr, TrInfo, TrType};
use crate::error::TrError;
use crate::ledger::Ledger;

verus! {

broadcast use vstd::std_specs::hash::group_hash_axioms;

/// Applies operations to the accounts, one at a time and in order.
pub struct TrProcessor {
    tx_to_tr_info: HashMap<u32, TrInfo>,
    client_to_account: HashMap<u16, Account>,
}

impl View for TrProcessor {
    type V = Ledger;

    closed spec fn view(&self) -> Ledger {
        Ledger {
            accounts: Map::new(
                |client: u16| self.client_to_account@.contains_key(client),
                |client: u16| self.client_to_account@[client]@,
            ),
            records: Map::new(
                |tx: u32| self.tx_to_tr_info@.contains_key(tx),
                |tx: u32| self.tx_to_tr_info@[tx]@,
            ),
        }
    }
}

/// The account with the given balances and lock, if the balances and their
/// sum can be stored.
fn account_with(available: i128, held: i128, locked: bool) -> (account: Option<Account>)
    ensures
        account matches Some(a) ==> a@ == (AccountView { available: available as int, held: held as int, locked }),
        account is Some <==> (AccountView { available: available as int, held: held as int, locked }).fits(),
{
    if available < i64::MIN as i128 || available > i64::MAX as i128 {
        return None;
    }
    if held < i64::MIN as i128 || held > i64::MAX as i128 {
        return None;
    }
    let total: i128 = available + held;
    if total < i64::MIN as i128 || total > i64::MAX as i128 {
        return None;
    }
    Some(Account { available: available as Money, held: held as Money, locked })
}

impl TrProcessor {
    /// The invariant of the engine: every account it holds can be reported.
    pub open spec fn wf(&self) -> bool {
        self@.wf()
    }

    /// An engine that has seen no operation.
    pub fn new() -> (processor: Self)
        ensures
            processor.wf(),
            processor@ == Ledger::empty(),
    {
        let processor = TrProcessor {
            tx_to_tr_info: HashMap::new(),
            client_to_account: HashMap::new(),
        };
        assert(processor@.accounts =~= Map::empty());
        assert(processor@.records =~= Map::empty());
        processor
    }

    /// The account of `client`, which is created empty if the client is new.
    fn open_account(&mut self, client: u16) -> (account: Account)
        requires
            old(self).wf(),
        ensures
            final(self).wf(),
            final(self)@ == old(self)@.open_account(client),
            account@ == old(self)@.account(client),
            account@.fits(),
    {
        let account = match self.client_to_account.get(&client) {
            Some(account) => *account,
            None => {
                let account = Account::new();
                self.client_to_account.insert(client, account);
                account
            },
        };
        assert(self@.accounts.contains_key(client));
        assert(self@.accounts =~= old(self)@.open_account(client).accounts);
        assert(self@.records =~= old(self)@.records);
        account
    }

    /// The record that a dispute, resolve or chargeback refers to: it must be
    /// on record, belong to the operation's client, and be under dispute
    /// exactly if `disputed` says so.
    fn disputable(&self, tr: Tr, disputed: bool) -> (res: Result<TrInfo, TrError>)
        ensures
            match res {
                Ok(info) => {
                    &&& self@.records.contains_key(tr.tx)
                    &&& self@.records[tr.tx] == info@
                    &&& info.client == tr.client
                    &&& info.has_disputed == disputed
                },
                Err(e) => {
                    &&& self@.settlement_verdict(tr, disputed) == Err::<(), TrError>(e)
                    &&& !(e is BalanceOverflow)
                },
            },
    {
        let client = tr.client;
        let tx = tr.tx;
        match self.tx_to_tr_info.get(&tx) {
            None => Err(TrError::TransactionNotFound { client, tx }),
            Some(info) => {
                if info.client != client {
                    Err(TrError::ClientMismatch { client, tx, owner: info.client })
                } else if info.has_disputed != disputed {
                    Err(TrError::InvalidDisputeState { client, tx })
                } else {
                    Ok(*info)
                }
            },
        }
    }

    /// Stores the outcome of an accepted operation.
    fn commit_account(&mut self, client: u16, account: Account)
        requires
            old(self).wf(),
            account@.fits(),
        ensures
            final(self).wf(),
            final(self)@.accounts == old(self)@.accounts.insert(client, account@),
            final(self)@.records == old(self)@.records,
    {
        self.client_to_account.insert(client, account);
        assert(self@.accounts =~= old(self)@.accounts.insert(client, account@));
        assert(self@.records =~= old(self)@.records);
    }

    /// Applies one operation.
    ///
    /// The operation is accepted or rejected as `Ledger::verdict` says, and
    /// the engine moves to the ledger that `Ledger::apply` gives. A rejected
    /// operation changes no balance and no record: all it leaves behind is
    /// the account of its client, empty if the client was new.
    pub fn apply(&mut self, tr: Tr) -> (res: Result<(), TrError>)
        requires
            old(self).wf(),
        ensures
            final(self).wf(),
            final(self)@ == old(self)@.apply(tr),
            res == old(self)@.verdict(tr),
            res is Err ==> final(self)@ == old(self)@.open_account(tr.client),
    {
        let client = tr.client;
        let tx = tr.tx;
        let account = self.open_account(client);
        let ghost before = old(self)@;
        match tr.tp {
            TrType::Deposit(amount) => {
                if amount < 0 {
                    return Err(TrError::InvalidAmount { client, tx, amount });
                }
                if account.locked {
                    return Err(TrError::AccountLocked { client, tx });
                }
                if self.tx_to_tr_info.contains_key(&tx) {
                    return Err(TrError::DuplicateTransaction { client, tx });
                }
                let after = account_with(
                    account.available as i128 + amount as i128,
                    account.held as i128,
                    account.locked,
                );
                match after {
                    None => Err(TrError::BalanceOverflow { client, tx }),
                    Some(after) => {
                        self.tx_to_tr_info.insert(tx, TrInfo::new(client, amount));
                        self.commit_account(client, after);
                        assert(self@.records =~= before.records_after(tr));
                        assert(self@.accounts =~= before.accounts.insert(client, after@));
                        Ok(())
                    },
                }
            },
            TrType::Withdrawal(amount) => {
                if amount < 0 {
                    return Err(TrError::InvalidAmount { client, tx, amount });
                }
                if account.locked {
                    return Err(TrError::AccountLocked { client, tx });
                }
                if account.available < amount {
                    return Err(TrError::InsufficientFunds { client, tx, amount });
                }
                if self.tx_to_tr_info.contains_key(&tx) {
                    return Err(TrError::DuplicateTransaction { client, tx });
                }
                let after = Account {
                    available: account.available - amount,
                    held: account.held,
                    locked: account.locked,
                };
                self.tx_to_tr_info.insert(tx, TrInfo::new(client, -amount));
                self.commit_account(client, after);
                assert(self@.records =~= before.records_after(tr));
                assert(self@.accounts =~= before.accounts.insert(client, after@));
                Ok(())
            },
            TrType::Dispute => {
                let info = self.disputable(tr, false)?;
                let after = if info.amount >= 0 {
                    account_with(
                        account.available as i128 - info.amount as i128,
                        account.held as i128 + info.amount as i128,
                        account.locked,
                    )
                } else {
                    Some(account)
                };
                match after {
                    None => Err(TrError::BalanceOverflow { client, tx }),
                    Some(after) => {
                        self.tx_to_tr_info.insert(
                            tx,
                            TrInfo { client: info.client, amount: info.amount, has_disputed: true },
                        );
                        self.commit_account(client, after);
                        assert(self@.records =~= before.records_after(tr));
                        assert(self@.accounts =~= before.accounts.insert(client, after@));
                        Ok(())
                    },
                }
            },
            TrType::Resolve => {
                let info = self.disputable(tr, true)?;
                let after = if info.amount >= 0 {
                    account_with(
                        account.available as i128 + info.amount as i128,
                        account.held as i128 - info.amount as i128,
                        account.locked,
                    )
                } else {
                    Some(account)
                };
                match after {
                    None => Err(TrError::BalanceOverflow { client, tx }),
                    Some(after) => {
                        self.tx_to_tr_info.remove(&tx);
                        self.commit_account(client, after);
                        assert(self@.records =~= before.records_after(tr));
                        assert(self@.accounts =~= before.accounts.insert(client, after@));
                        Ok(())
                    },
                }
            },
            TrType::Chargeback => {
                let info = self.disputable(tr, true)?;
                let after = if info.amount >= 0 {
                    account_with(
                        account.available as i128,
                        account.held as i128 - info.amount as i128,
                        true,
                    )
                } else {
                    account_with(
                        account.available as i128 - info.amount as i128,
                        account.held as i128,
                        true,
                    )
                };
                match after {
                    None => Err(TrError::BalanceOverflow { client, tx }),
                    Some(after) => {
                        self.tx_to_tr_info.remove(&tx);
                        self.commit_account(client, after);
                        assert(self@.records =~= before.records_after(tr));
                        assert(self@.accounts =~= before.accounts.insert(client, after@));
                        Ok(())
                    },
                }
            },
        }
    }

    /// Applies the operations in order and returns the verdict on each.
    ///
    /// A rejected operation does not stop the run: the operations after it
    /// are applied to the ledger it left unchanged.
    pub fn try_process(&mut self, trs: &[Tr]) -> (results: Vec<Result<(), TrError>>)
        requires
            old(self).wf(),
        ensures
            final(self).wf(),
            final(self)@ == old(self)@.apply_all(trs@),
            results@ == old(self)@.verdicts(trs@),
    {
        let ghost start = self@;
        let mut results: Vec<Result<(), TrError>> = Vec::new();
        let mut i: usize = 0;
        while i < trs.len()
            invariant
                i <= trs.len(),
                self.wf(),
                self@ == start.apply_all(trs@.take(i as int)),
                results@.len() == i,
                forall|j: int|
                    0 <= j < i ==> results@[j] == start.apply_all(trs@.take(j)).verdict(trs@[j]),
            decreases trs.len() - i,
        {
            proof {
                assert(trs@.take(i + 1).drop_last() =~= trs@.take(i as int));
            }
            let res = self.apply(trs[i]);
            results.push(res);
            i += 1;
        }
        proof {
            assert(trs@.take(i as int) =~= trs@);
            assert(results@ =~= start.verdicts(trs@));
        }
        results
    }

    /// Applies the operations in order, whatever the verdict on each.
    pub fn process(&mut self, trs: &[Tr])
        requires
            old(self).wf(),
        ensures
            final(self).wf(),
            final(self)@ == old(self)@.apply_all(trs@),
    {
        let _ = self.try_process(trs);
    }

    /// Applies one operation, whatever the verdict on it.
    pub fn process_single(&mut self, tr: Tr)
        requires
            old(self).wf(),
        ensures
            final(self).wf(),
            final(self)@ == old(self)@.apply(tr),
    {
        let _ = self.apply(tr);
    }

    /// The report of the ledger: one row for every client seen so far, in
    /// ascending order of client id. Each row shows the client's balances,
    /// their sum and the lock. The engine is left as it is.
    pub fn get_client_records(&self) -> (rows: Vec<ClientRecord>)
        requires
            self.wf(),
        ensures
            self@.reported_by(rows@),
            forall|i: int|
                0 <= i < rows@.len() ==> (#[trigger] rows@[i]).total == rows@[i].available
                    + rows@[i].held,
    {
        // Every possible client id is looked up in turn, so the rows come
        // out in order whatever the order inside the map.
        let mut rows: Vec<ClientRecord> = Vec::new();
        let mut next: u32 = 0;
        while next <= 0xffff
            invariant
                next <= 0x1_0000,
                self.wf(),
                forall|i: int, j: int|
                    0 <= i < j < rows@.len() ==> rows@[i].client < rows@[j].client,
                forall|i: int|
                    0 <= i < rows@.len() ==> (#[trigger] rows@[i].client) < next
                        && self@.accounts.contains_key(rows@[i].client)
                        && rows@[i].shows(rows@[i].client, self@.accounts[rows@[i].client]),
                forall|client: u16|
                    client < next && self@.accounts.contains_key(client) ==> exists|i: int|
                        0 <= i < rows@.len() && #[trigger] rows@[i].client == client,
            decreases 0x1_0000 - next,
        {
            let client: u16 = next as u16;
            let ghost before = rows@;
            match self.client_to_account.get(&client) {
                Some(account) => {
                    assert(self@.accounts.contains_key(client));
                    rows.push(ClientRecord::from((&client, account)));
                    proof {
                        assert forall|other: u16|
                            other < next + 1 && self@.accounts.contains_key(other) implies exists|
                            i: int,
                        |
                            0 <= i < rows@.len() && #[trigger] rows@[i].client == other by {
                            if other == client {
                                assert(rows@[before.len() as int].client == other);
                            } else {
                                let i = choose|i: int|
                                    0 <= i < before.len() && #[trigger] before[i].client == other;
                                assert(rows@[i].client == other);
                            }
                        }
                    }
                },
                None => {},
            }
            next += 1;
        }
        assert forall|i: int| 0 <= i < rows@.len() implies (#[trigger] rows@[i]).total
            == rows@[i].available + rows@[i].held by {
            assert(self@.accounts.contains_key(rows@[i].client));
        }
        rows
    }
}

} // verus!
