//! The values the engine works on: operations, accounts, transaction
//! records and the per-client rows it reports.

use vstd::prelude::*;
use vstd::string::StringSliceAdditionalSpecFns;
use vstd::utf8::encode_utf8_decode_utf8;

verus! {

/// An amount of money: a whole number of the smallest unit the ledger keeps.
pub type Money = i64;

/// Whether a mathematical amount can be stored as `Money`.
pub open spec fn is_money(amount: int) -> bool {
    i64::MIN <= amount <= i64::MAX
}

/// The balances of one client as mathematical integers.
pub struct AccountView {
    pub available: int,
    pub held: int,
    pub locked: bool,
}

impl AccountView {
    /// The account of a client that has not been seen before.
    pub open spec fn fresh() -> AccountView {
        AccountView { available: 0, held: 0, locked: false }
    }

    /// Everything the client owns, whether free or held.
    pub open spec fn total(self) -> int {
        self.available + self.held
    }

    /// Whether both balances and their sum can be stored as `Money`.
    pub open spec fn fits(self) -> bool {
        is_money(self.available) && is_money(self.held) && is_money(self.total())
    }

    /// The account after `available` grew by `by_available` and `held` by
    /// `by_held` (either may be negative).
    pub open spec fn moved(self, by_available: int, by_held: int) -> AccountView {
        AccountView {
            available: self.available + by_available,
            held: self.held + by_held,
            locked: self.locked,
        }
    }

    /// The same balances on a locked account.
    pub open spec fn lock(self) -> AccountView {
        AccountView { available: self.available, held: self.held, locked: true }
    }
}

/// The balances of one client.
#[derive(Clone, Copy, Debug, PartialEq, Eq, Structural)]
pub struct Account {
    pub available: Money,
    pub held: Money,
    pub locked: bool,
}

impl View for Account {
    type V = AccountView;

    open spec fn view(&self) -> AccountView {
        AccountView {
            available: self.available as int,
            held: self.held as int,
            locked: self.locked,
        }
    }
}

impl Account {
    /// An empty, unlocked account.
    pub fn new() -> (account: Self)
        ensures
            account@ == AccountView::fresh(),
    {
        Self { available: 0, held: 0, locked: false }
    }
}

/// What an operation asks the engine to do.
#[derive(Clone, Copy, Debug, PartialEq, Eq, Structural)]
pub enum TrType {
    /// Credit the amount to the client.
    Deposit(Money),
    /// Debit the amount from the client.
    Withdrawal(Money),
    /// Contest an earlier deposit or withdrawal.
    Dispute,
    /// Settle a dispute in the client's favour.
    Resolve,
    /// Settle a dispute against the client and lock the account.
    Chargeback,
}

/// One operation: what to do, for which client, under which transaction id.
#[derive(Clone, Copy, Debug, PartialEq, Eq, Structural)]
pub struct Tr {
    pub tp: TrType,
    pub client: u16,
    pub tx: u32,
}

impl Tr {
    /// The operation `tp` for `client` under the transaction id `tx`.
    pub fn new(tp: TrType, client: u16, tx: u32) -> (tr: Self)
        ensures
            tr == (Tr { tp, client, tx }),
    {
        Self { tp, client, tx }
    }
}

/// A transaction record as mathematical values.
pub struct TrInfoView {
    pub client: u16,
    /// Positive for a deposit, negative for a withdrawal.
    pub amount: int,
    pub disputed: bool,
}

impl TrInfoView {
    /// The record a deposit or withdrawal leaves behind.
    pub open spec fn fresh(client: u16, amount: int) -> TrInfoView {
        TrInfoView { client, amount, disputed: false }
    }

    /// The same record once it is under dispute.
    pub open spec fn dispute(self) -> TrInfoView {
        TrInfoView { client: self.client, amount: self.amount, disputed: true }
    }
}

/// What the engine remembers of an accepted deposit or withdrawal: the
/// owning client, the signed amount (positive for a deposit, negative for a
/// withdrawal) and whether it is under dispute.
#[derive(Clone, Copy, Debug, PartialEq, Eq, Structural)]
pub struct TrInfo {
    pub client: u16,
    pub amount: Money,
    pub has_disputed: bool,
}

impl View for TrInfo {
    type V = TrInfoView;

    open spec fn view(&self) -> TrInfoView {
        TrInfoView {
            client: self.client,
            amount: self.amount as int,
            disputed: self.has_disputed,
        }
    }
}

impl TrInfo {
    /// The record of a transaction that nobody has disputed.
    pub fn new(client: u16, amount: Money) -> (info: Self)
        ensures
            info@ == TrInfoView::fresh(client, amount as int),
    {
        Self { client, amount, has_disputed: false }
    }
}

/// The row reported for one client.
#[derive(Clone, Copy, Debug, PartialEq, Eq, Structural)]
pub struct ClientRecord {
    pub client: u16,
    pub available: Money,
    pub held: Money,
    pub total: Money,
    pub locked: bool,
}

impl ClientRecord {
    /// Whether this row reports exactly the given account of the given
    /// client, with `total` the sum of the two balances.
    pub open spec fn shows(self, client: u16, account: AccountView) -> bool {
        &&& self.client == client
        &&& self.available == account.available
        &&& self.held == account.held
        &&& self.total == account.available + account.held
        &&& self.locked == account.locked
    }

    /// The row for a client and its account.
    pub fn from(pair: (&u16, &Account)) -> (record: Self)
        requires
            pair.1@.fits(),
        ensures
            record.shows(*pair.0, pair.1@),
    {
        let (client, account) = pair;
        Self {
            client: *client,
            available: account.available,
            held: account.held,
            total: account.available + account.held,
            locked: account.locked,
        }
    }
}

/// One row of input before it is known to be an operation: the name of the
/// operation, the client, the transaction id and the amount, if the row has
/// one.
#[derive(Debug)]
pub struct TrRecord {
    pub tr_type: String,
    pub client: u16,
    pub tx: u32,
    pub amount: Option<Money>,
}

/// Why a row is no operation.
#[derive(Clone, Copy, Debug, PartialEq, Eq, Structural)]
pub enum TrRecordError {
    /// A deposit or withdrawal without an amount.
    MissingAmount { tx: u32 },
    /// A name that is none of the five operations.
    UnknownType { tx: u32 },
}

impl TrRecord {
    /// The operation that the row stands for.
    ///
    /// The name decides the kind, and is matched exactly. A deposit or a
    /// withdrawal needs an amount; on the other three an amount is ignored.
    pub open spec fn decoded(self) -> Result<Tr, TrRecordError> {
        let client = self.client;
        let tx = self.tx;
        if self.tr_type@ == "deposit"@ {
            match self.amount {
                Some(amount) => Ok(Tr { tp: TrType::Deposit(amount), client, tx }),
                None => Err(TrRecordError::MissingAmount { tx }),
            }
        } else if self.tr_type@ == "withdrawal"@ {
            match self.amount {
                Some(amount) => Ok(Tr { tp: TrType::Withdrawal(amount), client, tx }),
                None => Err(TrRecordError::MissingAmount { tx }),
            }
        } else if self.tr_type@ == "dispute"@ {
            Ok(Tr { tp: TrType::Dispute, client, tx })
        } else if self.tr_type@ == "resolve"@ {
            Ok(Tr { tp: TrType::Resolve, client, tx })
        } else if self.tr_type@ == "chargeback"@ {
            Ok(Tr { tp: TrType::Chargeback, client, tx })
        } else {
            Err(TrRecordError::UnknownType { tx })
        }
    }
}

impl Tr {
    /// Reads a row as an operation, or says why it is none.
    pub fn try_from(csv_row: TrRecord) -> (res: Result<Tr, TrRecordError>)
        ensures
            res == csv_row.decoded(),
    {
        let client = csv_row.client;
        let tx = csv_row.tx;
        let name = csv_row.tr_type.as_str();
        if str_eq(name, "deposit") {
            match csv_row.amount {
                None => Err(TrRecordError::MissingAmount { tx }),
                Some(amount) => Ok(Tr { tp: TrType::Deposit(amount), client, tx }),
            }
        } else if str_eq(name, "withdrawal") {
            match csv_row.amount {
                None => Err(TrRecordError::MissingAmount { tx }),
                Some(amount) => Ok(Tr { tp: TrType::Withdrawal(amount), client, tx }),
            }
        } else if str_eq(name, "dispute") {
            Ok(Tr { tp: TrType::Dispute, client, tx })
        } else if str_eq(name, "resolve") {
            Ok(Tr { tp: TrType::Resolve, client, tx })
        } else if str_eq(name, "chargeback") {
            Ok(Tr { tp: TrType::Chargeback, client, tx })
        } else {
            Err(TrRecordError::UnknownType { tx })
        }
    }
}

/// Whether two strings hold the same characters. It compares their bytes:
/// two strings with the same encoding are the same string.
fn str_eq(left: &str, right: &str) -> (same: bool)
    ensures
        same == (left@ == right@),
{
    let a = left.as_bytes();
    let b = right.as_bytes();
    proof {
        encode_utf8_decode_utf8(left@);
        encode_utf8_decode_utf8(right@);
    }
    if a.len() != b.len() {
        return false;
    }
    let mut i: usize = 0;
    while i < a.len()
        invariant
            i <= a.len(),
            a.len() == b.len(),
            a@ == left.spec_bytes(),
            b@ == right.spec_bytes(),
            forall|j: int| 0 <= j < i ==> a@[j] == b@[j],
        decreases a.len() - i,
    {
        if a[i] != b[i] {
            return false;
        }
        i += 1;
    }
    assert(a@ =~= b@);
    true
}

} // verus!
