//! What the rules of the ledger guarantee, whatever the operations are.

use vstd::prelude::*;
use crate::data::{ClientRecord, Tr, TrType};
use crate::ledger::Ledger;

verus! {

/// Whether the operation is a deposit or a withdrawal.
pub open spec fn is_funding(tr: Tr) -> bool {
    tr.tp is Deposit || tr.tp is Withdrawal
}

/// An operation leaves every account storable.
pub proof fn lemma_apply_keeps_wf(ledger: Ledger, tr: Tr)
    requires
        ledger.wf(),
    ensures
        ledger.apply(tr).wf(),
{
}

/// Any run of operations leaves every account storable.
pub proof fn lemma_apply_all_keeps_wf(ledger: Ledger, trs: Seq<Tr>)
    requires
        ledger.wf(),
    ensures
        ledger.apply_all(trs).wf(),
    decreases trs.len(),
{
    if trs.len() > 0 {
        lemma_apply_all_keeps_wf(ledger, trs.drop_last());
        lemma_apply_keeps_wf(ledger.apply_all(trs.drop_last()), trs.last());
    }
}

/// A rejected operation has no effect beyond making its client known: no
/// record changes, no account that existed changes, and the client's own
/// account is the one it had, or an empty one if it had none.
pub proof fn lemma_rejected_changes_nothing(ledger: Ledger, tr: Tr)
    requires
        ledger.verdict(tr) is Err,
    ensures
        ledger.apply(tr).records == ledger.records,
        ledger.apply(tr).accounts == ledger.accounts.insert(tr.client, ledger.account(tr.client)),
        forall|client: u16| ledger.apply(tr).account(client) == ledger.account(client),
        ledger.accounts.contains_key(tr.client) ==> ledger.apply(tr) == ledger,
{
    if ledger.accounts.contains_key(tr.client) {
        assert(ledger.apply(tr).accounts =~= ledger.accounts);
    }
}

/// An operation touches no account but that of its own client.
pub proof fn lemma_other_accounts_untouched(ledger: Ledger, tr: Tr, client: u16)
    requires
        client != tr.client,
    ensures
        ledger.apply(tr).accounts.contains_key(client) == ledger.accounts.contains_key(client),
        ledger.apply(tr).account(client) == ledger.account(client),
{
}

/// An account is never deleted: a client known before a run of operations
/// is known after it.
pub proof fn lemma_accounts_are_never_deleted(ledger: Ledger, trs: Seq<Tr>, client: u16)
    requires
        ledger.accounts.contains_key(client),
    ensures
        ledger.apply_all(trs).accounts.contains_key(client),
    decreases trs.len(),
{
    if trs.len() > 0 {
        lemma_accounts_are_never_deleted(ledger, trs.drop_last(), client);
    }
}

/// A deposit or withdrawal on a locked account is rejected and leaves the
/// whole ledger as it was.
pub proof fn lemma_locked_account_rejects_funding(ledger: Ledger, tr: Tr)
    requires
        ledger.account(tr.client).locked,
        is_funding(tr),
    ensures
        ledger.verdict(tr) is Err,
        ledger.apply(tr) == ledger,
{
    lemma_rejected_changes_nothing(ledger, tr);
}

/// No operation unlocks an account.
pub proof fn lemma_lock_survives_apply(ledger: Ledger, tr: Tr, client: u16)
    requires
        ledger.account(client).locked,
    ensures
        ledger.apply(tr).account(client).locked,
{
}

/// A locked account stays locked through any run of operations.
pub proof fn lemma_lock_is_permanent(ledger: Ledger, trs: Seq<Tr>, client: u16)
    requires
        ledger.account(client).locked,
    ensures
        ledger.apply_all(trs).account(client).locked,
    decreases trs.len(),
{
    if trs.len() > 0 {
        lemma_lock_is_permanent(ledger, trs.drop_last(), client);
        lemma_lock_survives_apply(ledger.apply_all(trs.drop_last()), trs.last(), client);
    }
}

/// Once an account is locked, no later deposit or withdrawal changes it:
/// after any run of operations, a deposit or withdrawal for that client is
/// rejected and leaves the ledger as it was.
pub proof fn lemma_locked_balances_are_frozen(ledger: Ledger, trs: Seq<Tr>, tr: Tr)
    requires
        ledger.account(tr.client).locked,
        is_funding(tr),
    ensures
        ledger.apply_all(trs).verdict(tr) is Err,
        ledger.apply_all(trs).apply(tr) == ledger.apply_all(trs),
{
    lemma_lock_is_permanent(ledger, trs, tr.client);
    lemma_locked_account_rejects_funding(ledger.apply_all(trs), tr);
}

/// A record that an operation leaves on record keeps its owner and its
/// amount.
pub proof fn lemma_record_keeps_owner(ledger: Ledger, tr: Tr, tx: u32)
    requires
        ledger.records.contains_key(tx),
        ledger.apply(tr).records.contains_key(tx),
    ensures
        ledger.apply(tr).records[tx].client == ledger.records[tx].client,
        ledger.apply(tr).records[tx].amount == ledger.records[tx].amount,
{
}

/// A transaction id belongs to one client for as long as it is on record:
/// if the id is on record before a run of operations and after each of
/// them, its owner and amount at the end are those it began with.
pub proof fn lemma_record_has_one_owner(ledger: Ledger, trs: Seq<Tr>, tx: u32)
    requires
        forall|i: int|
            0 <= i <= trs.len() ==> #[trigger] ledger.apply_all(trs.take(i)).records.contains_key(
                tx,
            ),
    ensures
        ledger.records.contains_key(tx),
        ledger.apply_all(trs).records.contains_key(tx),
        ledger.apply_all(trs).records[tx].client == ledger.records[tx].client,
        ledger.apply_all(trs).records[tx].amount == ledger.records[tx].amount,
    decreases trs.len(),
{
    assert(trs.take(0) =~= Seq::<Tr>::empty());
    assert(ledger.apply_all(trs.take(0)).records.contains_key(tx));
    assert(trs.take(trs.len() as int) =~= trs);
    assert(ledger.apply_all(trs.take(trs.len() as int)).records.contains_key(tx));
    if trs.len() > 0 {
        let front = trs.drop_last();
        assert forall|i: int| 0 <= i <= front.len() implies #[trigger] ledger.apply_all(
            front.take(i),
        ).records.contains_key(tx) by {
            assert(front.take(i) =~= trs.take(i));
            assert(ledger.apply_all(trs.take(i)).records.contains_key(tx));
        }
        lemma_record_has_one_owner(ledger, front, tx);
        lemma_record_keeps_owner(ledger.apply_all(front), trs.last(), tx);
    }
}

/// Transaction ids are not reused while they are on record: a deposit or
/// withdrawal under an id that is on record, for whatever client, is
/// rejected.
pub proof fn lemma_taken_id_rejects_funding(ledger: Ledger, tr: Tr)
    requires
        is_funding(tr),
        ledger.records.contains_key(tr.tx),
    ensures
        ledger.verdict(tr) is Err,
{
}

/// Whether the operation is a deposit or withdrawal under the id `tx`.
pub open spec fn creates(tr: Tr, tx: u32) -> bool {
    is_funding(tr) && tr.tx == tx
}

/// A dispute of a transaction already under dispute is rejected.
pub proof fn lemma_disputed_rejects_dispute(ledger: Ledger, tr: Tr)
    requires
        tr.tp is Dispute,
        ledger.records.contains_key(tr.tx),
        ledger.records[tr.tx].disputed,
    ensures
        ledger.verdict(tr) is Err,
{
}

/// A transaction is disputed at most once. After an accepted dispute, a
/// later dispute of the same id, by any client, is rejected, whatever was
/// applied in between, a resolve or chargeback included. The one way round
/// it is a new transaction under the same id: so the run in between must
/// hold no accepted deposit or withdrawal under that id.
pub proof fn lemma_no_second_dispute(ledger: Ledger, first: Tr, between: Seq<Tr>, second: Tr)
    requires
        first.tp is Dispute,
        second.tp is Dispute,
        second.tx == first.tx,
        ledger.verdict(first) is Ok,
        forall|i: int|
            0 <= i < between.len() && creates(#[trigger] between[i], first.tx) ==> ledger.apply(
                first,
            ).apply_all(between.take(i)).verdict(between[i]) is Err,
    ensures
        ledger.apply(first).apply_all(between).verdict(second) is Err,
{
    lemma_stays_settled(ledger.apply(first), between, first.tx);
}

/// Whether the id `tx` cannot be disputed: it is off record or under
/// dispute.
pub open spec fn settled(ledger: Ledger, tx: u32) -> bool {
    ledger.records.contains_key(tx) ==> ledger.records[tx].disputed
}

/// An id that cannot be disputed stays so through any run that holds no
/// accepted deposit or withdrawal under it.
pub proof fn lemma_stays_settled(ledger: Ledger, trs: Seq<Tr>, tx: u32)
    requires
        settled(ledger, tx),
        forall|i: int|
            0 <= i < trs.len() && creates(#[trigger] trs[i], tx) ==> ledger.apply_all(
                trs.take(i),
            ).verdict(trs[i]) is Err,
    ensures
        settled(ledger.apply_all(trs), tx),
    decreases trs.len(),
{
    if trs.len() > 0 {
        let front = trs.drop_last();
        assert forall|i: int| 0 <= i < front.len() && creates(#[trigger] front[i], tx) implies
            ledger.apply_all(front.take(i)).verdict(front[i]) is Err by {
            assert(front.take(i) =~= trs.take(i));
            assert(front[i] == trs[i]);
        }
        lemma_stays_settled(ledger, front, tx);
        assert(trs.take(front.len() as int) =~= front);
        assert(trs[front.len() as int] == trs.last());
    }
}

/// Every row of a report adds up: `total` is `available` plus `held`.
pub proof fn lemma_report_rows_add_up(ledger: Ledger, rows: Seq<ClientRecord>, i: int)
    requires
        ledger.reported_by(rows),
        0 <= i < rows.len(),
    ensures
        rows[i].total == rows[i].available + rows[i].held,
{
    assert(ledger.accounts.contains_key(rows[i].client));
}

/// Two reports of one ledger agree on their first `upto` rows.
proof fn lemma_reports_agree(
    ledger: Ledger,
    first: Seq<ClientRecord>,
    second: Seq<ClientRecord>,
    upto: int,
)
    requires
        ledger.reported_by(first),
        ledger.reported_by(second),
        0 <= upto <= first.len(),
        upto <= second.len(),
    ensures
        forall|i: int| 0 <= i < upto ==> first[i] == second[i],
    decreases upto,
{
    if upto > 0 {
        lemma_reports_agree(ledger, first, second, upto - 1);
        let k = upto - 1;
        let a = first[k].client;
        let b = second[k].client;
        assert(ledger.accounts.contains_key(a));
        assert(ledger.accounts.contains_key(b));
        if a < b {
            let i = choose|i: int| 0 <= i < second.len() && #[trigger] second[i].client == a;
            assert(i < k);
            assert(first[i].client == a);
            assert(false);
        }
        if b < a {
            let i = choose|i: int| 0 <= i < first.len() && #[trigger] first[i].client == b;
            assert(i < k);
            assert(second[i].client == b);
            assert(false);
        }
        assert(first[k] == second[k]);
    }
}

/// A ledger has exactly one report: reporting twice with no operation in
/// between gives the same rows in the same order.
pub proof fn lemma_report_is_unique(
    ledger: Ledger,
    first: Seq<ClientRecord>,
    second: Seq<ClientRecord>,
)
    requires
        ledger.reported_by(first),
        ledger.reported_by(second),
    ensures
        first == second,
{
    let n: int = if first.len() <= second.len() {
        first.len() as int
    } else {
        second.len() as int
    };
    lemma_reports_agree(ledger, first, second, n);
    if first.len() < second.len() {
        let c = second[n].client;
        assert(ledger.accounts.contains_key(c));
        let i = choose|i: int| 0 <= i < first.len() && #[trigger] first[i].client == c;
        assert(second[i].client == c);
        assert(false);
    }
    if second.len() < first.len() {
        let c = first[n].client;
        assert(ledger.accounts.contains_key(c));
        let i = choose|i: int| 0 <= i < second.len() && #[trigger] second[i].client == c;
        assert(first[i].client == c);
        assert(false);
    }
    assert(first =~= second);
}

} // verus!
