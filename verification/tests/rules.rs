//! Each rule of the engine on its own: which operation is rejected, with
//! which reason, and what an accepted one does to the balances.

use ledger_engine::data::{ClientRecord, Money, Tr};
use ledger_engine::data::TrType::{Chargeback, Deposit, Dispute, Resolve, Withdrawal};
use ledger_engine::error::TrError;
use ledger_engine::tr_processor::TrProcessor;

fn row(processor: &TrProcessor, client: u16) -> ClientRecord {
    let rows = processor.get_client_records();
    let found: Vec<&ClientRecord> = rows.iter().filter(|r| r.client == client).collect();
    assert_eq!(found.len(), 1);
    *found[0]
}

fn balances(processor: &TrProcessor, client: u16) -> (Money, Money, bool) {
    let r = row(processor, client);
    (r.available, r.held, r.locked)
}

#[test]
fn deposit_of_zero_is_accepted() {
    let mut p = TrProcessor::new();
    assert_eq!(p.apply(Tr::new(Deposit(0), 3, 1)), Ok(()));
    assert_eq!(balances(&p, 3), (0, 0, false));
    // The id is now taken.
    assert_eq!(
        p.apply(Tr::new(Deposit(10), 3, 1)),
        Err(TrError::DuplicateTransaction { client: 3, tx: 1 })
    );
}

#[test]
fn negative_withdrawal_is_invalid() {
    let mut p = TrProcessor::new();
    assert_eq!(p.apply(Tr::new(Deposit(100), 1, 1)), Ok(()));
    assert_eq!(
        p.apply(Tr::new(Withdrawal(-1), 1, 2)),
        Err(TrError::InvalidAmount { client: 1, tx: 2, amount: -1 })
    );
    assert_eq!(balances(&p, 1), (100, 0, false));
}

#[test]
fn invalid_amount_is_reported_before_the_lock() {
    let mut p = TrProcessor::new();
    p.process(&[Tr::new(Deposit(100), 1, 1), Tr::new(Dispute, 1, 1), Tr::new(Chargeback, 1, 1)]);
    assert_eq!(balances(&p, 1), (0, 0, true));
    assert_eq!(
        p.apply(Tr::new(Deposit(-1), 1, 2)),
        Err(TrError::InvalidAmount { client: 1, tx: 2, amount: -1 })
    );
    assert_eq!(
        p.apply(Tr::new(Withdrawal(-1), 1, 2)),
        Err(TrError::InvalidAmount { client: 1, tx: 2, amount: -1 })
    );
    assert_eq!(
        p.apply(Tr::new(Deposit(1), 1, 2)),
        Err(TrError::AccountLocked { client: 1, tx: 2 })
    );
    assert_eq!(
        p.apply(Tr::new(Withdrawal(0), 1, 2)),
        Err(TrError::AccountLocked { client: 1, tx: 2 })
    );
}

#[test]
fn the_lock_is_reported_before_a_duplicate_id() {
    let mut p = TrProcessor::new();
    p.process(&[
        Tr::new(Deposit(100), 1, 1),
        Tr::new(Deposit(5), 1, 2),
        Tr::new(Dispute, 1, 1),
        Tr::new(Chargeback, 1, 1),
    ]);
    assert_eq!(
        p.apply(Tr::new(Deposit(1), 1, 2)),
        Err(TrError::AccountLocked { client: 1, tx: 2 })
    );
}

#[test]
fn withdrawal_of_all_available_is_accepted() {
    let mut p = TrProcessor::new();
    assert_eq!(p.apply(Tr::new(Deposit(70), 1, 1)), Ok(()));
    assert_eq!(p.apply(Tr::new(Withdrawal(70), 1, 2)), Ok(()));
    assert_eq!(balances(&p, 1), (0, 0, false));
    assert_eq!(
        p.apply(Tr::new(Withdrawal(1), 1, 3)),
        Err(TrError::InsufficientFunds { client: 1, tx: 3, amount: 1 })
    );
    assert_eq!(balances(&p, 1), (0, 0, false));
}

#[test]
fn shortage_is_reported_before_a_duplicate_id() {
    let mut p = TrProcessor::new();
    assert_eq!(p.apply(Tr::new(Deposit(70), 1, 1)), Ok(()));
    assert_eq!(
        p.apply(Tr::new(Withdrawal(71), 1, 1)),
        Err(TrError::InsufficientFunds { client: 1, tx: 1, amount: 71 })
    );
    assert_eq!(
        p.apply(Tr::new(Withdrawal(70), 1, 1)),
        Err(TrError::DuplicateTransaction { client: 1, tx: 1 })
    );
    assert_eq!(balances(&p, 1), (70, 0, false));
}

#[test]
fn withdrawal_ignores_held_funds() {
    let mut p = TrProcessor::new();
    p.process(&[Tr::new(Deposit(100), 1, 1), Tr::new(Deposit(30), 1, 2), Tr::new(Dispute, 1, 1)]);
    assert_eq!(balances(&p, 1), (30, 100, false));
    assert_eq!(
        p.apply(Tr::new(Withdrawal(31), 1, 3)),
        Err(TrError::InsufficientFunds { client: 1, tx: 3, amount: 31 })
    );
    assert_eq!(p.apply(Tr::new(Withdrawal(30), 1, 3)), Ok(()));
    assert_eq!(balances(&p, 1), (0, 100, false));
    assert_eq!(row(&p, 1).total, 100);
}

#[test]
fn transaction_ids_are_shared_by_all_clients() {
    let mut p = TrProcessor::new();
    assert_eq!(p.apply(Tr::new(Deposit(10), 1, 7)), Ok(()));
    assert_eq!(
        p.apply(Tr::new(Deposit(20), 2, 7)),
        Err(TrError::DuplicateTransaction { client: 2, tx: 7 })
    );
    assert_eq!(balances(&p, 1), (10, 0, false));
    assert_eq!(balances(&p, 2), (0, 0, false));
    // The rejected deposit did not replace the record: it still belongs to client 1.
    assert_eq!(
        p.apply(Tr::new(Dispute, 2, 7)),
        Err(TrError::ClientMismatch { client: 2, tx: 7, owner: 1 })
    );
    assert_eq!(p.apply(Tr::new(Dispute, 1, 7)), Ok(()));
    assert_eq!(balances(&p, 1), (0, 10, false));
}

#[test]
fn settlement_of_unknown_transaction_is_rejected() {
    let mut p = TrProcessor::new();
    assert_eq!(
        p.apply(Tr::new(Dispute, 1, 5)),
        Err(TrError::TransactionNotFound { client: 1, tx: 5 })
    );
    assert_eq!(
        p.apply(Tr::new(Resolve, 1, 5)),
        Err(TrError::TransactionNotFound { client: 1, tx: 5 })
    );
    assert_eq!(
        p.apply(Tr::new(Chargeback, 2, 5)),
        Err(TrError::TransactionNotFound { client: 2, tx: 5 })
    );
    assert_eq!(balances(&p, 1), (0, 0, false));
    assert_eq!(balances(&p, 2), (0, 0, false));
}

#[test]
fn settlement_by_another_client_is_rejected() {
    let mut p = TrProcessor::new();
    assert_eq!(p.apply(Tr::new(Deposit(10), 1, 1)), Ok(()));
    assert_eq!(
        p.apply(Tr::new(Dispute, 2, 1)),
        Err(TrError::ClientMismatch { client: 2, tx: 1, owner: 1 })
    );
    assert_eq!(p.apply(Tr::new(Dispute, 1, 1)), Ok(()));
    assert_eq!(
        p.apply(Tr::new(Resolve, 2, 1)),
        Err(TrError::ClientMismatch { client: 2, tx: 1, owner: 1 })
    );
    assert_eq!(
        p.apply(Tr::new(Chargeback, 2, 1)),
        Err(TrError::ClientMismatch { client: 2, tx: 1, owner: 1 })
    );
    // The owner is looked at before the state of the dispute.
    assert_eq!(
        p.apply(Tr::new(Dispute, 2, 1)),
        Err(TrError::ClientMismatch { client: 2, tx: 1, owner: 1 })
    );
    assert_eq!(balances(&p, 1), (0, 10, false));
    assert_eq!(balances(&p, 2), (0, 0, false));
}

#[test]
fn second_dispute_is_rejected() {
    let mut p = TrProcessor::new();
    assert_eq!(p.apply(Tr::new(Deposit(10), 1, 1)), Ok(()));
    assert_eq!(p.apply(Tr::new(Dispute, 1, 1)), Ok(()));
    assert_eq!(
        p.apply(Tr::new(Dispute, 1, 1)),
        Err(TrError::InvalidDisputeState { client: 1, tx: 1 })
    );
    assert_eq!(balances(&p, 1), (0, 10, false));
}

#[test]
fn resolve_and_chargeback_need_a_dispute() {
    let mut p = TrProcessor::new();
    assert_eq!(p.apply(Tr::new(Deposit(10), 1, 1)), Ok(()));
    assert_eq!(
        p.apply(Tr::new(Resolve, 1, 1)),
        Err(TrError::InvalidDisputeState { client: 1, tx: 1 })
    );
    assert_eq!(
        p.apply(Tr::new(Chargeback, 1, 1)),
        Err(TrError::InvalidDisputeState { client: 1, tx: 1 })
    );
    assert_eq!(balances(&p, 1), (10, 0, false));
}

#[test]
fn a_resolved_transaction_is_gone() {
    let mut p = TrProcessor::new();
    p.process(&[Tr::new(Deposit(10), 1, 1), Tr::new(Dispute, 1, 1), Tr::new(Resolve, 1, 1)]);
    assert_eq!(balances(&p, 1), (10, 0, false));
    for tp in [Dispute, Resolve, Chargeback] {
        assert_eq!(
            p.apply(Tr::new(tp, 1, 1)),
            Err(TrError::TransactionNotFound { client: 1, tx: 1 })
        );
    }
    assert_eq!(balances(&p, 1), (10, 0, false));
}

#[test]
fn a_charged_back_transaction_is_gone() {
    let mut p = TrProcessor::new();
    p.process(&[Tr::new(Deposit(10), 1, 1), Tr::new(Dispute, 1, 1), Tr::new(Chargeback, 1, 1)]);
    assert_eq!(balances(&p, 1), (0, 0, true));
    for tp in [Dispute, Resolve, Chargeback] {
        assert_eq!(
            p.apply(Tr::new(tp, 1, 1)),
            Err(TrError::TransactionNotFound { client: 1, tx: 1 })
        );
    }
    assert_eq!(balances(&p, 1), (0, 0, true));
}

#[test]
fn chargeback_of_withdrawal_returns_the_amount() {
    let mut p = TrProcessor::new();
    p.process(&[
        Tr::new(Deposit(200), 1, 1),
        Tr::new(Withdrawal(60), 1, 2),
        Tr::new(Dispute, 1, 2),
    ]);
    assert_eq!(balances(&p, 1), (140, 0, false));
    assert_eq!(p.apply(Tr::new(Chargeback, 1, 2)), Ok(()));
    assert_eq!(balances(&p, 1), (200, 0, true));
    assert_eq!(row(&p, 1).total, 200);
}

#[test]
fn resolve_of_withdrawal_moves_nothing() {
    let mut p = TrProcessor::new();
    p.process(&[
        Tr::new(Deposit(200), 1, 1),
        Tr::new(Withdrawal(60), 1, 2),
        Tr::new(Dispute, 1, 2),
    ]);
    assert_eq!(p.apply(Tr::new(Resolve, 1, 2)), Ok(()));
    assert_eq!(balances(&p, 1), (140, 0, false));
}

#[test]
fn settlements_go_through_on_a_locked_account() {
    let mut p = TrProcessor::new();
    p.process(&[
        Tr::new(Deposit(100), 1, 1),
        Tr::new(Deposit(40), 1, 2),
        Tr::new(Deposit(7), 1, 3),
        Tr::new(Dispute, 1, 1),
        Tr::new(Chargeback, 1, 1),
    ]);
    assert_eq!(balances(&p, 1), (47, 0, true));
    assert_eq!(p.apply(Tr::new(Dispute, 1, 2)), Ok(()));
    assert_eq!(balances(&p, 1), (7, 40, true));
    assert_eq!(p.apply(Tr::new(Resolve, 1, 2)), Ok(()));
    assert_eq!(balances(&p, 1), (47, 0, true));
    assert_eq!(p.apply(Tr::new(Dispute, 1, 3)), Ok(()));
    assert_eq!(p.apply(Tr::new(Chargeback, 1, 3)), Ok(()));
    assert_eq!(balances(&p, 1), (40, 0, true));
}

#[test]
fn a_locked_account_stays_as_it_is_under_deposits_and_withdrawals() {
    let mut p = TrProcessor::new();
    p.process(&[
        Tr::new(Deposit(100), 1, 1),
        Tr::new(Deposit(40), 1, 2),
        Tr::new(Dispute, 1, 1),
        Tr::new(Chargeback, 1, 1),
    ]);
    let locked = row(&p, 1);
    assert_eq!(locked, ClientRecord { client: 1, available: 40, held: 0, total: 40, locked: true });

    let results = p.try_process(&[
        Tr::new(Deposit(5), 2, 10),
        Tr::new(Deposit(5), 1, 11),
        Tr::new(Withdrawal(5), 1, 12),
        Tr::new(Withdrawal(1), 2, 13),
        Tr::new(Deposit(0), 1, 14),
    ]);
    assert_eq!(
        results,
        vec![
            Ok(()),
            Err(TrError::AccountLocked { client: 1, tx: 11 }),
            Err(TrError::AccountLocked { client: 1, tx: 12 }),
            Ok(()),
            Err(TrError::AccountLocked { client: 1, tx: 14 }),
        ]
    );
    assert_eq!(row(&p, 1), locked);
    assert_eq!(balances(&p, 2), (4, 0, false));
    // None of the rejected ids was taken.
    assert_eq!(
        p.apply(Tr::new(Dispute, 1, 11)),
        Err(TrError::TransactionNotFound { client: 1, tx: 11 })
    );
}

#[test]
fn an_id_can_be_disputed_again_only_after_a_new_transaction_took_it() {
    let mut p = TrProcessor::new();
    p.process(&[Tr::new(Deposit(10), 1, 1), Tr::new(Dispute, 1, 1), Tr::new(Resolve, 1, 1)]);
    assert_eq!(
        p.apply(Tr::new(Dispute, 1, 1)),
        Err(TrError::TransactionNotFound { client: 1, tx: 1 })
    );
    assert_eq!(p.apply(Tr::new(Deposit(3), 2, 1)), Ok(()));
    assert_eq!(
        p.apply(Tr::new(Dispute, 1, 1)),
        Err(TrError::ClientMismatch { client: 1, tx: 1, owner: 2 })
    );
    assert_eq!(p.apply(Tr::new(Dispute, 2, 1)), Ok(()));
    assert_eq!(balances(&p, 1), (10, 0, false));
    assert_eq!(balances(&p, 2), (0, 3, false));
}

#[test]
fn deposit_beyond_what_can_be_stored_is_rejected() {
    let mut p = TrProcessor::new();
    assert_eq!(p.apply(Tr::new(Deposit(Money::MAX), 1, 1)), Ok(()));
    assert_eq!(
        p.apply(Tr::new(Deposit(1), 1, 2)),
        Err(TrError::BalanceOverflow { client: 1, tx: 2 })
    );
    assert_eq!(balances(&p, 1), (Money::MAX, 0, false));
    // The id was not taken and the account still works.
    assert_eq!(p.apply(Tr::new(Withdrawal(1), 1, 2)), Ok(()));
    assert_eq!(p.apply(Tr::new(Deposit(1), 1, 3)), Ok(()));
    assert_eq!(balances(&p, 1), (Money::MAX, 0, false));
}

#[test]
fn deposit_is_rejected_when_the_total_cannot_be_stored() {
    let mut p = TrProcessor::new();
    p.process(&[Tr::new(Deposit(Money::MAX), 1, 1), Tr::new(Dispute, 1, 1)]);
    assert_eq!(balances(&p, 1), (0, Money::MAX, false));
    assert_eq!(
        p.apply(Tr::new(Deposit(1), 1, 2)),
        Err(TrError::BalanceOverflow { client: 1, tx: 2 })
    );
    assert_eq!(row(&p, 1).total, Money::MAX);
}

#[test]
fn dispute_is_rejected_when_the_balances_cannot_be_stored() {
    let mut p = TrProcessor::new();
    p.process(&[
        Tr::new(Deposit(Money::MAX), 1, 1),
        Tr::new(Withdrawal(Money::MAX), 1, 2),
        Tr::new(Deposit(Money::MAX), 1, 3),
        Tr::new(Withdrawal(Money::MAX), 1, 4),
        Tr::new(Dispute, 1, 1),
    ]);
    assert_eq!(balances(&p, 1), (-Money::MAX, Money::MAX, false));
    assert_eq!(
        p.apply(Tr::new(Dispute, 1, 3)),
        Err(TrError::BalanceOverflow { client: 1, tx: 3 })
    );
    assert_eq!(balances(&p, 1), (-Money::MAX, Money::MAX, false));
    // The record is still there and not under dispute.
    assert_eq!(
        p.apply(Tr::new(Resolve, 1, 3)),
        Err(TrError::InvalidDisputeState { client: 1, tx: 3 })
    );
}

#[test]
fn chargeback_is_rejected_when_the_balances_cannot_be_stored() {
    let mut p = TrProcessor::new();
    p.process(&[
        Tr::new(Deposit(Money::MAX), 1, 1),
        Tr::new(Withdrawal(Money::MAX), 1, 2),
        Tr::new(Deposit(Money::MAX), 1, 3),
        Tr::new(Dispute, 1, 2),
    ]);
    assert_eq!(balances(&p, 1), (Money::MAX, 0, false));
    assert_eq!(
        p.apply(Tr::new(Chargeback, 1, 2)),
        Err(TrError::BalanceOverflow { client: 1, tx: 2 })
    );
    // Nothing moved, nothing was locked, and the dispute is still open.
    assert_eq!(balances(&p, 1), (Money::MAX, 0, false));
    assert_eq!(p.apply(Tr::new(Resolve, 1, 2)), Ok(()));
}

#[test]
fn a_rejected_operation_stops_nothing() {
    let mut p = TrProcessor::new();
    let results = p.try_process(&[
        Tr::new(Deposit(10), 1, 1),
        Tr::new(Withdrawal(11), 1, 2),
        Tr::new(Deposit(-1), 1, 3),
        Tr::new(Resolve, 1, 1),
        Tr::new(Withdrawal(4), 1, 2),
    ]);
    assert_eq!(
        results,
        vec![
            Ok(()),
            Err(TrError::InsufficientFunds { client: 1, tx: 2, amount: 11 }),
            Err(TrError::InvalidAmount { client: 1, tx: 3, amount: -1 }),
            Err(TrError::InvalidDisputeState { client: 1, tx: 1 }),
            Ok(()),
        ]
    );
    assert_eq!(balances(&p, 1), (6, 0, false));
}

#[test]
fn an_empty_run_changes_nothing() {
    let mut p = TrProcessor::new();
    assert_eq!(p.try_process(&[]), vec![]);
    assert_eq!(p.get_client_records(), vec![]);
    p.process(&[]);
    assert_eq!(p.get_client_records(), vec![]);
}
