//! Dispatch of one payment record to the account manager.

use vstd::prelude::*;

use crate::accounts::{AccountManager, EventOutcome, ManagerView, WithdrawOutcome};
use crate::amount::Amount;
use crate::parser::PaymentRecord;
use crate::transactions::{PaymentEvent, Transaction, TransactionStatus};

verus! {

/// What became of a record.
#[derive(Clone, Copy, Debug, PartialEq, Eq, Structural)]
pub enum RecordOutcome {
    /// A deposit: whether it was logged (false where its id was already
    /// logged) and whether it was credited (false where the account is
    /// frozen).
    Deposit { logged: bool, accepted: bool },
    /// A withdrawal.
    Withdrawal(WithdrawOutcome),
    /// A dispute, resolve or chargeback.
    Event(EventOutcome),
}

/// What becomes of the record in state `v`.
pub open spec fn record_outcome(v: ManagerView, record: PaymentRecord) -> RecordOutcome {
    match record {
        PaymentRecord::Transaction(t) => match t {
            Transaction::Deposit { client_id, amount, .. } => RecordOutcome::Deposit {
                logged: !v.log.contains_key(t.id()),
                accepted: v.write_to_log(t).deposit(client_id, amount).1,
            },
            Transaction::Withdrawal { client_id, amount, .. } => RecordOutcome::Withdrawal(
                v.withdraw_outcome(client_id, amount),
            ),
        },
        PaymentRecord::MutatingEvent(e) => match e {
            PaymentEvent::Dispute { reference_txn_id, client_id } => RecordOutcome::Event(
                v.event_outcome(reference_txn_id, client_id, TransactionStatus::Clean),
            ),
            PaymentEvent::Resolve { reference_txn_id, client_id } => RecordOutcome::Event(
                v.event_outcome(reference_txn_id, client_id, TransactionStatus::Disputed),
            ),
            PaymentEvent::Chargeback { reference_txn_id, client_id } => RecordOutcome::Event(
                v.event_outcome(reference_txn_id, client_id, TransactionStatus::Disputed),
            ),
        },
    }
}

/// The amounts a record carries have the parts of a decimal.
pub open spec fn record_wf(record: PaymentRecord) -> bool {
    match record {
        PaymentRecord::Transaction(t) => t.amount().wf(),
        PaymentRecord::MutatingEvent(_) => true,
    }
}

/// The state after the record is handled: a deposit is logged and then
/// credited, a withdrawal is debited, and an event acts on the deposit it
/// names.
pub open spec fn apply_record(v: ManagerView, record: PaymentRecord) -> ManagerView {
    match record {
        PaymentRecord::Transaction(t) => match t {
            Transaction::Deposit { client_id, amount, .. } => v.write_to_log(t).deposit(
                client_id,
                amount,
            ).0,
            Transaction::Withdrawal { client_id, amount, .. } => v.withdraw(client_id, amount).0,
        },
        PaymentRecord::MutatingEvent(e) => match e {
            PaymentEvent::Dispute { reference_txn_id, client_id } => v.dispute(
                reference_txn_id,
                client_id,
            ),
            PaymentEvent::Resolve { reference_txn_id, client_id } => v.resolve(
                reference_txn_id,
                client_id,
            ),
            PaymentEvent::Chargeback { reference_txn_id, client_id } => v.chargeback(
                reference_txn_id,
                client_id,
            ),
        },
    }
}

/// Handling the record does not overflow a decimal.
pub open spec fn record_ok(v: ManagerView, record: PaymentRecord) -> bool {
    match record {
        PaymentRecord::Transaction(t) => match t {
            Transaction::Deposit { client_id, amount, .. } => v.write_to_log(t).deposit_ok(
                client_id,
                amount,
            ),
            Transaction::Withdrawal { client_id, amount, .. } => v.withdraw_ok(client_id, amount),
        },
        PaymentRecord::MutatingEvent(e) => match e {
            PaymentEvent::Dispute { reference_txn_id, client_id } => v.dispute_ok(
                reference_txn_id,
                client_id,
            ),
            PaymentEvent::Resolve { reference_txn_id, client_id } => v.resolve_ok(
                reference_txn_id,
                client_id,
            ),
            PaymentEvent::Chargeback { reference_txn_id, client_id } => v.chargeback_ok(
                reference_txn_id,
                client_id,
            ),
        },
    }
}

/// What is known of the decimal arithmetic that handling the record makes.
pub open spec fn record_facts(v: ManagerView, record: PaymentRecord) -> bool {
    match record {
        PaymentRecord::Transaction(t) => match t {
            Transaction::Deposit { client_id, amount, .. } => v.write_to_log(t).deposit_facts(
                client_id,
                amount,
            ),
            Transaction::Withdrawal { client_id, amount, .. } => v.withdraw_facts(
                client_id,
                amount,
            ),
        },
        PaymentRecord::MutatingEvent(e) => match e {
            PaymentEvent::Dispute { reference_txn_id, client_id } => v.dispute_facts(
                reference_txn_id,
                client_id,
            ),
            PaymentEvent::Resolve { reference_txn_id, client_id } => v.resolve_facts(
                reference_txn_id,
                client_id,
            ),
            PaymentEvent::Chargeback { reference_txn_id, client_id } => v.chargeback_facts(
                reference_txn_id,
                client_id,
            ),
        },
    }
}

/// A deposit changes only the accounts and logging only the log, so the two
/// can be done in either order.
proof fn lemma_deposit_then_log(v: ManagerView, t: Transaction, client_id: u16, amount: Amount)
    ensures
        v.deposit(client_id, amount).0.write_to_log(t) == v.write_to_log(t).deposit(
            client_id,
            amount,
        ).0,
        v.write_to_log(t).deposit_ok(client_id, amount) == v.deposit_ok(client_id, amount),
        v.write_to_log(t).deposit_facts(client_id, amount) == v.deposit_facts(client_id, amount),
        v.write_to_log(t).deposit(client_id, amount).1 == v.deposit(client_id, amount).1,
{
    assert(v.write_to_log(t).accounts == v.accounts);
    assert(v.deposit(client_id, amount).0.log == v.log);
}

/// Handles the next record of the stream: routes it to the matching
/// operation of the account manager.
pub fn handle_record(record: PaymentRecord, manager: &mut AccountManager)
    requires
        old(manager)@.wf(),
        record_wf(record),
        record_ok(old(manager)@, record),
    ensures
        final(manager)@.wf(),
        final(manager)@ == apply_record(old(manager)@, record),
        record_facts(old(manager)@, record),
{
    match record {
        PaymentRecord::Transaction(txn) => {
            match txn {
                Transaction::Deposit { client_id, amount, .. } => {
                    manager.write_to_log(txn);
                    manager.deposit_to_account(client_id, amount);
                },
                Transaction::Withdrawal { client_id, amount, .. } => {
                    manager.withdraw_from_account(client_id, amount);
                },
            };
        },
        PaymentRecord::MutatingEvent(event) => match event {
            PaymentEvent::Dispute { reference_txn_id, client_id } => manager.dispute_transaction(
                reference_txn_id,
                client_id,
            ),
            PaymentEvent::Resolve { reference_txn_id, client_id } => manager.resolve_transaction(
                reference_txn_id,
                client_id,
            ),
            PaymentEvent::Chargeback { reference_txn_id, client_id } => manager.handle_chargeback(
                reference_txn_id,
                client_id,
            ),
        },
    }
}

/// Handles the next record of the stream as `handle_record` does. Returns
/// `None`, and changes nothing, where the record's arithmetic would overflow
/// a decimal; otherwise `Some` of what became of the record.
pub fn checked_handle_record(record: PaymentRecord, manager: &mut AccountManager) -> (r: Option<
    RecordOutcome,
>)
    requires
        old(manager)@.wf(),
        record_wf(record),
    ensures
        final(manager)@.wf(),
        r is None <==> !record_ok(old(manager)@, record),
        r matches Some(o) ==> o == record_outcome(old(manager)@, record) && final(manager)@
            == apply_record(old(manager)@, record),
        r is None ==> final(manager)@ == old(manager)@,
        record_facts(old(manager)@, record),
{
    match record {
        PaymentRecord::Transaction(txn) => match txn {
            Transaction::Deposit { client_id, amount, .. } => {
                proof {
                    lemma_deposit_then_log(manager@, txn, client_id, amount);
                }
                match manager.checked_deposit_to_account(client_id, amount) {
                    Some(accepted) => {
                        let logged = manager.log_transaction(txn);
                        Some(RecordOutcome::Deposit { logged, accepted })
                    },
                    None => None,
                }
            },
            Transaction::Withdrawal { client_id, amount, .. } => {
                match manager.checked_withdraw_from_account(client_id, amount) {
                    Some(o) => Some(RecordOutcome::Withdrawal(o)),
                    None => None,
                }
            },
        },
        PaymentRecord::MutatingEvent(event) => {
            let outcome = match event {
                PaymentEvent::Dispute { reference_txn_id, client_id } => {
                    manager.checked_dispute_transaction(reference_txn_id, client_id)
                },
                PaymentEvent::Resolve { reference_txn_id, client_id } => {
                    manager.checked_resolve_transaction(reference_txn_id, client_id)
                },
                PaymentEvent::Chargeback { reference_txn_id, client_id } => {
                    manager.checked_handle_chargeback(reference_txn_id, client_id)
                },
            };
            match outcome {
                Some(o) => Some(RecordOutcome::Event(o)),
                None => None,
            }
        },
    }
}

} // verus!
