use payments_engine::accounts::AccountManager;
use payments_engine::amount::Amount;
use payments_engine::accounts::{EventOutcome, WithdrawOutcome};
use payments_engine::engine::{checked_handle_record, handle_record, RecordOutcome};
use payments_engine::parser::PaymentRecord;
use payments_engine::transactions::{PaymentEvent, Transaction, TransactionStatus};

fn amt(mantissa: i128, scale: u32) -> Amount {
    Amount::from_parts(mantissa, scale).expect("valid amount")
}

fn dep(client_id: u16, transaction_id: u32, amount: Amount) -> PaymentRecord {
    PaymentRecord::Transaction(Transaction::Deposit {
        client_id,
        transaction_id,
        amount,
        status: TransactionStatus::Clean,
    })
}

#[test]
fn stream_of_records_gives_expected_balances() {
    let mut mgr = AccountManager::new();
    handle_record(dep(1, 1, amt(10, 1)), &mut mgr);
    handle_record(dep(2, 2, amt(20, 1)), &mut mgr);
    handle_record(dep(1, 3, amt(20, 1)), &mut mgr);
    handle_record(
        PaymentRecord::Transaction(Transaction::Withdrawal {
            client_id: 1,
            transaction_id: 4,
            amount: amt(15, 1),
            status: TransactionStatus::Clean,
        }),
        &mut mgr,
    );
    handle_record(
        PaymentRecord::Transaction(Transaction::Withdrawal {
            client_id: 2,
            transaction_id: 5,
            amount: amt(30, 1),
            status: TransactionStatus::Clean,
        }),
        &mut mgr,
    );
    let one = mgr.account(1).unwrap();
    assert_eq!(one.available_funds, amt(15, 1));
    assert_eq!(one.total_funds, amt(15, 1));
    let two = mgr.account(2).unwrap();
    assert_eq!(two.available_funds, amt(2, 0));
    assert!(mgr.logged_transaction(4).is_none());

    handle_record(
        PaymentRecord::MutatingEvent(PaymentEvent::Dispute { reference_txn_id: 2, client_id: 2 }),
        &mut mgr,
    );
    handle_record(
        PaymentRecord::MutatingEvent(PaymentEvent::Chargeback { reference_txn_id: 2, client_id: 2 }),
        &mut mgr,
    );
    let two = mgr.account(2).unwrap();
    assert!(two.frozen);
    assert_eq!(two.total_funds, amt(0, 0));
    handle_record(dep(2, 6, amt(1, 0)), &mut mgr);
    assert_eq!(mgr.account(2).unwrap().total_funds, amt(0, 0));
    // the refused deposit is still logged
    assert!(mgr.logged_transaction(6).is_some());
}

#[test]
fn checked_handling_refuses_overflow_and_changes_nothing() {
    let mut mgr = AccountManager::new();
    let max = amt(79228162514264337593543950335, 0);
    assert_eq!(
        checked_handle_record(dep(1, 1, max), &mut mgr),
        Some(RecordOutcome::Deposit { logged: true, accepted: true })
    );
    assert_eq!(checked_handle_record(dep(1, 2, amt(1, 0)), &mut mgr), None);
    assert!(mgr.logged_transaction(2).is_none());
    assert_eq!(mgr.account(1).unwrap().total_funds, max);
    assert_eq!(
        checked_handle_record(
            PaymentRecord::MutatingEvent(PaymentEvent::Resolve { reference_txn_id: 1, client_id: 1 }),
            &mut mgr,
        ),
        Some(RecordOutcome::Event(EventOutcome::WrongStatus(TransactionStatus::Clean)))
    );
    assert_eq!(
        checked_handle_record(dep(2, 1, amt(1, 0)), &mut mgr),
        Some(RecordOutcome::Deposit { logged: false, accepted: true })
    );
    assert_eq!(
        checked_handle_record(
            PaymentRecord::Transaction(Transaction::Withdrawal {
                client_id: 9,
                transaction_id: 3,
                amount: amt(1, 0),
                status: TransactionStatus::Clean,
            }),
            &mut mgr,
        ),
        Some(RecordOutcome::Withdrawal(WithdrawOutcome::NoAccount))
    );
}
