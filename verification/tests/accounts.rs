use rust_decimal::Decimal;
use payments_engine::accounts::{AccountManager, EventOutcome, WithdrawOutcome};
use payments_engine::amount::Amount;
use payments_engine::transactions::{Transaction, TransactionStatus};

fn amt(mantissa: i128, scale: u32) -> Amount {
    Amount::from_parts(mantissa, scale).expect("valid amount")
}

#[test]
fn test_account_withdraw() {
    let mut act_mgr = AccountManager::default();
    let client_id = 1;
    act_mgr.deposit_to_account(client_id, amt(100, 1));
    let did_withdraw = act_mgr.withdraw_from_account(client_id, amt(110, 1));
    assert_eq!(did_withdraw, false);

    act_mgr.deposit_to_account(client_id, amt(100, 1));
    let did_withdraw = act_mgr.withdraw_from_account(client_id, amt(90, 1));
    assert!(did_withdraw);
}

#[test]
fn test_account_deposit() {
    let client_id = 2;
    let mut act_mgr = AccountManager::default();
    let did_deposit = act_mgr.deposit_to_account(client_id, amt(10, 1));

    let account = act_mgr.account(client_id);
    assert!(account.is_some());

    assert!(did_deposit);
}

#[test]
fn test_dispute_then_chargeback() {
    let mut mgr = AccountManager::default();

    let txn_one = Transaction::Deposit {
        client_id: 1,
        transaction_id: 1,
        amount: amt(1000, 1),
        status: TransactionStatus::Clean,
    };

    mgr.write_to_log(txn_one.clone());
    mgr.deposit_to_account(txn_one.client_id(), txn_one.amount());
    mgr.dispute_transaction(txn_one.id(), txn_one.client_id());
    mgr.handle_chargeback(txn_one.id(), txn_one.client_id());

    let Some(account) = mgr.account(txn_one.client_id()) else {
        panic!("Account not found!");
    };

    assert_eq!(account.available_funds, amt(0, 1));
    assert_eq!(account.total_funds, amt(0, 1));
    assert_eq!(account.held_funds, amt(0, 1));
    assert!(account.frozen);
}

#[test]
fn test_resolve() {
    let mut mgr = AccountManager::default();

    let txn_one = Transaction::Deposit {
        client_id: 1,
        transaction_id: 1,
        amount: amt(1000, 1),
        status: TransactionStatus::Clean,
    };

    mgr.write_to_log(txn_one.clone());
    mgr.deposit_to_account(txn_one.client_id(), txn_one.amount());
    mgr.dispute_transaction(txn_one.id(), txn_one.client_id());
    mgr.resolve_transaction(txn_one.id(), txn_one.client_id());

    let Some(account) = mgr.account(txn_one.client_id()) else {
        panic!("Account not found!");
    };

    assert_eq!(account.available_funds, amt(1000, 1));
    assert_eq!(account.total_funds, amt(1000, 1));
    assert_eq!(account.held_funds, amt(0, 1));
}

#[test]
fn deposit_credits_available_and_total() {
    let mut mgr = AccountManager::new();
    assert!(mgr.deposit_to_account(7, amt(15, 1)));
    assert!(mgr.deposit_to_account(7, amt(2525, 3)));
    let account = mgr.account(7).unwrap();
    assert_eq!(account.client_id, 7);
    assert_eq!(account.available_funds, amt(4025, 3));
    assert_eq!(account.total_funds, amt(4025, 3));
    assert_eq!(account.held_funds, amt(0, 0));
    assert!(!account.frozen);
}

#[test]
fn withdrawal_without_account_is_refused() {
    let mut mgr = AccountManager::new();
    assert!(!mgr.withdraw_from_account(3, amt(1, 0)));
    assert!(mgr.account(3).is_none());
}

#[test]
fn withdrawal_of_everything_leaves_zero() {
    let mut mgr = AccountManager::new();
    mgr.deposit_to_account(1, amt(5, 0));
    assert!(mgr.withdraw_from_account(1, amt(50, 1)));
    let account = mgr.account(1).unwrap();
    assert_eq!(account.available_funds, amt(0, 0));
    assert_eq!(account.total_funds, amt(0, 0));
}

#[test]
fn refused_withdrawal_changes_nothing() {
    let mut mgr = AccountManager::new();
    mgr.deposit_to_account(1, amt(5, 0));
    assert!(!mgr.withdraw_from_account(1, amt(50001, 4)));
    let account = mgr.account(1).unwrap();
    assert_eq!(account.available_funds, amt(5, 0));
    assert_eq!(account.total_funds, amt(5, 0));
}

fn deposit(mgr: &mut AccountManager, client_id: u16, transaction_id: u32, amount: Amount) {
    let txn = Transaction::Deposit { client_id, transaction_id, amount, status: TransactionStatus::Clean };
    mgr.write_to_log(txn);
    mgr.deposit_to_account(client_id, amount);
}

#[test]
fn frozen_account_refuses_deposits_and_withdrawals() {
    let mut mgr = AccountManager::new();
    deposit(&mut mgr, 1, 1, amt(10, 0));
    deposit(&mut mgr, 1, 2, amt(5, 0));
    mgr.dispute_transaction(1, 1);
    mgr.handle_chargeback(1, 1);
    let before = mgr.account(1).unwrap();
    assert!(before.frozen);
    assert_eq!(before.available_funds, amt(5, 0));
    assert_eq!(before.total_funds, amt(5, 0));
    assert!(!mgr.deposit_to_account(1, amt(3, 0)));
    assert!(!mgr.withdraw_from_account(1, amt(1, 0)));
    let after = mgr.account(1).unwrap();
    assert_eq!(after.available_funds, amt(5, 0));
    assert_eq!(after.total_funds, amt(5, 0));
    assert!(after.frozen);
}

#[test]
fn dispute_holds_funds() {
    let mut mgr = AccountManager::new();
    deposit(&mut mgr, 4, 9, amt(125, 2));
    mgr.dispute_transaction(9, 4);
    let account = mgr.account(4).unwrap();
    assert_eq!(account.available_funds, amt(0, 0));
    assert_eq!(account.held_funds, amt(125, 2));
    assert_eq!(account.total_funds, amt(125, 2));
    assert_eq!(mgr.logged_transaction(9).unwrap().status(), TransactionStatus::Disputed);
}

#[test]
fn dispute_may_drive_available_below_zero() {
    let mut mgr = AccountManager::new();
    deposit(&mut mgr, 1, 1, amt(10, 0));
    assert!(mgr.withdraw_from_account(1, amt(8, 0)));
    mgr.dispute_transaction(1, 1);
    let account = mgr.account(1).unwrap();
    assert_eq!(account.available_funds, amt(-8, 0));
    assert_eq!(account.held_funds, amt(10, 0));
    assert_eq!(account.total_funds, amt(2, 0));
}

#[test]
fn events_with_another_client_are_ignored() {
    let mut mgr = AccountManager::new();
    deposit(&mut mgr, 1, 1, amt(10, 0));
    mgr.dispute_transaction(1, 2);
    mgr.dispute_transaction(2, 1);
    let account = mgr.account(1).unwrap();
    assert_eq!(account.held_funds, amt(0, 0));
    assert_eq!(account.available_funds, amt(10, 0));
    assert_eq!(mgr.logged_transaction(1).unwrap().status(), TransactionStatus::Clean);
}

#[test]
fn resolve_and_chargeback_need_a_dispute() {
    let mut mgr = AccountManager::new();
    deposit(&mut mgr, 1, 1, amt(10, 0));
    mgr.resolve_transaction(1, 1);
    mgr.handle_chargeback(1, 1);
    let account = mgr.account(1).unwrap();
    assert_eq!(account.available_funds, amt(10, 0));
    assert!(!account.frozen);
    assert_eq!(mgr.logged_transaction(1).unwrap().status(), TransactionStatus::Clean);
}

#[test]
fn resolved_deposit_cannot_be_disputed_again() {
    let mut mgr = AccountManager::new();
    deposit(&mut mgr, 1, 1, amt(10, 0));
    mgr.dispute_transaction(1, 1);
    mgr.resolve_transaction(1, 1);
    mgr.dispute_transaction(1, 1);
    mgr.handle_chargeback(1, 1);
    let account = mgr.account(1).unwrap();
    assert_eq!(account.available_funds, amt(10, 0));
    assert_eq!(account.held_funds, amt(0, 0));
    assert!(!account.frozen);
    assert_eq!(mgr.logged_transaction(1).unwrap().status(), TransactionStatus::Resolved);
}

#[test]
fn withdrawals_are_not_disputable() {
    let mut mgr = AccountManager::new();
    mgr.deposit_to_account(1, amt(10, 0));
    let w = Transaction::Withdrawal { client_id: 1, transaction_id: 5, amount: amt(4, 0), status: TransactionStatus::Clean };
    mgr.write_to_log(w);
    mgr.withdraw_from_account(1, amt(4, 0));
    mgr.dispute_transaction(5, 1);
    let account = mgr.account(1).unwrap();
    assert_eq!(account.available_funds, amt(6, 0));
    assert_eq!(account.held_funds, amt(0, 0));
}

#[test]
fn duplicate_transaction_ids_keep_the_first() {
    let mut mgr = AccountManager::new();
    let first = Transaction::Deposit { client_id: 1, transaction_id: 3, amount: amt(1, 0), status: TransactionStatus::Clean };
    let second = Transaction::Deposit { client_id: 2, transaction_id: 3, amount: amt(9, 0), status: TransactionStatus::Clean };
    mgr.write_to_log(first);
    mgr.write_to_log(second);
    let logged = mgr.logged_transaction(3).unwrap();
    assert_eq!(logged.client_id(), 1);
    assert_eq!(logged.amount(), amt(1, 0));
}

#[test]
fn checked_deposit_reports_overflow_and_changes_nothing() {
    let mut mgr = AccountManager::new();
    let max = amt(79228162514264337593543950335, 0);
    assert_eq!(mgr.checked_deposit_to_account(1, max), Some(true));
    assert_eq!(mgr.checked_deposit_to_account(1, max), None);
    let account = mgr.account(1).unwrap();
    assert_eq!(account.available_funds, max);
    assert_eq!(account.total_funds, max);
}

#[test]
fn rounded_account_has_four_places() {
    let mut mgr = AccountManager::new();
    mgr.deposit_to_account(1, amt(123456, 5));
    mgr.deposit_to_account(1, amt(5, 5));
    let account = mgr.account(1).unwrap();
    assert_eq!(account.available_funds, amt(123461, 5));
    let rounded = account.rounded();
    assert_eq!(rounded.available_funds.mantissa, 12346);
    assert_eq!(rounded.available_funds.scale, 4);
    assert_eq!(rounded.total_funds.mantissa, 12346);
    assert_eq!(rounded.held_funds.mantissa, 0);
    assert_eq!(rounded.client_id, 1);
}

#[test]
fn new_account_is_empty() {
    let account = payments_engine::accounts::ClientAccount::new(9);
    assert_eq!(account.client_id, 9);
    assert_eq!(account.available_funds, amt(0, 0));
    assert_eq!(account.held_funds, amt(0, 0));
    assert_eq!(account.total_funds, amt(0, 0));
    assert!(!account.frozen);
    let mut account = account;
    account.freeze();
    assert!(account.frozen);
}

/// The value of an amount, scaled to a common scale of 28 places.
fn value(a: Amount) -> i128 {
    a.mantissa * 10i128.pow(28 - a.scale) / 10i128.pow(24)
}

#[test]
fn total_stays_available_plus_held() {
    let mut mgr = AccountManager::new();
    deposit(&mut mgr, 1, 1, amt(10, 0));
    deposit(&mut mgr, 1, 2, amt(25, 1));
    mgr.withdraw_from_account(1, amt(3, 0));
    mgr.dispute_transaction(2, 1);
    deposit(&mut mgr, 1, 3, amt(125, 3));
    mgr.dispute_transaction(1, 1);
    mgr.resolve_transaction(2, 1);
    let a = mgr.account(1).unwrap();
    assert_eq!(value(a.total_funds), value(a.available_funds) + value(a.held_funds));
    assert_eq!(a.total_funds, amt(9625, 3));
    assert_eq!(a.held_funds, amt(10, 0));
    assert_eq!(a.available_funds, amt(-375, 3));
}

#[test]
fn held_is_the_sum_of_disputed_deposits() {
    let mut mgr = AccountManager::new();
    deposit(&mut mgr, 1, 1, amt(10, 0));
    deposit(&mut mgr, 1, 2, amt(25, 1));
    deposit(&mut mgr, 2, 3, amt(7, 0));
    mgr.dispute_transaction(1, 1);
    mgr.dispute_transaction(2, 1);
    mgr.dispute_transaction(3, 2);
    assert_eq!(mgr.account(1).unwrap().held_funds, amt(125, 1));
    assert_eq!(mgr.account(2).unwrap().held_funds, amt(7, 0));
    mgr.resolve_transaction(1, 1);
    assert_eq!(mgr.account(1).unwrap().held_funds, amt(25, 1));
    mgr.handle_chargeback(2, 1);
    let a = mgr.account(1).unwrap();
    assert_eq!(a.held_funds, amt(0, 0));
    assert_eq!(a.total_funds, amt(10, 0));
    assert!(a.frozen);
    assert_eq!(mgr.logged_transaction(2).unwrap().status(), TransactionStatus::ChargedBack);
}

#[test]
fn checked_operations_on_missing_records_succeed_without_change() {
    let mut mgr = AccountManager::new();
    assert_eq!(mgr.checked_dispute_transaction(1, 1), Some(EventOutcome::NoDeposit));
    assert_eq!(mgr.checked_resolve_transaction(1, 1), Some(EventOutcome::NoDeposit));
    assert_eq!(mgr.checked_handle_chargeback(1, 1), Some(EventOutcome::NoDeposit));
    assert_eq!(mgr.checked_withdraw_from_account(1, amt(1, 0)), Some(WithdrawOutcome::NoAccount));
    assert!(mgr.account(1).is_none());
}

#[test]
fn resolve_restores_the_deposit_exactly() {
    let mut mgr = AccountManager::new();
    deposit(&mut mgr, 1, 1, amt(1000, 1));
    mgr.dispute_transaction(1, 1);
    let a = mgr.account(1).unwrap();
    assert_eq!((a.available_funds.mantissa, a.available_funds.scale), (0, 1));
    mgr.resolve_transaction(1, 1);
    let a = mgr.account(1).unwrap();
    assert_eq!((a.available_funds.mantissa, a.available_funds.scale), (1000, 1));
    mgr.dispute_transaction(1, 1);
    let a = mgr.account(1).unwrap();
    assert_eq!((a.available_funds.mantissa, a.available_funds.scale), (1000, 1));
    assert_eq!(mgr.logged_transaction(1).unwrap().status(), TransactionStatus::Resolved);
}

#[test]
fn repeated_chargeback_changes_nothing() {
    let mut mgr = AccountManager::new();
    deposit(&mut mgr, 1, 1, amt(10, 0));
    deposit(&mut mgr, 1, 2, amt(4, 0));
    mgr.dispute_transaction(1, 1);
    mgr.handle_chargeback(1, 1);
    let once = mgr.account(1).unwrap();
    mgr.handle_chargeback(1, 1);
    let twice = mgr.account(1).unwrap();
    assert_eq!(once.total_funds, twice.total_funds);
    assert_eq!(once.held_funds, twice.held_funds);
    assert_eq!(twice.total_funds, amt(4, 0));
}

/// The decimal `rust_decimal` itself computes, as parts.
fn parts(d: Decimal) -> (i128, u32, bool) {
    (d.mantissa(), d.scale(), d.is_sign_negative())
}

#[test]
fn balances_keep_the_decimal_sign_bit() {
    let neg_zero = Amount { mantissa: 0, scale: 1, sign_negative: true };
    let mut mgr = AccountManager::new();
    deposit(&mut mgr, 1, 1, neg_zero);
    let a = mgr.account(1).unwrap();
    let mut expected = Decimal::ZERO;
    let mut d = Decimal::from_i128_with_scale(0, 1);
    d.set_sign_negative(true);
    expected += d;
    assert_eq!(parts(expected), (0, 1, true));
    assert_eq!((a.available_funds.mantissa, a.available_funds.scale, a.available_funds.sign_negative), parts(expected));
    let r = a.rounded();
    assert!(r.available_funds.sign_negative);
    assert_eq!(r.available_funds.scale, 1);

    // deposit 5 twice, withdraw 10, dispute the first deposit, resolve it
    let five = amt(5, 0);
    let mut mgr = AccountManager::new();
    deposit(&mut mgr, 2, 1, five);
    deposit(&mut mgr, 2, 2, five);
    assert!(mgr.withdraw_from_account(2, amt(10, 0)));
    mgr.dispute_transaction(1, 2);
    mgr.resolve_transaction(1, 2);
    let a = mgr.account(2).unwrap();
    let f = Decimal::from(5);
    let after = ((f + f) - Decimal::from(10) - f) + f;
    assert_eq!((a.available_funds.mantissa, a.available_funds.scale, a.available_funds.sign_negative), parts(after));
}

#[test]
fn outcomes_say_why_a_request_was_ignored() {
    let mut mgr = AccountManager::new();
    let t = Transaction::Deposit { client_id: 3, transaction_id: 7, amount: amt(2, 0), status: TransactionStatus::Clean };
    assert!(mgr.log_transaction(t));
    assert!(!mgr.log_transaction(t));
    // logged, but client 3 has no account
    assert_eq!(mgr.checked_dispute_transaction(7, 3), Some(EventOutcome::NoAccount));
    deposit(&mut mgr, 1, 1, amt(10, 0));
    assert_eq!(mgr.checked_dispute_transaction(1, 2), Some(EventOutcome::ClientMismatch(1)));
    assert_eq!(
        mgr.checked_resolve_transaction(1, 1),
        Some(EventOutcome::WrongStatus(TransactionStatus::Clean))
    );
    assert_eq!(mgr.checked_withdraw_from_account(1, amt(11, 0)), Some(WithdrawOutcome::InsufficientFunds));
    assert_eq!(mgr.checked_withdraw_from_account(1, amt(1, 0)), Some(WithdrawOutcome::Accepted));
    let w = Transaction::Withdrawal { client_id: 1, transaction_id: 8, amount: amt(1, 0), status: TransactionStatus::Clean };
    mgr.write_to_log(w);
    assert_eq!(mgr.checked_dispute_transaction(8, 1), Some(EventOutcome::NoDeposit));
    assert_eq!(mgr.checked_dispute_transaction(1, 1), Some(EventOutcome::Applied));
    assert_eq!(
        mgr.checked_dispute_transaction(1, 1),
        Some(EventOutcome::WrongStatus(TransactionStatus::Disputed))
    );
    assert_eq!(mgr.checked_handle_chargeback(1, 1), Some(EventOutcome::Applied));
    assert_eq!(mgr.checked_withdraw_from_account(1, amt(1, 0)), Some(WithdrawOutcome::Frozen));
    assert_eq!(mgr.checked_deposit_to_account(1, amt(1, 0)), Some(false));
}
