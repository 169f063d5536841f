//! What holds of the engine across operations: balances stay consistent,
//! a dispute that is resolved gives the funds back, a chargeback freezes the
//! account for good, and a logged deposit only moves forward through its
//! dispute life cycle.

use vstd::prelude::*;

use crate::accounts::{ClientAccount, EventOutcome, ManagerView, WithdrawOutcome};
use crate::amount::{difference_exact, pow10, rounded_to, sum_exact, Amount, MAX_SCALE, REPORTED_PLACES};
use vstd::arithmetic::div_mod::{lemma_fundamental_div_mod, lemma_mod_bound};
use crate::engine::{apply_record, record_wf};
use crate::amount::{decimal_difference, decimal_sum};
use crate::parser::{payment_record_from, PaymentRecord, RecordError};
use crate::text::{is_white_space, trim_end, trim_start, trimmed};
use crate::transactions::{
    event_from_row,
    transaction_from_row,
    PaymentEvent,
    RawRow,
    RowError,
    Transaction,
    TransactionStatus,
};
use vstd::set::fold::{is_fun_commutative, lemma_fold_empty, lemma_fold_insert};

verus! {

/// Every account's total is its available plus its held funds.
pub open spec fn all_balanced(v: ManagerView) -> bool {
    forall|c: u16| #[trigger] v.accounts.contains_key(c) ==> v.accounts[c].balanced()
}

/// The additions of a deposit need no rounding.
pub open spec fn deposit_exact(v: ManagerView, client_id: u16, amount: Amount) -> bool {
    let a = v.account_or_fresh(client_id);
    !a.frozen ==> sum_exact(a.available_funds, amount) && sum_exact(a.total_funds, amount)
}

/// The subtractions of a withdrawal need no rounding.
pub open spec fn withdraw_exact(v: ManagerView, client_id: u16, amount: Amount) -> bool {
    (v.accounts.contains_key(client_id) && !v.accounts[client_id].frozen) ==> {
        let a = v.accounts[client_id];
        &&& difference_exact(a.available_funds, amount)
        &&& a.available_funds.units() - amount.units() >= 0 ==> difference_exact(
            a.total_funds,
            amount,
        )
    }
}

/// The arithmetic of a dispute needs no rounding.
pub open spec fn dispute_exact(v: ManagerView, txn_id: u32, client_id: u16) -> bool {
    v.dispute_applies(txn_id, client_id) ==> {
        let a = v.accounts[client_id];
        let x = v.log[txn_id].amount();
        difference_exact(a.available_funds, x) && sum_exact(a.held_funds, x)
    }
}

/// The arithmetic of a resolve needs no rounding.
pub open spec fn resolve_exact(v: ManagerView, txn_id: u32, client_id: u16) -> bool {
    v.resolve_applies(txn_id, client_id) ==> {
        let a = v.accounts[client_id];
        let x = v.log[txn_id].amount();
        difference_exact(a.held_funds, x) && sum_exact(a.available_funds, x)
    }
}

/// The arithmetic of a chargeback needs no rounding.
pub open spec fn chargeback_exact(v: ManagerView, txn_id: u32, client_id: u16) -> bool {
    v.chargeback_applies(txn_id, client_id) ==> {
        let a = v.accounts[client_id];
        let x = v.log[txn_id].amount();
        difference_exact(a.held_funds, x) && difference_exact(a.total_funds, x)
    }
}

/// The arithmetic of handling the record needs no rounding.
pub open spec fn record_exact(v: ManagerView, record: PaymentRecord) -> bool {
    match record {
        PaymentRecord::Transaction(t) => match t {
            Transaction::Deposit { client_id, amount, .. } => deposit_exact(v, client_id, amount),
            Transaction::Withdrawal { client_id, amount, .. } => withdraw_exact(
                v,
                client_id,
                amount,
            ),
        },
        PaymentRecord::MutatingEvent(e) => match e {
            PaymentEvent::Dispute { reference_txn_id, client_id } => dispute_exact(
                v,
                reference_txn_id,
                client_id,
            ),
            PaymentEvent::Resolve { reference_txn_id, client_id } => resolve_exact(
                v,
                reference_txn_id,
                client_id,
            ),
            PaymentEvent::Chargeback { reference_txn_id, client_id } => chargeback_exact(
                v,
                reference_txn_id,
                client_id,
            ),
        },
    }
}

/// A step of a deposit's life cycle: it stays where it is, a clean deposit
/// becomes disputed, or a disputed one is resolved or charged back.
pub open spec fn status_step(from: TransactionStatus, to: TransactionStatus) -> bool {
    ||| from == to
    ||| from == TransactionStatus::Clean && to == TransactionStatus::Disputed
    ||| from == TransactionStatus::Disputed && to == TransactionStatus::Resolved
    ||| from == TransactionStatus::Disputed && to == TransactionStatus::ChargedBack
}

/// Changing the account of one client, into a balanced one, keeps all
/// accounts balanced.
proof fn lemma_store_balanced(v: ManagerView, c: u16, a: ClientAccount)
    requires
        all_balanced(v),
        a.balanced(),
    ensures
        all_balanced(ManagerView { accounts: v.accounts.insert(c, a), ..v }),
{
    let w = ManagerView { accounts: v.accounts.insert(c, a), ..v };
    assert forall|k: u16| #[trigger] w.accounts.contains_key(k) implies w.accounts[k].balanced() by {
        if k != c {
            assert(v.accounts.contains_key(k));
        }
    }
}

/// Handling any record keeps every account's total equal to its available
/// plus its held funds, where the record's arithmetic needs no rounding.
pub proof fn lemma_record_keeps_accounts_balanced(v: ManagerView, record: PaymentRecord)
    requires
        v.wf(),
        all_balanced(v),
        record_exact(v, record),
    ensures
        all_balanced(apply_record(v, record)),
{
    match record {
        PaymentRecord::Transaction(t) => match t {
            Transaction::Deposit { client_id, amount, .. } => {
                let u = v.write_to_log(t);
                assert(u.accounts == v.accounts);
                let a = u.account_or_fresh(client_id);
                if !a.frozen {
                    let (w, _) = u.deposit(client_id, amount);
                    lemma_store_balanced(u, client_id, w.accounts[client_id]);
                }
            },
            Transaction::Withdrawal { client_id, amount, .. } => {
                if v.accounts.contains_key(client_id) && !v.accounts[client_id].frozen {
                    let (w, ok) = v.withdraw(client_id, amount);
                    if ok {
                        lemma_store_balanced(v, client_id, w.accounts[client_id]);
                    }
                }
            },
        },
        PaymentRecord::MutatingEvent(e) => match e {
            PaymentEvent::Dispute { reference_txn_id, client_id } => {
                if v.dispute_applies(reference_txn_id, client_id) {
                    let w = v.dispute(reference_txn_id, client_id);
                    lemma_store_balanced(v, client_id, w.accounts[client_id]);
                }
            },
            PaymentEvent::Resolve { reference_txn_id, client_id } => {
                if v.resolve_applies(reference_txn_id, client_id) {
                    let w = v.resolve(reference_txn_id, client_id);
                    lemma_store_balanced(v, client_id, w.accounts[client_id]);
                }
            },
            PaymentEvent::Chargeback { reference_txn_id, client_id } => {
                if v.chargeback_applies(reference_txn_id, client_id) {
                    let w = v.chargeback(reference_txn_id, client_id);
                    lemma_store_balanced(v, client_id, w.accounts[client_id]);
                }
            },
        },
    }
}

/// Resolving a dispute gives the client back what the dispute held: the
/// available and held funds return to their values before the dispute, the
/// total never moves, and the deposit ends up `Resolved`; no other account
/// changes. Holds where the arithmetic of both steps needs no rounding.
pub proof fn lemma_dispute_then_resolve_restores_funds(v: ManagerView, txn_id: u32, client_id: u16)
    requires
        v.wf(),
        v.dispute_applies(txn_id, client_id),
        dispute_exact(v, txn_id, client_id),
        resolve_exact(v.dispute(txn_id, client_id), txn_id, client_id),
    ensures
        v.dispute(txn_id, client_id).resolve(txn_id, client_id).accounts[client_id].available_funds.units()
            == v.accounts[client_id].available_funds.units(),
        v.dispute(txn_id, client_id).resolve(txn_id, client_id).accounts[client_id].held_funds.units()
            == v.accounts[client_id].held_funds.units(),
        v.dispute(txn_id, client_id).resolve(txn_id, client_id).accounts[client_id].total_funds
            == v.accounts[client_id].total_funds,
        v.dispute(txn_id, client_id).resolve(txn_id, client_id).accounts[client_id].frozen
            == v.accounts[client_id].frozen,
        v.dispute(txn_id, client_id).resolve(txn_id, client_id).log[txn_id] == v.log[txn_id].with_status(
            TransactionStatus::Resolved,
        ),
        forall|k: u16|
            k != client_id ==> #[trigger] v.dispute(txn_id, client_id).resolve(
                txn_id,
                client_id,
            ).accounts.get(k) == v.accounts.get(k),
{
    let u = v.dispute(txn_id, client_id);
    assert(u.resolve_applies(txn_id, client_id));
    let w = u.resolve(txn_id, client_id);
    assert forall|k: u16| k != client_id implies #[trigger] w.accounts.get(k) == v.accounts.get(
        k,
    ) by {}
}

/// A chargeback after a dispute takes the disputed amount out of the
/// client's total funds for good: the held funds return to their value
/// before the dispute, the available funds stay lowered by the amount, the
/// account is frozen and the deposit ends up `ChargedBack`. Holds where the
/// arithmetic of both steps needs no rounding.
pub proof fn lemma_dispute_then_chargeback_removes_funds(
    v: ManagerView,
    txn_id: u32,
    client_id: u16,
)
    requires
        v.wf(),
        v.dispute_applies(txn_id, client_id),
        dispute_exact(v, txn_id, client_id),
        chargeback_exact(v.dispute(txn_id, client_id), txn_id, client_id),
    ensures
        v.dispute(txn_id, client_id).chargeback(txn_id, client_id).accounts[client_id].frozen,
        v.dispute(txn_id, client_id).chargeback(txn_id, client_id).accounts[client_id].held_funds.units()
            == v.accounts[client_id].held_funds.units(),
        v.dispute(txn_id, client_id).chargeback(txn_id, client_id).accounts[client_id].available_funds.units()
            == v.accounts[client_id].available_funds.units() - v.log[txn_id].amount().units(),
        v.dispute(txn_id, client_id).chargeback(txn_id, client_id).accounts[client_id].total_funds.units()
            == v.accounts[client_id].total_funds.units() - v.log[txn_id].amount().units(),
        v.dispute(txn_id, client_id).chargeback(txn_id, client_id).log[txn_id] == v.log[txn_id].with_status(
            TransactionStatus::ChargedBack,
        ),
{
    let u = v.dispute(txn_id, client_id);
    assert(u.chargeback_applies(txn_id, client_id));
}

/// A frozen account refuses deposits and withdrawals, and nothing changes.
pub proof fn lemma_frozen_account_refuses_funds(v: ManagerView, client_id: u16, amount: Amount)
    requires
        v.accounts.contains_key(client_id),
        v.accounts[client_id].frozen,
    ensures
        v.deposit(client_id, amount) == (v, false),
        v.withdraw(client_id, amount) == (v, false),
{
}

/// Accounts are never removed, keep their client id, and once frozen stay
/// frozen, whatever record is handled; a deposit or withdrawal leaves a
/// frozen account as it is.
pub proof fn lemma_accounts_persist_and_stay_frozen(v: ManagerView, record: PaymentRecord, c: u16)
    requires
        v.wf(),
        v.accounts.contains_key(c),
    ensures
        apply_record(v, record).accounts.contains_key(c),
        apply_record(v, record).accounts[c].client_id == v.accounts[c].client_id,
        v.accounts[c].frozen ==> apply_record(v, record).accounts[c].frozen,
        (v.accounts[c].frozen && record is Transaction) ==> apply_record(v, record).accounts[c]
            == v.accounts[c],
{
    match record {
        PaymentRecord::Transaction(t) => match t {
            Transaction::Deposit { .. } => {
                assert(v.write_to_log(t).accounts == v.accounts);
            },
            Transaction::Withdrawal { .. } => {},
        },
        PaymentRecord::MutatingEvent(_) => {},
    }
}

/// A logged transaction is never removed and never changes, except that a
/// deposit's status moves one step along its life cycle: clean to disputed,
/// disputed to resolved or charged back. Resolved and charged-back deposits
/// are final, and only an event naming the transaction changes its status.
pub proof fn lemma_logged_transactions_only_advance(v: ManagerView, record: PaymentRecord, k: u32)
    requires
        v.wf(),
        v.log.contains_key(k),
    ensures
        apply_record(v, record).log.contains_key(k),
        apply_record(v, record).log[k] == v.log[k].with_status(
            apply_record(v, record).log[k].status(),
        ),
        status_step(v.log[k].status(), apply_record(v, record).log[k].status()),
        apply_record(v, record).log[k].status() != v.log[k].status() ==> (record matches PaymentRecord::MutatingEvent(e)
            && e.referenced_id() == k),
{
    let t0 = v.log[k];
    assert(t0 == t0.with_status(t0.status()));
    match record {
        PaymentRecord::Transaction(t) => match t {
            Transaction::Deposit { .. } => {
                assert(v.write_to_log(t).log.contains_key(k));
                assert(v.write_to_log(t).log[k] == t0);
            },
            Transaction::Withdrawal { .. } => {},
        },
        PaymentRecord::MutatingEvent(_) => {},
    }
}

/// A deposit record is logged (unless its id is already logged) and then
/// credited; a withdrawal record is debited and never logged; an event acts
/// through the operation it names.
pub proof fn lemma_record_routing(v: ManagerView, record: PaymentRecord)
    ensures
        record matches PaymentRecord::Transaction(t) ==> (t is Deposit ==> {
            &&& apply_record(v, record).log == v.write_to_log(t).log
            &&& apply_record(v, record).accounts == v.deposit(t.client_id(), t.amount()).0.accounts
        }),
        record matches PaymentRecord::Transaction(t) ==> (t is Withdrawal ==> {
            &&& apply_record(v, record).log == v.log
            &&& apply_record(v, record) == v.withdraw(t.client_id(), t.amount()).0
        }),
        record matches PaymentRecord::MutatingEvent(e) ==> apply_record(v, record) == match e {
            PaymentEvent::Dispute { reference_txn_id, client_id } => v.dispute(
                reference_txn_id,
                client_id,
            ),
            PaymentEvent::Resolve { reference_txn_id, client_id } => v.resolve(
                reference_txn_id,
                client_id,
            ),
            PaymentEvent::Chargeback { reference_txn_id, client_id } => v.chargeback(
                reference_txn_id,
                client_id,
            ),
        },
{
    if let PaymentRecord::Transaction(t) = record {
        assert(v.write_to_log(t).accounts == v.accounts);
    }
}

/// Repeating a dispute, resolve or chargeback with the same arguments
/// changes nothing: each deposit is disputed, resolved or charged back at
/// most once per step of its life cycle.
pub proof fn lemma_repeated_event_changes_nothing(v: ManagerView, txn_id: u32, client_id: u16)
    ensures
        v.dispute(txn_id, client_id).dispute(txn_id, client_id) == v.dispute(txn_id, client_id),
        v.resolve(txn_id, client_id).resolve(txn_id, client_id) == v.resolve(txn_id, client_id),
        v.chargeback(txn_id, client_id).chargeback(txn_id, client_id) == v.chargeback(
            txn_id,
            client_id,
        ),
{
}

/// Logging keeps the first transaction logged under an id: a later one with
/// the same id changes nothing, and a new id is logged as given.
pub proof fn lemma_log_keeps_first_transaction(v: ManagerView, t: Transaction)
    ensures
        v.log.contains_key(t.id()) ==> v.write_to_log(t) == v,
        !v.log.contains_key(t.id()) ==> v.write_to_log(t).log[t.id()] == t,
        v.write_to_log(t).accounts == v.accounts,
{
}

/// An event changes nothing unless it names a logged deposit of the same
/// client: events on withdrawals, on unknown ids, or with another client's
/// id are ignored.
pub proof fn lemma_events_need_own_deposit(v: ManagerView, txn_id: u32, client_id: u16)
    requires
        !v.log.contains_key(txn_id) || v.log[txn_id] is Withdrawal || v.log[txn_id].client_id()
            != client_id,
    ensures
        v.dispute(txn_id, client_id) == v,
        v.resolve(txn_id, client_id) == v,
        v.chargeback(txn_id, client_id) == v,
{
}

/// An accepted withdrawal never leaves the available funds below zero, and
/// one that would is refused with nothing changed.
pub proof fn lemma_withdrawal_never_overdraws(v: ManagerView, client_id: u16, amount: Amount)
    requires
        v.wf(),
        amount.wf(),
        withdraw_exact(v, client_id, amount),
    ensures
        v.withdraw(client_id, amount).1 ==> v.withdraw(client_id, amount).0.accounts[client_id].available_funds.units()
            >= 0,
        (v.accounts.contains_key(client_id) && v.accounts[client_id].available_funds.units()
            < amount.units()) ==> v.withdraw(client_id, amount) == (v, false),
{
}

/// A reported amount has at most four decimal places.
pub proof fn lemma_reported_amounts_have_four_places(a: Amount)
    ensures
        rounded_to(a, REPORTED_PLACES).scale <= REPORTED_PLACES,
        a.scale <= REPORTED_PLACES ==> rounded_to(a, REPORTED_PLACES) == a,
{
}

/// What the transaction logged under `k` adds to the client's disputed
/// total: its amount where it is a deposit of the client under dispute,
/// else nothing.
pub open spec fn disputed_part(log: Map<u32, Transaction>, client_id: u16, k: u32) -> int {
    if log.contains_key(k) && log[k] is Deposit && log[k].client_id() == client_id
        && log[k].status() == TransactionStatus::Disputed {
        log[k].amount().units()
    } else {
        0
    }
}

/// Adds the disputed part of `k` to a running total.
pub open spec fn add_disputed_part(log: Map<u32, Transaction>, client_id: u16) -> spec_fn(
    int,
    u32,
) -> int {
    |acc: int, k: u32| acc + disputed_part(log, client_id, k)
}

/// The sum of the amounts of the client's logged deposits that are under
/// dispute.
pub open spec fn disputed_total(log: Map<u32, Transaction>, client_id: u16) -> int {
    log.dom().fold(0, add_disputed_part(log, client_id))
}

/// Every client's held funds are the sum of its deposits under dispute;
/// a client without an account has none under dispute.
pub open spec fn held_matches_disputes(v: ManagerView) -> bool {
    forall|c: u16|
        #[trigger] disputed_total(v.log, c) == if v.accounts.contains_key(c) {
            v.accounts[c].held_funds.units()
        } else {
            0
        }
}

/// The records that the parser makes: a transaction arrives `Clean`.
pub open spec fn record_is_new(record: PaymentRecord) -> bool {
    record matches PaymentRecord::Transaction(t) ==> t.status() == TransactionStatus::Clean
}

proof fn lemma_add_disputed_part_commutes(log: Map<u32, Transaction>, client_id: u16)
    ensures
        is_fun_commutative(add_disputed_part(log, client_id)),
{
    let f = add_disputed_part(log, client_id);
    assert forall|a1: u32, a2: u32, b: int| #[trigger] f(f(b, a2), a1) == f(f(b, a1), a2) by {}
}

/// Two logs whose disputed parts agree on a finite set of ids give the same
/// total over that set.
proof fn lemma_totals_agree(
    s: Set<u32>,
    log1: Map<u32, Transaction>,
    log2: Map<u32, Transaction>,
    client_id: u16,
)
    requires
        s.finite(),
        forall|k: u32| #[trigger]
            s.contains(k) ==> disputed_part(log1, client_id, k) == disputed_part(
                log2,
                client_id,
                k,
            ),
    ensures
        s.fold(0, add_disputed_part(log1, client_id)) == s.fold(
            0,
            add_disputed_part(log2, client_id),
        ),
    decreases s.len(),
{
    let f1 = add_disputed_part(log1, client_id);
    let f2 = add_disputed_part(log2, client_id);
    if s.len() == 0 {
        assert(s =~= Set::empty());
        lemma_fold_empty(0int, f1);
        lemma_fold_empty(0int, f2);
    } else {
        let a = s.choose();
        let rest = s.remove(a);
        lemma_totals_agree(rest, log1, log2, client_id);
        lemma_add_disputed_part_commutes(log1, client_id);
        lemma_add_disputed_part_commutes(log2, client_id);
        lemma_fold_insert(rest, 0int, f1, a);
        lemma_fold_insert(rest, 0int, f2, a);
        assert(rest.insert(a) =~= s);
    }
}

/// Replacing the transaction logged under `k` changes the client's disputed
/// total by the change in that transaction's part.
proof fn lemma_total_after_replace(
    log: Map<u32, Transaction>,
    k: u32,
    t: Transaction,
    client_id: u16,
)
    requires
        log.dom().finite(),
        log.contains_key(k),
    ensures
        disputed_total(log.insert(k, t), client_id) == disputed_total(log, client_id)
            - disputed_part(log, client_id, k) + disputed_part(log.insert(k, t), client_id, k),
{
    let next = log.insert(k, t);
    let rest = log.dom().remove(k);
    assert(next.dom() =~= log.dom());
    assert(rest.insert(k) =~= log.dom());
    lemma_totals_agree(rest, log, next, client_id);
    lemma_add_disputed_part_commutes(log, client_id);
    lemma_add_disputed_part_commutes(next, client_id);
    lemma_fold_insert(rest, 0int, add_disputed_part(log, client_id), k);
    lemma_fold_insert(rest, 0int, add_disputed_part(next, client_id), k);
}

/// Logging a transaction under a new id changes the client's disputed total
/// by that transaction's part.
proof fn lemma_total_after_insert(
    log: Map<u32, Transaction>,
    k: u32,
    t: Transaction,
    client_id: u16,
)
    requires
        log.dom().finite(),
        !log.contains_key(k),
    ensures
        disputed_total(log.insert(k, t), client_id) == disputed_total(log, client_id)
            + disputed_part(log.insert(k, t), client_id, k),
{
    let next = log.insert(k, t);
    assert(next.dom() =~= log.dom().insert(k));
    lemma_totals_agree(log.dom(), log, next, client_id);
    lemma_add_disputed_part_commutes(next, client_id);
    lemma_fold_insert(log.dom(), 0int, add_disputed_part(next, client_id), k);
}

/// Handling a record keeps every client's held funds equal to the sum of
/// its deposits under dispute. Holds for records as the parser makes them
/// (transactions arrive `Clean`) and where the record's arithmetic needs no
/// rounding.
pub proof fn lemma_record_keeps_held_equal_to_disputes(v: ManagerView, record: PaymentRecord)
    requires
        v.wf(),
        held_matches_disputes(v),
        record_exact(v, record),
        record_is_new(record),
    ensures
        held_matches_disputes(apply_record(v, record)),
{
    let w = apply_record(v, record);
    match record {
        PaymentRecord::Transaction(t) => match t {
            Transaction::Deposit { .. } => {
                let u = v.write_to_log(t);
                assert forall|c: u16| #[trigger]
                    disputed_total(u.log, c) == disputed_total(v.log, c) by {
                    if !v.log.contains_key(t.id()) {
                        lemma_total_after_insert(v.log, t.id(), t, c);
                    }
                }
                assert(w.log == u.log);
                assert forall|c: u16|
                    #[trigger] disputed_total(w.log, c) == if w.accounts.contains_key(c) {
                        w.accounts[c].held_funds.units()
                    } else {
                        0
                    } by {
                    assert(disputed_total(v.log, c) == if v.accounts.contains_key(c) {
                        v.accounts[c].held_funds.units()
                    } else {
                        0
                    });
                }
            },
            Transaction::Withdrawal { .. } => {
                assert forall|c: u16|
                    #[trigger] disputed_total(w.log, c) == if w.accounts.contains_key(c) {
                        w.accounts[c].held_funds.units()
                    } else {
                        0
                    } by {
                    assert(disputed_total(v.log, c) == if v.accounts.contains_key(c) {
                        v.accounts[c].held_funds.units()
                    } else {
                        0
                    });
                }
            },
        },
        PaymentRecord::MutatingEvent(e) => {
            let (k, client_id) = match e {
                PaymentEvent::Dispute { reference_txn_id, client_id } => (
                    reference_txn_id,
                    client_id,
                ),
                PaymentEvent::Resolve { reference_txn_id, client_id } => (
                    reference_txn_id,
                    client_id,
                ),
                PaymentEvent::Chargeback { reference_txn_id, client_id } => (
                    reference_txn_id,
                    client_id,
                ),
            };
            if w != v {
                assert(v.log.contains_key(k));
                assert(w.log == v.log.insert(k, w.log[k]));
                assert forall|c: u16|
                    #[trigger] disputed_total(w.log, c) == if w.accounts.contains_key(c) {
                        w.accounts[c].held_funds.units()
                    } else {
                        0
                    } by {
                    lemma_total_after_replace(v.log, k, w.log[k], c);
                    assert(disputed_total(v.log, c) == if v.accounts.contains_key(c) {
                        v.accounts[c].held_funds.units()
                    } else {
                        0
                    });
                }
            }
        },
    }
}

/// Handling a record whose amounts are well formed, with arithmetic that
/// needs no rounding, keeps the state well formed.
pub proof fn lemma_record_keeps_state_wf(v: ManagerView, record: PaymentRecord)
    requires
        v.wf(),
        record_wf(record),
        record_exact(v, record),
    ensures
        apply_record(v, record).wf(),
{
    match record {
        PaymentRecord::Transaction(t) => match t {
            Transaction::Deposit { client_id, amount, .. } => {
                let u = v.write_to_log(t);
                if !v.log.contains_key(t.id()) {
                    v.lemma_store_transaction(t);
                }
                let a = u.account_or_fresh(client_id);
                if !a.frozen {
                    u.lemma_store_account(u.deposit(client_id, amount).0.accounts[client_id]);
                }
            },
            Transaction::Withdrawal { client_id, amount, .. } => {
                let (w, ok) = v.withdraw(client_id, amount);
                if ok {
                    v.lemma_store_account(w.accounts[client_id]);
                }
            },
        },
        PaymentRecord::MutatingEvent(e) => {
            let (k, client_id) = match e {
                PaymentEvent::Dispute { reference_txn_id, client_id } => (
                    reference_txn_id,
                    client_id,
                ),
                PaymentEvent::Resolve { reference_txn_id, client_id } => (
                    reference_txn_id,
                    client_id,
                ),
                PaymentEvent::Chargeback { reference_txn_id, client_id } => (
                    reference_txn_id,
                    client_id,
                ),
            };
            let w = apply_record(v, record);
            if w != v {
                assert(v.log.contains_key(k));
                v.lemma_store_account(w.accounts[client_id]);
                let u = ManagerView { accounts: v.accounts.insert(client_id, w.accounts[client_id]), ..v };
                u.lemma_store_transaction(w.log[k]);
                assert(w == ManagerView { log: u.log.insert(w.log[k].id(), w.log[k]), ..u });
            }
        },
    }
}

/// The state after handling the records in order.
pub open spec fn apply_records(v: ManagerView, records: Seq<PaymentRecord>) -> ManagerView
    decreases records.len(),
{
    if records.len() == 0 {
        v
    } else {
        apply_records(apply_record(v, records[0]), records.drop_first())
    }
}

/// Each record, in the state it meets, is as the parser makes it, carries
/// well-formed amounts, and has arithmetic that needs no rounding.
pub open spec fn records_new_and_exact(v: ManagerView, records: Seq<PaymentRecord>) -> bool
    decreases records.len(),
{
    records.len() == 0 || {
        &&& record_is_new(records[0])
        &&& record_wf(records[0])
        &&& record_exact(v, records[0])
        &&& records_new_and_exact(apply_record(v, records[0]), records.drop_first())
    }
}

/// The empty state is well formed, balanced, and holds nothing.
pub proof fn lemma_empty_state_keeps_books()
    ensures
        ManagerView::empty().wf(),
        all_balanced(ManagerView::empty()),
        held_matches_disputes(ManagerView::empty()),
{
    let v = ManagerView::empty();
    assert(v.log.dom() =~= Set::empty());
    assert forall|c: u16| #[trigger] disputed_total(v.log, c) == 0 by {
        lemma_fold_empty(0int, add_disputed_part(v.log, c));
    }
}

/// From any well-formed state whose books are kept, a stream of records as
/// the parser makes them, with arithmetic that needs no rounding, leaves a
/// well-formed state in which every account's total is its available plus
/// its held funds, and its held funds are the sum of its deposits under
/// dispute.
pub proof fn lemma_stream_keeps_books(v: ManagerView, records: Seq<PaymentRecord>)
    requires
        v.wf(),
        all_balanced(v),
        held_matches_disputes(v),
        records_new_and_exact(v, records),
    ensures
        apply_records(v, records).wf(),
        all_balanced(apply_records(v, records)),
        held_matches_disputes(apply_records(v, records)),
    decreases records.len(),
{
    if records.len() > 0 {
        let r = records[0];
        lemma_record_keeps_state_wf(v, r);
        lemma_record_keeps_accounts_balanced(v, r);
        lemma_record_keeps_held_equal_to_disputes(v, r);
        lemma_stream_keeps_books(apply_record(v, r), records.drop_first());
    }
}

/// `10^(a + b) == 10^a * 10^b`, and powers of ten are positive.
proof fn lemma_pow10_add(a: nat, b: nat)
    ensures
        pow10(a + b) == pow10(a) * pow10(b),
        pow10(a) > 0,
    decreases a,
{
    if a > 0 {
        lemma_pow10_add((a - 1) as nat, b);
        assert(pow10(a + b) == 10 * pow10((a - 1 + b) as nat));
        assert(pow10(a) * pow10(b) == 10 * (pow10((a - 1) as nat) * pow10(b))) by (nonlinear_arith)
            requires
                pow10(a) == 10 * pow10((a - 1) as nat),
        ;
    }
}

/// A reported amount is within half a unit of the fourth decimal place of
/// the amount it reports.
pub proof fn lemma_reported_amount_within_half_unit(a: Amount)
    requires
        a.wf(),
    ensures
        -pow10((MAX_SCALE - REPORTED_PLACES) as nat) <= 2 * (rounded_to(a, REPORTED_PLACES).units()
            - a.units()) <= pow10((MAX_SCALE - REPORTED_PLACES) as nat),
{
    let r = rounded_to(a, REPORTED_PLACES);
    lemma_pow10_add(24, 0);
    if a.scale > REPORTED_PLACES {
        let k = (a.scale - REPORTED_PLACES) as nat;
        let t = (MAX_SCALE - a.scale) as nat;
        let p = pow10(k);
        lemma_pow10_add(k, t);
        lemma_pow10_add(t, k);
        assert(k + t == 24);
        let m: int = if a.mantissa < 0 {
            -a.mantissa
        } else {
            a.mantissa as int
        };
        let q = m / p;
        let rest = m % p;
        lemma_fundamental_div_mod(m, p);
        lemma_mod_bound(m, p);
        let up = rest * 2 > p || (rest * 2 == p && q % 2 == 1);
        let q2 = if up {
            q + 1
        } else {
            q
        };
        let e = q2 * p - m;
        assert(q2 * p == q * p + (if up {
            p
        } else {
            0
        })) by (nonlinear_arith)
            requires
                q2 == (if up {
                    q + 1
                } else {
                    q
                }),
        ;
        assert(m == q * p + rest) by (nonlinear_arith)
            requires
                m == p * q + rest,
        ;
        assert(-p <= 2 * e <= p);
        let tt = pow10(t);
        assert(tt > 0);
        assert(r.units() == (if a.mantissa < 0 {
            -q2
        } else {
            q2
        }) * pow10(24));
        assert(a.units() == a.mantissa * tt);
        assert(pow10(24) == p * tt);
        if a.mantissa < 0 {
            assert(r.units() - a.units() == -(e * tt)) by (nonlinear_arith)
                requires
                    r.units() == -q2 * (p * tt),
                    a.units() == a.mantissa * tt,
                    m == -a.mantissa,
                    e == q2 * p - m,
            ;
        } else {
            assert(r.units() - a.units() == e * tt) by (nonlinear_arith)
                requires
                    r.units() == q2 * (p * tt),
                    a.units() == a.mantissa * tt,
                    m == a.mantissa,
                    e == q2 * p - m,
            ;
        }
        assert(-(p * tt) <= 2 * (e * tt) <= p * tt) by (nonlinear_arith)
            requires
                -p <= 2 * e <= p,
                tt > 0,
        ;
    }
}

/// A withdrawal touches only the client's available and total funds: the
/// account is frozen after it exactly when it was before (only a chargeback
/// locks an account), its client id and held funds stay, no account is
/// opened or closed, no other account changes and nothing is logged.
pub proof fn lemma_withdrawal_changes_only_the_balances(
    v: ManagerView,
    client_id: u16,
    amount: Amount,
    k: u16,
)
    ensures
        v.withdraw(client_id, amount).0.accounts.dom() == v.accounts.dom(),
        v.withdraw(client_id, amount).0.log == v.log,
        v.accounts.contains_key(k) ==> {
            let after = v.withdraw(client_id, amount).0.accounts[k];
            &&& after.frozen == v.accounts[k].frozen
            &&& after.client_id == v.accounts[k].client_id
            &&& after.held_funds == v.accounts[k].held_funds
        },
        k != client_id ==> v.withdraw(client_id, amount).0.accounts.get(k) == v.accounts.get(k),
        !v.withdraw(client_id, amount).1 ==> v.withdraw(client_id, amount).0 == v,
        v.withdraw(client_id, amount).1 ==> v.accounts.contains_key(client_id)
            && !v.accounts[client_id].frozen,
        v.withdraw(client_id, amount).1 ==> {
            let a = v.accounts[client_id];
            let after = v.withdraw(client_id, amount).0.accounts[client_id];
            &&& after.available_funds == decimal_difference(a.available_funds, amount).unwrap()
            &&& after.total_funds == decimal_difference(a.total_funds, amount).unwrap()
            &&& after.available_funds.units() >= 0
        },
        (v.withdraw_outcome(client_id, amount) == WithdrawOutcome::Accepted) == v.withdraw(
            client_id,
            amount,
        ).1,
        (v.withdraw_outcome(client_id, amount) == WithdrawOutcome::NoAccount)
            == !v.accounts.contains_key(client_id),
        (v.withdraw_outcome(client_id, amount) == WithdrawOutcome::Frozen) == (
        v.accounts.contains_key(client_id) && v.accounts[client_id].frozen),
{
    assert(v.withdraw(client_id, amount).0.accounts.dom() =~= v.accounts.dom());
}

/// A deposit is refused exactly where the client's account is frozen,
/// whatever its balances. An accepted deposit adds the amount to the
/// available and total funds the client had (zero for a new client), keeps
/// the held funds, the frozen flag and the client id, and touches no other
/// account and not the log. A refused one changes nothing.
pub proof fn lemma_deposit_refused_only_when_frozen(
    v: ManagerView,
    client_id: u16,
    amount: Amount,
    k: u16,
)
    requires
        v.wf(),
    ensures
        v.deposit(client_id, amount).1 == !(v.accounts.contains_key(client_id)
            && v.accounts[client_id].frozen),
        !v.deposit(client_id, amount).1 ==> v.deposit(client_id, amount).0 == v,
        v.deposit(client_id, amount).0.log == v.log,
        v.deposit(client_id, amount).1 ==> {
            let before_available = if v.accounts.contains_key(client_id) {
                v.accounts[client_id].available_funds
            } else {
                Amount { mantissa: 0, scale: 0, sign_negative: false }
            };
            let before_total = if v.accounts.contains_key(client_id) {
                v.accounts[client_id].total_funds
            } else {
                Amount { mantissa: 0, scale: 0, sign_negative: false }
            };
            let after = v.deposit(client_id, amount).0.accounts[client_id];
            &&& v.deposit(client_id, amount).0.accounts.contains_key(client_id)
            &&& after.available_funds == decimal_sum(before_available, amount).unwrap()
            &&& after.total_funds == decimal_sum(before_total, amount).unwrap()
            &&& after.client_id == client_id
            &&& !after.frozen
            &&& v.accounts.contains_key(client_id) ==> after.held_funds
                == v.accounts[client_id].held_funds
            &&& !v.accounts.contains_key(client_id) ==> after.held_funds.units() == 0
        },
        k != client_id ==> v.deposit(client_id, amount).0.accounts.get(k) == v.accounts.get(k),
{
}

/// A dispute that applies moves the deposit's amount from the available to
/// the held funds of the client and marks the deposit disputed; it leaves
/// the total, the frozen flag, every other account and every other logged
/// transaction alone. A resolve moves the amount back and marks the deposit
/// resolved, again without touching the total or the frozen flag. A
/// chargeback takes the amount out of the held and total funds, leaves the
/// available funds, freezes the account and marks the deposit charged back.
pub proof fn lemma_events_move_only_the_deposit_amount(
    v: ManagerView,
    txn_id: u32,
    client_id: u16,
    k: u16,
    j: u32,
)
    ensures
        v.dispute_applies(txn_id, client_id) ==> {
            let a = v.accounts[client_id];
            let x = v.log[txn_id].amount();
            let w = v.dispute(txn_id, client_id);
            &&& w.accounts[client_id].available_funds == decimal_difference(a.available_funds, x).unwrap()
            &&& w.accounts[client_id].held_funds == decimal_sum(a.held_funds, x).unwrap()
            &&& w.accounts[client_id].total_funds == a.total_funds
            &&& w.accounts[client_id].frozen == a.frozen
            &&& w.accounts[client_id].client_id == a.client_id
            &&& w.log[txn_id].status() == TransactionStatus::Disputed
        },
        v.resolve_applies(txn_id, client_id) ==> {
            let a = v.accounts[client_id];
            let x = v.log[txn_id].amount();
            let w = v.resolve(txn_id, client_id);
            &&& w.accounts[client_id].available_funds == decimal_sum(a.available_funds, x).unwrap()
            &&& w.accounts[client_id].held_funds == decimal_difference(a.held_funds, x).unwrap()
            &&& w.accounts[client_id].total_funds == a.total_funds
            &&& w.accounts[client_id].frozen == a.frozen
            &&& w.accounts[client_id].client_id == a.client_id
            &&& w.log[txn_id].status() == TransactionStatus::Resolved
        },
        v.chargeback_applies(txn_id, client_id) ==> {
            let a = v.accounts[client_id];
            let x = v.log[txn_id].amount();
            let w = v.chargeback(txn_id, client_id);
            &&& w.accounts[client_id].available_funds == a.available_funds
            &&& w.accounts[client_id].held_funds == decimal_difference(a.held_funds, x).unwrap()
            &&& w.accounts[client_id].total_funds == decimal_difference(a.total_funds, x).unwrap()
            &&& w.accounts[client_id].frozen
            &&& w.accounts[client_id].client_id == a.client_id
            &&& w.log[txn_id].status() == TransactionStatus::ChargedBack
        },
        !v.dispute_applies(txn_id, client_id) ==> v.dispute(txn_id, client_id) == v,
        !v.resolve_applies(txn_id, client_id) ==> v.resolve(txn_id, client_id) == v,
        !v.chargeback_applies(txn_id, client_id) ==> v.chargeback(txn_id, client_id) == v,
        k != client_id ==> {
            &&& v.dispute(txn_id, client_id).accounts.get(k) == v.accounts.get(k)
            &&& v.resolve(txn_id, client_id).accounts.get(k) == v.accounts.get(k)
            &&& v.chargeback(txn_id, client_id).accounts.get(k) == v.accounts.get(k)
        },
        j != txn_id ==> {
            &&& v.dispute(txn_id, client_id).log.get(j) == v.log.get(j)
            &&& v.resolve(txn_id, client_id).log.get(j) == v.log.get(j)
            &&& v.chargeback(txn_id, client_id).log.get(j) == v.log.get(j)
        },
        v.dispute(txn_id, client_id).accounts.dom() == v.accounts.dom(),
        v.resolve(txn_id, client_id).accounts.dom() == v.accounts.dom(),
        v.chargeback(txn_id, client_id).accounts.dom() == v.accounts.dom(),
{
    assert(v.dispute(txn_id, client_id).accounts.dom() =~= v.accounts.dom());
    assert(v.resolve(txn_id, client_id).accounts.dom() =~= v.accounts.dom());
    assert(v.chargeback(txn_id, client_id).accounts.dom() =~= v.accounts.dom());
}

/// The five record kinds are different words.
proof fn lemma_record_words_differ()
    ensures
        "deposit"@ != "withdrawal"@,
        "deposit"@ != "dispute"@,
        "deposit"@ != "resolve"@,
        "deposit"@ != "chargeback"@,
        "withdrawal"@ != "dispute"@,
        "withdrawal"@ != "resolve"@,
        "withdrawal"@ != "chargeback"@,
        "dispute"@ != "resolve"@,
        "dispute"@ != "chargeback"@,
        "resolve"@ != "chargeback"@,
{
    reveal_strlit("deposit");
    reveal_strlit("withdrawal");
    reveal_strlit("dispute");
    reveal_strlit("resolve");
    reveal_strlit("chargeback");
    assert("deposit"@[1] != "dispute"@[1]);
    assert("deposit"@[0] != "resolve"@[0]);
    assert("dispute"@[0] != "resolve"@[0]);
    assert("withdrawal"@[0] != "chargeback"@[0]);
}

/// A reported account keeps the client id and the frozen flag of the
/// account it reports; only the three balances are rounded.
pub proof fn lemma_report_keeps_client_and_lock(a: ClientAccount)
    ensures
        a.rounded_view().client_id == a.client_id,
        a.rounded_view().frozen == a.frozen,
        a.rounded_view().available_funds == rounded_to(a.available_funds, REPORTED_PLACES),
        a.rounded_view().held_funds == rounded_to(a.held_funds, REPORTED_PLACES),
        a.rounded_view().total_funds == rounded_to(a.total_funds, REPORTED_PLACES),
{
}

/// A transaction read from a row belongs to the row's client, has the
/// row's transaction id and amount, and starts out clean; it is a deposit
/// exactly when the row's kind is `deposit`, and a withdrawal exactly when
/// it is `withdrawal`. A row without an amount makes no transaction.
pub proof fn lemma_row_transaction_keeps_row_fields(value: RawRow, r: Result<Transaction, RowError>)
    requires
        transaction_from_row(value, r),
    ensures
        r matches Ok(t) ==> {
            &&& t.client_id() == value.client
            &&& t.id() == value.tx
            &&& value.amount == Some(t.amount())
            &&& t.status() == TransactionStatus::Clean
            &&& (t is Deposit <==> trimmed(value.tx_kind@) == "deposit"@)
            &&& (t is Withdrawal <==> trimmed(value.tx_kind@) == "withdrawal"@)
        },
        value.amount is None ==> r matches Err(RowError::MissingAmount),
        (value.amount is Some && (trimmed(value.tx_kind@) == "deposit"@ || trimmed(value.tx_kind@)
            == "withdrawal"@)) ==> r is Ok,
{
    lemma_record_words_differ();
}

/// An event read from a row refers to the row's transaction id for the
/// row's client, and its kind is the row's kind.
pub proof fn lemma_row_event_keeps_row_fields(value: RawRow, r: Result<PaymentEvent, RowError>)
    requires
        event_from_row(value, r),
    ensures
        r matches Ok(e) ==> {
            &&& e.referenced_id() == value.tx
            &&& (e is Dispute <==> trimmed(value.tx_kind@) == "dispute"@)
            &&& (e is Resolve <==> trimmed(value.tx_kind@) == "resolve"@)
            &&& (e is Chargeback <==> trimmed(value.tx_kind@) == "chargeback"@)
            &&& match e {
                PaymentEvent::Dispute { client_id, .. } => client_id == value.client,
                PaymentEvent::Resolve { client_id, .. } => client_id == value.client,
                PaymentEvent::Chargeback { client_id, .. } => client_id == value.client,
            }
        },
        (trimmed(value.tx_kind@) == "dispute"@ || trimmed(value.tx_kind@) == "resolve"@ || trimmed(
            value.tx_kind@,
        ) == "chargeback"@) ==> r is Ok,
{
    lemma_record_words_differ();
}

/// Each of the five record types goes to its own family and never counts as
/// unknown: `deposit` and `withdrawal` rows become transactions, `dispute`,
/// `resolve` and `chargeback` rows become events, each carrying the row's
/// client and transaction id where the row reads as one of its kind.
pub proof fn lemma_record_types_route_to_their_family(
    record_type: Seq<char>,
    raw: RawRow,
    r: Result<PaymentRecord, RecordError>,
)
    requires
        payment_record_from(Some(record_type), Ok(raw), r),
    ensures
        (record_type == "deposit"@ || record_type == "withdrawal"@ || record_type == "dispute"@
            || record_type == "resolve"@ || record_type == "chargeback"@) ==> !(r matches Err(
            RecordError::UnknownRecordType(_),
        )),
        (record_type == "deposit"@ || record_type == "withdrawal"@) ==> !(r matches Ok(
            PaymentRecord::MutatingEvent(_),
        )),
        (record_type == "dispute"@ || record_type == "resolve"@ || record_type == "chargeback"@)
            ==> !(r matches Ok(PaymentRecord::Transaction(_))),
        (record_type == "chargeback"@ && trimmed(raw.tx_kind@) == "chargeback"@) ==> r == Ok::<
            PaymentRecord,
            RecordError,
        >(
            PaymentRecord::MutatingEvent(
                PaymentEvent::Chargeback { reference_txn_id: raw.tx, client_id: raw.client },
            ),
        ),
        (record_type == "dispute"@ && trimmed(raw.tx_kind@) == "dispute"@) ==> r == Ok::<
            PaymentRecord,
            RecordError,
        >(
            PaymentRecord::MutatingEvent(
                PaymentEvent::Dispute { reference_txn_id: raw.tx, client_id: raw.client },
            ),
        ),
        (record_type == "resolve"@ && trimmed(raw.tx_kind@) == "resolve"@) ==> r == Ok::<
            PaymentRecord,
            RecordError,
        >(
            PaymentRecord::MutatingEvent(
                PaymentEvent::Resolve { reference_txn_id: raw.tx, client_id: raw.client },
            ),
        ),
        (record_type == "deposit"@ && trimmed(raw.tx_kind@) == "deposit"@ && raw.amount is Some)
            ==> r == Ok::<PaymentRecord, RecordError>(
            PaymentRecord::Transaction(
                Transaction::Deposit {
                    client_id: raw.client,
                    transaction_id: raw.tx,
                    amount: raw.amount.unwrap(),
                    status: TransactionStatus::Clean,
                },
            ),
        ),
        (record_type == "withdrawal"@ && trimmed(raw.tx_kind@) == "withdrawal"@
            && raw.amount is Some) ==> r == Ok::<PaymentRecord, RecordError>(
            PaymentRecord::Transaction(
                Transaction::Withdrawal {
                    client_id: raw.client,
                    transaction_id: raw.tx,
                    amount: raw.amount.unwrap(),
                    status: TransactionStatus::Clean,
                },
            ),
        ),
{
    lemma_record_words_differ();
}

/// An event is applied exactly where it acts: its outcome is `Applied`
/// exactly when the operation changes the deposit's status. Otherwise the
/// outcome names the first check that failed: no deposit under the id, a
/// deposit of another client (named), a deposit in another status (named),
/// or a client without an account.
pub proof fn lemma_event_outcome_says_why(
    v: ManagerView,
    txn_id: u32,
    client_id: u16,
    status: TransactionStatus,
)
    requires
        v.wf(),
    ensures
        (v.event_outcome(txn_id, client_id, TransactionStatus::Clean) == EventOutcome::Applied)
            == v.dispute_applies(txn_id, client_id),
        (v.event_outcome(txn_id, client_id, TransactionStatus::Disputed) == EventOutcome::Applied)
            == v.resolve_applies(txn_id, client_id),
        (v.event_outcome(txn_id, client_id, TransactionStatus::Disputed) == EventOutcome::Applied)
            == v.chargeback_applies(txn_id, client_id),
        (v.event_outcome(txn_id, client_id, status) == EventOutcome::NoDeposit) == !(
        v.log.contains_key(txn_id) && v.log[txn_id] is Deposit),
        v.event_outcome(txn_id, client_id, status) matches EventOutcome::ClientMismatch(owner)
            ==> v.log.contains_key(txn_id) && v.log[txn_id] is Deposit && owner
            == v.log[txn_id].client_id() && owner != client_id,
        v.event_outcome(txn_id, client_id, status) matches EventOutcome::WrongStatus(current)
            ==> v.log.contains_key(txn_id) && v.log[txn_id].client_id() == client_id && current
            == v.log[txn_id].status() && current != status,
        (v.event_outcome(txn_id, client_id, status) == EventOutcome::NoAccount) ==> (
        v.deposit_in_state(txn_id, client_id, status) == false && !v.accounts.contains_key(
            client_id,
        )),
        v.event_outcome(txn_id, client_id, TransactionStatus::Clean) != EventOutcome::Applied
            ==> v.dispute(txn_id, client_id) == v,
        v.event_outcome(txn_id, client_id, TransactionStatus::Disputed) != EventOutcome::Applied
            ==> v.resolve(txn_id, client_id) == v && v.chargeback(txn_id, client_id) == v,
{
}

/// A new account belongs to its client, holds nothing and is not frozen.
pub proof fn lemma_fresh_account_is_empty(client_id: u16)
    ensures
        ClientAccount::fresh(client_id).client_id == client_id,
        ClientAccount::fresh(client_id).available_funds.units() == 0,
        ClientAccount::fresh(client_id).held_funds.units() == 0,
        ClientAccount::fresh(client_id).total_funds.units() == 0,
        !ClientAccount::fresh(client_id).frozen,
{
}

/// Trimming the front drops exactly a run of leading whitespace: what is
/// left is a suffix of the text that starts with no whitespace, and every
/// character dropped is whitespace.
pub proof fn lemma_trim_start_drops_leading_white_space(s: Seq<char>)
    ensures
        exists|i: int|
            0 <= i <= s.len() && trim_start(s) == s.subrange(i, s.len() as int) && (forall|k: int|
                0 <= k < i ==> is_white_space(#[trigger] s[k])) && (i < s.len() ==> !is_white_space(
                s[i],
            )),
    decreases s.len(),
{
    if s.len() > 0 && is_white_space(s[0]) {
        lemma_trim_start_drops_leading_white_space(s.drop_first());
        let rest = s.drop_first();
        let i = choose|i: int|
            0 <= i <= rest.len() && trim_start(rest) == rest.subrange(i, rest.len() as int) && (
            forall|k: int| 0 <= k < i ==> is_white_space(#[trigger] rest[k])) && (i < rest.len()
                ==> !is_white_space(rest[i]));
        assert(rest.subrange(i, rest.len() as int) =~= s.subrange(i + 1, s.len() as int));
        assert forall|k: int| 0 <= k < i + 1 implies is_white_space(#[trigger] s[k]) by {
            if k > 0 {
                assert(s[k] == rest[k - 1]);
            }
        }
        assert(trim_start(s) == s.subrange(i + 1, s.len() as int));
    } else {
        assert(s.subrange(0, s.len() as int) =~= s);
    }
}

/// Trimming the back drops exactly a run of trailing whitespace: what is
/// left is a prefix of the text that ends with no whitespace, and every
/// character dropped is whitespace.
pub proof fn lemma_trim_end_drops_trailing_white_space(s: Seq<char>)
    ensures
        exists|j: int|
            0 <= j <= s.len() && trim_end(s) == s.subrange(0, j) && (forall|k: int|
                j <= k < s.len() ==> is_white_space(#[trigger] s[k])) && (j > 0 ==> !is_white_space(
                s[j - 1],
            )),
    decreases s.len(),
{
    if s.len() > 0 && is_white_space(s.last()) {
        lemma_trim_end_drops_trailing_white_space(s.drop_last());
        let rest = s.drop_last();
        let j = choose|j: int|
            0 <= j <= rest.len() && trim_end(rest) == rest.subrange(0, j) && (forall|k: int|
                j <= k < rest.len() ==> is_white_space(#[trigger] rest[k])) && (j > 0
                ==> !is_white_space(rest[j - 1]));
        assert(rest.subrange(0, j) =~= s.subrange(0, j));
        assert forall|k: int| j <= k < s.len() implies is_white_space(#[trigger] s[k]) by {
            if k < s.len() - 1 {
                assert(s[k] == rest[k]);
            }
        }
        assert(trim_end(s) == s.subrange(0, j));
    } else {
        assert(s.subrange(0, s.len() as int) =~= s);
    }
}

} // verus!
