//! Client accounts and the account manager, which applies deposits,
//! withdrawals, disputes, resolutions and chargebacks, and keeps a log of the
//! transactions that may later be disputed.

use std::collections::HashMap;

use vstd::prelude::*;

use crate::amount::{
    decimal_difference,
    decimal_sum,
    difference_facts,
    rounded_to,
    sum_facts,
    Amount,
    REPORTED_PLACES,
};
use crate::transactions::{Transaction, TransactionStatus};

verus! {

broadcast use vstd::std_specs::hash::group_hash_axioms;

/// The balances of one client.
#[derive(Clone, Copy, Debug)]
pub struct ClientAccount {
    pub client_id: u16,
    pub available_funds: Amount,
    pub held_funds: Amount,
    pub total_funds: Amount,
    pub frozen: bool,
}

impl ClientAccount {
    /// Every balance has the parts of a decimal.
    pub open spec fn wf(self) -> bool {
        &&& self.available_funds.wf()
        &&& self.held_funds.wf()
        &&& self.total_funds.wf()
    }

    /// An account with nothing in it, not frozen.
    pub open spec fn fresh(client_id: u16) -> ClientAccount {
        ClientAccount {
            client_id,
            available_funds: Amount { mantissa: 0, scale: 0, sign_negative: false },
            held_funds: Amount { mantissa: 0, scale: 0, sign_negative: false },
            total_funds: Amount { mantissa: 0, scale: 0, sign_negative: false },
            frozen: false,
        }
    }

    /// The total is what is available plus what is held.
    pub open spec fn balanced(self) -> bool {
        self.total_funds.units() == self.available_funds.units() + self.held_funds.units()
    }

    /// The account's balances, each rounded to four decimal places.
    pub open spec fn rounded_view(self) -> ClientAccount {
        ClientAccount {
            available_funds: rounded_to(self.available_funds, REPORTED_PLACES),
            held_funds: rounded_to(self.held_funds, REPORTED_PLACES),
            total_funds: rounded_to(self.total_funds, REPORTED_PLACES),
            ..self
        }
    }

    /// A new, empty account for the client.
    pub fn new(client_id: u16) -> (r: ClientAccount)
        ensures
            r == ClientAccount::fresh(client_id),
            r.wf(),
    {
        ClientAccount {
            client_id,
            available_funds: Amount::zero(),
            held_funds: Amount::zero(),
            total_funds: Amount::zero(),
            frozen: false,
        }
    }

    /// Locks the account.
    pub fn freeze(&mut self)
        ensures
            *final(self) == (ClientAccount { frozen: true, ..*old(self) }),
    {
        self.frozen = true;
    }

    /// True when every balance has the parts of a decimal.
    pub fn is_wf(&self) -> (r: bool)
        ensures
            r == self.wf(),
    {
        self.available_funds.is_wf() && self.held_funds.is_wf() && self.total_funds.is_wf()
    }

    /// The account with its balances rounded to four decimal places, as it
    /// is reported.
    pub fn rounded(&self) -> (r: ClientAccount)
        requires
            self.wf(),
        ensures
            r == self.rounded_view(),
            r.wf(),
            r.client_id == self.client_id,
            r.frozen == self.frozen,
    {
        ClientAccount {
            client_id: self.client_id,
            available_funds: self.available_funds.round_reported(),
            held_funds: self.held_funds.round_reported(),
            total_funds: self.total_funds.round_reported(),
            frozen: self.frozen,
        }
    }
}

/// What became of a withdrawal.
#[derive(Clone, Copy, Debug, PartialEq, Eq, Structural)]
pub enum WithdrawOutcome {
    /// The funds were taken.
    Accepted,
    /// The client has no account.
    NoAccount,
    /// The account is frozen.
    Frozen,
    /// The available funds do not cover the amount.
    InsufficientFunds,
}

/// What became of a dispute, resolve or chargeback.
#[derive(Clone, Copy, Debug, PartialEq, Eq, Structural)]
pub enum EventOutcome {
    /// The event was applied.
    Applied,
    /// No deposit is logged under the id.
    NoDeposit,
    /// The deposit belongs to the client given here, not to the event's.
    ClientMismatch(u16),
    /// The deposit has the status given here, which the event does not act on.
    WrongStatus(TransactionStatus),
    /// The client has no account.
    NoAccount,
}

/// What an `AccountManager` holds: the accounts by client id, and the logged
/// transactions by transaction id.
pub struct ManagerView {
    pub accounts: Map<u16, ClientAccount>,
    pub log: Map<u32, Transaction>,
}

impl ManagerView {
    /// Each account is stored under its own client id, each transaction
    /// under its own id, every amount has the parts of a decimal, and the log
    /// is finite.
    pub open spec fn wf(self) -> bool {
        &&& forall|c: u16| #[trigger]
            self.accounts.contains_key(c) ==> self.accounts[c].client_id == c
                && self.accounts[c].wf()
        &&& forall|t: u32| #[trigger]
            self.log.contains_key(t) ==> self.log[t].id() == t && self.log[t].amount().wf()
        &&& self.log.dom().finite()
    }

    /// Storing a well-formed account under its own client id keeps the
    /// state well formed.
    pub proof fn lemma_store_account(self, a: ClientAccount)
        requires
            self.wf(),
            a.wf(),
        ensures
            (ManagerView { accounts: self.accounts.insert(a.client_id, a), ..self }).wf(),
    {
        let next = ManagerView { accounts: self.accounts.insert(a.client_id, a), ..self };
        assert forall|c: u16| #[trigger] next.accounts.contains_key(c) implies next.accounts[c].client_id
            == c && next.accounts[c].wf() by {
            if c != a.client_id {
                assert(self.accounts.contains_key(c));
            }
        }
    }

    /// Storing a transaction with a well-formed amount under its own id keeps
    /// the state well formed.
    pub proof fn lemma_store_transaction(self, t: Transaction)
        requires
            self.wf(),
            t.amount().wf(),
        ensures
            (ManagerView { log: self.log.insert(t.id(), t), ..self }).wf(),
    {
        let next = ManagerView { log: self.log.insert(t.id(), t), ..self };
        assert forall|k: u32| #[trigger] next.log.contains_key(k) implies next.log[k].id() == k
            && next.log[k].amount().wf() by {
            if k != t.id() {
                assert(self.log.contains_key(k));
            }
        }
    }

    /// No accounts and an empty log.
    pub open spec fn empty() -> ManagerView {
        ManagerView { accounts: Map::empty(), log: Map::empty() }
    }

    /// The client's account, or a fresh one where the client has none.
    pub open spec fn account_or_fresh(self, client_id: u16) -> ClientAccount {
        if self.accounts.contains_key(client_id) {
            self.accounts[client_id]
        } else {
            ClientAccount::fresh(client_id)
        }
    }

    /// The state after logging `t`: the first transaction logged under an id
    /// stays, a later one with the same id is ignored.
    pub open spec fn write_to_log(self, t: Transaction) -> ManagerView {
        if self.log.contains_key(t.id()) {
            self
        } else {
            ManagerView { log: self.log.insert(t.id(), t), ..self }
        }
    }

    /// Depositing `amount` for the client does not overflow a decimal.
    pub open spec fn deposit_ok(self, client_id: u16, amount: Amount) -> bool {
        let a = self.account_or_fresh(client_id);
        !a.frozen ==> {
            &&& decimal_sum(a.available_funds, amount) is Some
            &&& decimal_sum(a.total_funds, amount) is Some
        }
    }

    /// What is known of the decimal additions a deposit makes.
    pub open spec fn deposit_facts(self, client_id: u16, amount: Amount) -> bool {
        let a = self.account_or_fresh(client_id);
        !a.frozen ==> {
            &&& sum_facts(a.available_funds, amount, decimal_sum(a.available_funds, amount))
            &&& decimal_sum(a.available_funds, amount) is Some ==> sum_facts(
                a.total_funds,
                amount,
                decimal_sum(a.total_funds, amount),
            )
        }
    }

    /// What is known of the decimal subtractions a withdrawal makes.
    pub open spec fn withdraw_facts(self, client_id: u16, amount: Amount) -> bool {
        (self.accounts.contains_key(client_id) && !self.accounts[client_id].frozen) ==> {
            let a = self.accounts[client_id];
            &&& difference_facts(
                a.available_funds,
                amount,
                decimal_difference(a.available_funds, amount),
            )
            &&& (decimal_difference(a.available_funds, amount) matches Some(left) && left.units()
                >= 0) ==> difference_facts(
                a.total_funds,
                amount,
                decimal_difference(a.total_funds, amount),
            )
        }
    }

    /// A withdrawal is accepted exactly where the client has an account that
    /// is not frozen and whose available funds cover the amount.
    pub open spec fn withdrawal_covered(self, client_id: u16, amount: Amount) -> bool {
        &&& self.accounts.contains_key(client_id)
        &&& !self.accounts[client_id].frozen
        &&& self.accounts[client_id].available_funds.units() >= amount.units()
    }

    /// What is known of the decimal arithmetic a dispute makes.
    pub open spec fn dispute_facts(self, txn_id: u32, client_id: u16) -> bool {
        self.dispute_applies(txn_id, client_id) ==> {
            let a = self.accounts[client_id];
            let x = self.log[txn_id].amount();
            &&& difference_facts(a.available_funds, x, decimal_difference(a.available_funds, x))
            &&& decimal_difference(a.available_funds, x) is Some ==> sum_facts(
                a.held_funds,
                x,
                decimal_sum(a.held_funds, x),
            )
        }
    }

    /// What is known of the decimal arithmetic a resolve makes.
    pub open spec fn resolve_facts(self, txn_id: u32, client_id: u16) -> bool {
        self.resolve_applies(txn_id, client_id) ==> {
            let a = self.accounts[client_id];
            let x = self.log[txn_id].amount();
            &&& difference_facts(a.held_funds, x, decimal_difference(a.held_funds, x))
            &&& decimal_difference(a.held_funds, x) is Some ==> sum_facts(
                a.available_funds,
                x,
                decimal_sum(a.available_funds, x),
            )
        }
    }

    /// What is known of the decimal arithmetic a chargeback makes.
    pub open spec fn chargeback_facts(self, txn_id: u32, client_id: u16) -> bool {
        self.chargeback_applies(txn_id, client_id) ==> {
            let a = self.accounts[client_id];
            let x = self.log[txn_id].amount();
            &&& difference_facts(a.held_funds, x, decimal_difference(a.held_funds, x))
            &&& decimal_difference(a.held_funds, x) is Some ==> difference_facts(
                a.total_funds,
                x,
                decimal_difference(a.total_funds, x),
            )
        }
    }

    /// The state after a deposit, and whether it was accepted. The client
    /// gets an account if it has none; a frozen account refuses the deposit;
    /// otherwise the amount is added to the available and total funds.
    pub open spec fn deposit(self, client_id: u16, amount: Amount) -> (ManagerView, bool) {
        let a = self.account_or_fresh(client_id);
        if a.frozen {
            (self, false)
        } else {
            let updated = ClientAccount {
                available_funds: decimal_sum(a.available_funds, amount).unwrap(),
                total_funds: decimal_sum(a.total_funds, amount).unwrap(),
                ..a
            };
            (ManagerView { accounts: self.accounts.insert(client_id, updated), ..self }, true)
        }
    }

    /// Withdrawing `amount` from the client does not overflow a decimal.
    pub open spec fn withdraw_ok(self, client_id: u16, amount: Amount) -> bool {
        (self.accounts.contains_key(client_id) && !self.accounts[client_id].frozen) ==> {
            let a = self.accounts[client_id];
            &&& decimal_difference(a.available_funds, amount) is Some
            &&& decimal_difference(a.available_funds, amount).unwrap().units() >= 0
                ==> decimal_difference(a.total_funds, amount) is Some
        }
    }

    /// The state after a withdrawal, and whether it was accepted. It is
    /// refused where the client has no account, the account is frozen, or the
    /// available funds would go below zero; otherwise the amount is taken from
    /// the available and total funds.
    pub open spec fn withdraw(self, client_id: u16, amount: Amount) -> (ManagerView, bool) {
        if !self.accounts.contains_key(client_id) || self.accounts[client_id].frozen {
            (self, false)
        } else {
            let a = self.accounts[client_id];
            let left = decimal_difference(a.available_funds, amount).unwrap();
            if left.units() < 0 {
                (self, false)
            } else {
                let updated = ClientAccount {
                    available_funds: left,
                    total_funds: decimal_difference(a.total_funds, amount).unwrap(),
                    ..a
                };
                (ManagerView { accounts: self.accounts.insert(client_id, updated), ..self }, true)
            }
        }
    }

    /// What becomes of a withdrawal: it is refused where the client has no
    /// account, where the account is frozen, or where the available funds
    /// less the amount fall below zero.
    pub open spec fn withdraw_outcome(self, client_id: u16, amount: Amount) -> WithdrawOutcome {
        if !self.accounts.contains_key(client_id) {
            WithdrawOutcome::NoAccount
        } else if self.accounts[client_id].frozen {
            WithdrawOutcome::Frozen
        } else if decimal_difference(self.accounts[client_id].available_funds, amount).unwrap().units()
            < 0 {
            WithdrawOutcome::InsufficientFunds
        } else {
            WithdrawOutcome::Accepted
        }
    }

    /// What becomes of an event on `txn_id` for the client that acts on a
    /// deposit with status `status`, checked in this order: a deposit is
    /// logged under the id, it belongs to the client, it has the status, and
    /// the client has an account.
    pub open spec fn event_outcome(
        self,
        txn_id: u32,
        client_id: u16,
        status: TransactionStatus,
    ) -> EventOutcome {
        if !(self.log.contains_key(txn_id) && self.log[txn_id] is Deposit) {
            EventOutcome::NoDeposit
        } else if self.log[txn_id].client_id() != client_id {
            EventOutcome::ClientMismatch(self.log[txn_id].client_id())
        } else if self.log[txn_id].status() != status {
            EventOutcome::WrongStatus(self.log[txn_id].status())
        } else if !self.accounts.contains_key(client_id) {
            EventOutcome::NoAccount
        } else {
            EventOutcome::Applied
        }
    }

    /// The logged deposit `txn_id` names, where it is a deposit of the client
    /// with status `status` and the client has an account.
    pub open spec fn deposit_in_state(
        self,
        txn_id: u32,
        client_id: u16,
        status: TransactionStatus,
    ) -> bool {
        &&& self.log.contains_key(txn_id)
        &&& self.log[txn_id] is Deposit
        &&& self.log[txn_id].client_id() == client_id
        &&& self.log[txn_id].status() == status
        &&& self.accounts.contains_key(client_id)
    }

    /// A dispute of `txn_id` applies: it names a clean deposit of the client.
    pub open spec fn dispute_applies(self, txn_id: u32, client_id: u16) -> bool {
        self.deposit_in_state(txn_id, client_id, TransactionStatus::Clean)
    }

    /// A dispute does not overflow a decimal.
    pub open spec fn dispute_ok(self, txn_id: u32, client_id: u16) -> bool {
        self.dispute_applies(txn_id, client_id) ==> {
            let a = self.accounts[client_id];
            let amount = self.log[txn_id].amount();
            &&& decimal_difference(a.available_funds, amount) is Some
            &&& decimal_sum(a.held_funds, amount) is Some
        }
    }

    /// The state after a dispute: where it applies, the deposit's amount
    /// moves from available to held and the deposit becomes `Disputed`;
    /// otherwise nothing changes.
    pub open spec fn dispute(self, txn_id: u32, client_id: u16) -> ManagerView {
        if self.dispute_applies(txn_id, client_id) {
            let a = self.accounts[client_id];
            let t = self.log[txn_id];
            let updated = ClientAccount {
                available_funds: decimal_difference(a.available_funds, t.amount()).unwrap(),
                held_funds: decimal_sum(a.held_funds, t.amount()).unwrap(),
                ..a
            };
            ManagerView {
                accounts: self.accounts.insert(client_id, updated),
                log: self.log.insert(txn_id, t.with_status(TransactionStatus::Disputed)),
            }
        } else {
            self
        }
    }

    /// A resolve of `txn_id` applies: it names a disputed deposit of the
    /// client.
    pub open spec fn resolve_applies(self, txn_id: u32, client_id: u16) -> bool {
        self.deposit_in_state(txn_id, client_id, TransactionStatus::Disputed)
    }

    /// A resolve does not overflow a decimal.
    pub open spec fn resolve_ok(self, txn_id: u32, client_id: u16) -> bool {
        self.resolve_applies(txn_id, client_id) ==> {
            let a = self.accounts[client_id];
            let amount = self.log[txn_id].amount();
            &&& decimal_difference(a.held_funds, amount) is Some
            &&& decimal_sum(a.available_funds, amount) is Some
        }
    }

    /// The state after a resolve: where it applies, the deposit's amount
    /// moves from held back to available and the deposit becomes `Resolved`;
    /// otherwise nothing changes.
    pub open spec fn resolve(self, txn_id: u32, client_id: u16) -> ManagerView {
        if self.resolve_applies(txn_id, client_id) {
            let a = self.accounts[client_id];
            let t = self.log[txn_id];
            let updated = ClientAccount {
                held_funds: decimal_difference(a.held_funds, t.amount()).unwrap(),
                available_funds: decimal_sum(a.available_funds, t.amount()).unwrap(),
                ..a
            };
            ManagerView {
                accounts: self.accounts.insert(client_id, updated),
                log: self.log.insert(txn_id, t.with_status(TransactionStatus::Resolved)),
            }
        } else {
            self
        }
    }

    /// A chargeback of `txn_id` applies: it names a disputed deposit of the
    /// client.
    pub open spec fn chargeback_applies(self, txn_id: u32, client_id: u16) -> bool {
        self.deposit_in_state(txn_id, client_id, TransactionStatus::Disputed)
    }

    /// A chargeback does not overflow a decimal.
    pub open spec fn chargeback_ok(self, txn_id: u32, client_id: u16) -> bool {
        self.chargeback_applies(txn_id, client_id) ==> {
            let a = self.accounts[client_id];
            let amount = self.log[txn_id].amount();
            &&& decimal_difference(a.held_funds, amount) is Some
            &&& decimal_difference(a.total_funds, amount) is Some
        }
    }

    /// The state after a chargeback: where it applies, the account is frozen,
    /// the deposit's amount leaves the held and total funds, and the deposit
    /// becomes `ChargedBack`; otherwise nothing changes.
    pub open spec fn chargeback(self, txn_id: u32, client_id: u16) -> ManagerView {
        if self.chargeback_applies(txn_id, client_id) {
            let a = self.accounts[client_id];
            let t = self.log[txn_id];
            let updated = ClientAccount {
                frozen: true,
                held_funds: decimal_difference(a.held_funds, t.amount()).unwrap(),
                total_funds: decimal_difference(a.total_funds, t.amount()).unwrap(),
                ..a
            };
            ManagerView {
                accounts: self.accounts.insert(client_id, updated),
                log: self.log.insert(txn_id, t.with_status(TransactionStatus::ChargedBack)),
            }
        } else {
            self
        }
    }
}

/// Holds the client accounts and the log of transactions that may later be
/// disputed, and applies the operations of the engine to them.
pub struct AccountManager {
    accounts: HashMap<u16, ClientAccount>,
    transaction_log: HashMap<u32, Transaction>,
}

impl View for AccountManager {
    type V = ManagerView;

    closed spec fn view(&self) -> ManagerView {
        ManagerView { accounts: self.accounts@, log: self.transaction_log@ }
    }
}

impl Default for AccountManager {
    fn default() -> (r: AccountManager)
        ensures
            r@ == ManagerView::empty(),
    {
        AccountManager::new()
    }
}

impl AccountManager {
    /// A manager with no accounts and an empty log.
    pub fn new() -> (r: AccountManager)
        ensures
            r@ == ManagerView::empty(),
            r@.wf(),
    {
        let r = AccountManager { accounts: HashMap::new(), transaction_log: HashMap::new() };
        assert(r@.accounts =~= Map::empty());
        assert(r@.log =~= Map::empty());
        r
    }

    /// The client's account, if it has one.
    pub fn account(&self, client_id: u16) -> (r: Option<ClientAccount>)
        ensures
            r == (if self@.accounts.contains_key(client_id) {
                Some(self@.accounts[client_id])
            } else {
                None
            }),
    {
        match self.accounts.get(&client_id) {
            Some(a) => Some(*a),
            None => None,
        }
    }

    /// The transaction logged under `txn_id`, if any.
    pub fn logged_transaction(&self, txn_id: u32) -> (r: Option<Transaction>)
        ensures
            r == (if self@.log.contains_key(txn_id) {
                Some(self@.log[txn_id])
            } else {
                None
            }),
    {
        match self.transaction_log.get(&txn_id) {
            Some(t) => Some(*t),
            None => None,
        }
    }

    /// All accounts, by client id.
    pub fn accounts(&self) -> (r: &HashMap<u16, ClientAccount>)
        ensures
            r@ == self@.accounts,
    {
        &self.accounts
    }

    /// Logs a transaction as `write_to_log` does, and returns whether it was
    /// logged: false where its id was already logged.
    pub fn log_transaction(&mut self, transaction: Transaction) -> (r: bool)
        requires
            old(self)@.wf(),
            transaction.amount().wf(),
        ensures
            final(self)@ == old(self)@.write_to_log(transaction),
            final(self)@.wf(),
            r == !old(self)@.log.contains_key(transaction.id()),
    {
        let txn_id = transaction.id();
        if !self.transaction_log.contains_key(&txn_id) {
            proof {
                self@.lemma_store_transaction(transaction);
            }
            self.transaction_log.insert(txn_id, transaction);
            true
        } else {
            false
        }
    }

    /// Logs a transaction so that it can later be disputed. A transaction
    /// whose id is already logged is ignored.
    pub fn write_to_log(&mut self, transaction: Transaction)
        requires
            old(self)@.wf(),
            transaction.amount().wf(),
        ensures
            final(self)@ == old(self)@.write_to_log(transaction),
            final(self)@.wf(),
    {
        let _ = self.log_transaction(transaction);
    }

    /// Deposits `amount` into the client's account, opening the account if
    /// the client has none. Returns `None`, and changes nothing, where the
    /// arithmetic would overflow a decimal; otherwise `Some` of whether the
    /// deposit was accepted (a frozen account refuses it).
    pub fn checked_deposit_to_account(&mut self, client_id: u16, amount: Amount) -> (r: Option<
        bool,
    >)
        requires
            old(self)@.wf(),
            amount.wf(),
        ensures
            final(self)@.wf(),
            old(self)@.deposit_ok(client_id, amount) ==> r == Some(
                old(self)@.deposit(client_id, amount).1,
            ) && final(self)@ == old(self)@.deposit(client_id, amount).0,
            !old(self)@.deposit_ok(client_id, amount) ==> r is None && final(self)@ == old(self)@,
            old(self)@.deposit_facts(client_id, amount),
    {
        let account = match self.accounts.get(&client_id) {
            Some(a) => *a,
            None => ClientAccount::new(client_id),
        };
        if account.frozen {
            return Some(false);
        }
        let available = match account.available_funds.checked_add(&amount) {
            Some(x) => x,
            None => return None,
        };
        let total = match account.total_funds.checked_add(&amount) {
            Some(x) => x,
            None => return None,
        };
        let updated = ClientAccount { available_funds: available, total_funds: total, ..account };
        proof {
            self@.lemma_store_account(updated);
        }
        self.accounts.insert(client_id, updated);
        Some(true)
    }

    /// Deposits a provided amount into the account associated with the
    /// provided client id. If the client has no account, one is created.
    /// Returns false, changing nothing else, where the account is frozen.
    pub fn deposit_to_account(&mut self, client_id: u16, amount: Amount) -> (r: bool)
        requires
            old(self)@.wf(),
            amount.wf(),
            old(self)@.deposit_ok(client_id, amount),
        ensures
            final(self)@.wf(),
            (final(self)@, r) == old(self)@.deposit(client_id, amount),
            old(self)@.deposit_facts(client_id, amount),
    {
        match self.checked_deposit_to_account(client_id, amount) {
            Some(accepted) => accepted,
            None => false,
        }
    }

    /// Withdraws `amount` from the client's account. Returns `None`, and
    /// changes nothing, where the arithmetic would overflow a decimal;
    /// otherwise `Some` of what became of the withdrawal.
    pub fn checked_withdraw_from_account(&mut self, client_id: u16, amount: Amount) -> (r: Option<
        WithdrawOutcome,
    >)
        requires
            old(self)@.wf(),
            amount.wf(),
        ensures
            final(self)@.wf(),
            old(self)@.withdraw_ok(client_id, amount) ==> r == Some(
                old(self)@.withdraw_outcome(client_id, amount),
            ) && final(self)@ == old(self)@.withdraw(client_id, amount).0,
            old(self)@.withdraw_ok(client_id, amount) ==> (old(self)@.withdraw(client_id, amount).1
                <==> old(self)@.withdraw_outcome(client_id, amount) == WithdrawOutcome::Accepted),
            !old(self)@.withdraw_ok(client_id, amount) ==> r is None && final(self)@ == old(self)@,
            old(self)@.withdraw_facts(client_id, amount),
            r matches Some(o) ==> (o == WithdrawOutcome::Accepted <==> old(self)@.withdrawal_covered(
                client_id,
                amount,
            )),
    {
        let account = match self.accounts.get(&client_id) {
            Some(a) => *a,
            None => return Some(WithdrawOutcome::NoAccount),
        };
        if account.frozen {
            return Some(WithdrawOutcome::Frozen);
        }
        let left = match account.available_funds.checked_sub(&amount) {
            Some(x) => x,
            None => return None,
        };
        if left.is_negative() {
            return Some(WithdrawOutcome::InsufficientFunds);
        }
        let total = match account.total_funds.checked_sub(&amount) {
            Some(x) => x,
            None => return None,
        };
        let updated = ClientAccount { available_funds: left, total_funds: total, ..account };
        proof {
            self@.lemma_store_account(updated);
        }
        self.accounts.insert(client_id, updated);
        Some(WithdrawOutcome::Accepted)
    }

    /// Withdraws an amount from an account. This fails and returns false,
    /// changing nothing, where the client has no account, the account is
    /// frozen, or the available funds would go below zero.
    pub fn withdraw_from_account(&mut self, client_id: u16, amount: Amount) -> (r: bool)
        requires
            old(self)@.wf(),
            amount.wf(),
            old(self)@.withdraw_ok(client_id, amount),
        ensures
            final(self)@.wf(),
            (final(self)@, r) == old(self)@.withdraw(client_id, amount),
            old(self)@.withdraw_facts(client_id, amount),
            r == old(self)@.withdrawal_covered(client_id, amount),
    {
        match self.checked_withdraw_from_account(client_id, amount) {
            Some(WithdrawOutcome::Accepted) => true,
            _ => false,
        }
    }

    /// Looks up the logged deposit `ref_txn_id` of the client, with the
    /// client's account, where an event acting on status `status` applies to
    /// it; otherwise says why it does not.
    fn find_deposit(&self, ref_txn_id: u32, ref_client_id: u16, status: TransactionStatus) -> (r:
        Result<(Transaction, ClientAccount), EventOutcome>)
        requires
            self@.wf(),
        ensures
            match r {
                Ok((t, a)) => {
                    &&& self@.event_outcome(ref_txn_id, ref_client_id, status)
                        == EventOutcome::Applied
                    &&& self@.deposit_in_state(ref_txn_id, ref_client_id, status)
                    &&& t == self@.log[ref_txn_id]
                    &&& a == self@.accounts[ref_client_id]
                },
                Err(o) => {
                    &&& o == self@.event_outcome(ref_txn_id, ref_client_id, status)
                    &&& o != EventOutcome::Applied
                    &&& !self@.deposit_in_state(ref_txn_id, ref_client_id, status)
                },
            },
    {
        let t = match self.transaction_log.get(&ref_txn_id) {
            Some(t) => *t,
            None => return Err(EventOutcome::NoDeposit),
        };
        match t {
            Transaction::Deposit { client_id, status: current, .. } => {
                if client_id != ref_client_id {
                    return Err(EventOutcome::ClientMismatch(client_id));
                }
                if current != status {
                    return Err(EventOutcome::WrongStatus(current));
                }
                match self.accounts.get(&client_id) {
                    Some(a) => Ok((t, *a)),
                    None => Err(EventOutcome::NoAccount),
                }
            },
            Transaction::Withdrawal { .. } => Err(EventOutcome::NoDeposit),
        }
    }

    /// Disputes the logged deposit `ref_txn_id` of the client. Returns `None`,
    /// and changes nothing, where the arithmetic would overflow a decimal;
    /// otherwise `Some` of what became of the dispute.
        pub fn checked_dispute_transaction(&mut self, ref_txn_id: u32, ref_client_id: u16) -> (r: Option<
        EventOutcome,
    >)
        requires
            old(self)@.wf(),
        ensures
            final(self)@.wf(),
            r is None <==> !old(self)@.dispute_ok(ref_txn_id, ref_client_id),
            r matches Some(o) ==> o == old(self)@.event_outcome(
                ref_txn_id,
                ref_client_id,
                TransactionStatus::Clean,
            ) && final(self)@ == old(self)@.dispute(ref_txn_id, ref_client_id),
            r is None ==> final(self)@ == old(self)@,
            old(self)@.dispute_facts(ref_txn_id, ref_client_id),
    {
        let (t, account) = match self.find_deposit(
            ref_txn_id,
            ref_client_id,
            TransactionStatus::Clean,
        ) {
            Ok(found) => found,
            Err(why) => return Some(why),
        };
        let amount = t.amount();
        let available = match account.available_funds.checked_sub(&amount) {
            Some(x) => x,
            None => return None,
        };
        let held = match account.held_funds.checked_add(&amount) {
            Some(x) => x,
            None => return None,
        };
        let updated = ClientAccount { available_funds: available, held_funds: held, ..account };
        proof {
            self@.lemma_store_account(updated);
        }
        self.accounts.insert(ref_client_id, updated);
        let relogged = t.set_status(TransactionStatus::Disputed);
        proof {
            self@.lemma_store_transaction(relogged);
        }
        self.transaction_log.insert(ref_txn_id, relogged);
        Some(EventOutcome::Applied)
    }

    /// Holds the funds of a clean, logged deposit of the client: they move
    /// from available to held and the deposit becomes disputed. A reference
    /// to no such deposit, or to a client without an account, changes
    /// nothing.
    pub fn dispute_transaction(&mut self, ref_txn_id: u32, ref_client_id: u16)
        requires
            old(self)@.wf(),
            old(self)@.dispute_ok(ref_txn_id, ref_client_id),
        ensures
            final(self)@.wf(),
            final(self)@ == old(self)@.dispute(ref_txn_id, ref_client_id),
            old(self)@.dispute_facts(ref_txn_id, ref_client_id),
    {
        let _ = self.checked_dispute_transaction(ref_txn_id, ref_client_id);
    }

    /// Resolves the disputed deposit `ref_txn_id` of the client. Returns
    /// `None`, and changes nothing, where the arithmetic would overflow a
    /// decimal; otherwise `Some` of what became of the resolve.
        pub fn checked_resolve_transaction(&mut self, ref_txn_id: u32, ref_client_id: u16) -> (r: Option<
        EventOutcome,
    >)
        requires
            old(self)@.wf(),
        ensures
            final(self)@.wf(),
            r is None <==> !old(self)@.resolve_ok(ref_txn_id, ref_client_id),
            r matches Some(o) ==> o == old(self)@.event_outcome(
                ref_txn_id,
                ref_client_id,
                TransactionStatus::Disputed,
            ) && final(self)@ == old(self)@.resolve(ref_txn_id, ref_client_id),
            r is None ==> final(self)@ == old(self)@,
            old(self)@.resolve_facts(ref_txn_id, ref_client_id),
    {
        let (t, account) = match self.find_deposit(
            ref_txn_id,
            ref_client_id,
            TransactionStatus::Disputed,
        ) {
            Ok(found) => found,
            Err(why) => return Some(why),
        };
        let amount = t.amount();
        let held = match account.held_funds.checked_sub(&amount) {
            Some(x) => x,
            None => return None,
        };
        let available = match account.available_funds.checked_add(&amount) {
            Some(x) => x,
            None => return None,
        };
        let updated = ClientAccount { available_funds: available, held_funds: held, ..account };
        proof {
            self@.lemma_store_account(updated);
        }
        self.accounts.insert(ref_client_id, updated);
        let relogged = t.set_status(TransactionStatus::Resolved);
        proof {
            self@.lemma_store_transaction(relogged);
        }
        self.transaction_log.insert(ref_txn_id, relogged);
        Some(EventOutcome::Applied)
    }

    /// Releases the held funds of a disputed deposit of the client: they
    /// move back to available, and the deposit is no longer disputed.
    /// Anything else changes nothing.
    pub fn resolve_transaction(&mut self, ref_txn_id: u32, ref_client_id: u16)
        requires
            old(self)@.wf(),
            old(self)@.resolve_ok(ref_txn_id, ref_client_id),
        ensures
            final(self)@.wf(),
            final(self)@ == old(self)@.resolve(ref_txn_id, ref_client_id),
            old(self)@.resolve_facts(ref_txn_id, ref_client_id),
    {
        let _ = self.checked_resolve_transaction(ref_txn_id, ref_client_id);
    }

    /// Charges back the disputed deposit `ref_txn_id` of the client. Returns
    /// `None`, and changes nothing, where the arithmetic would overflow a
    /// decimal; otherwise `Some` of what became of the chargeback.
        pub fn checked_handle_chargeback(&mut self, ref_txn_id: u32, ref_client_id: u16) -> (r: Option<
        EventOutcome,
    >)
        requires
            old(self)@.wf(),
        ensures
            final(self)@.wf(),
            r is None <==> !old(self)@.chargeback_ok(ref_txn_id, ref_client_id),
            r matches Some(o) ==> o == old(self)@.event_outcome(
                ref_txn_id,
                ref_client_id,
                TransactionStatus::Disputed,
            ) && final(self)@ == old(self)@.chargeback(ref_txn_id, ref_client_id),
            r is None ==> final(self)@ == old(self)@,
            old(self)@.chargeback_facts(ref_txn_id, ref_client_id),
    {
        let (t, account) = match self.find_deposit(
            ref_txn_id,
            ref_client_id,
            TransactionStatus::Disputed,
        ) {
            Ok(found) => found,
            Err(why) => return Some(why),
        };
        let amount = t.amount();
        let held = match account.held_funds.checked_sub(&amount) {
            Some(x) => x,
            None => return None,
        };
        let total = match account.total_funds.checked_sub(&amount) {
            Some(x) => x,
            None => return None,
        };
        let mut updated = account;
        updated.freeze();
        let updated = ClientAccount { held_funds: held, total_funds: total, ..updated };
        proof {
            self@.lemma_store_account(updated);
        }
        self.accounts.insert(ref_client_id, updated);
        let relogged = t.set_status(TransactionStatus::ChargedBack);
        proof {
            self@.lemma_store_transaction(relogged);
        }
        self.transaction_log.insert(ref_txn_id, relogged);
        Some(EventOutcome::Applied)
    }

    /// Reverses a disputed deposit of the client: the funds that were held
    /// leave the held and total funds, and the account is frozen. Anything
    /// else changes nothing.
    pub fn handle_chargeback(&mut self, ref_txn_id: u32, ref_client_id: u16)
        requires
            old(self)@.wf(),
            old(self)@.chargeback_ok(ref_txn_id, ref_client_id),
        ensures
            final(self)@.wf(),
            final(self)@ == old(self)@.chargeback(ref_txn_id, ref_client_id),
            old(self)@.chargeback_facts(ref_txn_id, ref_client_id),
    {
        let _ = self.checked_handle_chargeback(ref_txn_id, ref_client_id);
    }
}

} // verus!
