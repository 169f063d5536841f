//! The records that arrive on the stream: transactions (deposits and
//! withdrawals) and the events that act on an earlier deposit (dispute,
//! resolve, chargeback).

use vstd::prelude::*;

use crate::amount::Amount;
use crate::text::{same_text, trim, trimmed};

verus! {

/// Where a logged deposit stands in its dispute life cycle.
#[derive(Clone, Copy, Debug, PartialEq, Eq, Structural)]
pub enum TransactionStatus {
    Clean,
    Disputed,
    Resolved,
    ChargedBack,
}

/// A transaction that moves funds into or out of a client's account.
#[derive(Clone, Copy, Debug, PartialEq)]
pub enum Transaction {
    Deposit { client_id: u16, transaction_id: u32, amount: Amount, status: TransactionStatus },
    Withdrawal { client_id: u16, transaction_id: u32, amount: Amount, status: TransactionStatus },
}

impl Transaction {
    /// The client the transaction belongs to.
    #[verifier::allow_in_spec]
    pub fn client_id(&self) -> u16
        returns
            (match *self {
                Transaction::Deposit { client_id, .. } => client_id,
                Transaction::Withdrawal { client_id, .. } => client_id,
            }),
    {
        match self {
            Transaction::Deposit { client_id, .. } => *client_id,
            Transaction::Withdrawal { client_id, .. } => *client_id,
        }
    }

    /// The transaction's id.
    #[verifier::allow_in_spec]
    pub fn id(&self) -> u32
        returns
            (match *self {
                Transaction::Deposit { transaction_id, .. } => transaction_id,
                Transaction::Withdrawal { transaction_id, .. } => transaction_id,
            }),
    {
        match self {
            Transaction::Deposit { transaction_id, .. } => *transaction_id,
            Transaction::Withdrawal { transaction_id, .. } => *transaction_id,
        }
    }

    /// The amount the transaction moves.
    #[verifier::allow_in_spec]
    pub fn amount(&self) -> Amount
        returns
            (match *self {
                Transaction::Deposit { amount, .. } => amount,
                Transaction::Withdrawal { amount, .. } => amount,
            }),
    {
        match self {
            Transaction::Deposit { amount, .. } => *amount,
            Transaction::Withdrawal { amount, .. } => *amount,
        }
    }

    /// The transaction's dispute status.
    #[verifier::allow_in_spec]
    pub fn status(&self) -> TransactionStatus
        returns
            (match *self {
                Transaction::Deposit { status, .. } => status,
                Transaction::Withdrawal { status, .. } => status,
            }),
    {
        match self {
            Transaction::Deposit { status, .. } => *status,
            Transaction::Withdrawal { status, .. } => *status,
        }
    }

    /// The same transaction with another status.
    pub open spec fn with_status(self, status: TransactionStatus) -> Transaction {
        match self {
            Transaction::Deposit { client_id, transaction_id, amount, .. } => Transaction::Deposit {
                client_id,
                transaction_id,
                amount,
                status,
            },
            Transaction::Withdrawal { client_id, transaction_id, amount, .. } => {
                Transaction::Withdrawal { client_id, transaction_id, amount, status }
            },
        }
    }

    /// The same transaction with another status.
    pub fn set_status(&self, status: TransactionStatus) -> (r: Transaction)
        ensures
            r == self.with_status(status),
    {
        match *self {
            Transaction::Deposit { client_id, transaction_id, amount, .. } => Transaction::Deposit {
                client_id,
                transaction_id,
                amount,
                status,
            },
            Transaction::Withdrawal { client_id, transaction_id, amount, .. } => {
                Transaction::Withdrawal { client_id, transaction_id, amount, status }
            },
        }
    }

    /// Reads a row into a transaction. The amount is required; the kind,
    /// without surrounding whitespace, must be `deposit` or `withdrawal`. A
    /// new transaction is `Clean`.
    pub fn try_from_row(value: RawRow) -> (r: Result<Transaction, RowError>)
        ensures
            transaction_from_row(value, r),
    {
        let amount = match value.amount {
            Some(a) => a,
            None => return Err(RowError::MissingAmount),
        };
        let kind = trim(value.tx_kind.as_str());
        if same_text(kind, "deposit") {
            Ok(
                Transaction::Deposit {
                    amount,
                    client_id: value.client,
                    transaction_id: value.tx,
                    status: TransactionStatus::Clean,
                },
            )
        } else if same_text(kind, "withdrawal") {
            Ok(
                Transaction::Withdrawal {
                    amount,
                    client_id: value.client,
                    transaction_id: value.tx,
                    status: TransactionStatus::Clean,
                },
            )
        } else {
            Err(RowError::InvalidType(kind.to_owned()))
        }
    }
}

/// One row of input as read from the stream: the kind of record, the client,
/// the transaction id and, where the row has one, the amount.
pub struct RawRow {
    pub tx_kind: String,
    pub client: u16,
    pub tx: u32,
    pub amount: Option<Amount>,
}

/// Why a row does not make a transaction or an event.
#[derive(Debug)]
pub enum RowError {
    /// A deposit or withdrawal row without an amount.
    MissingAmount,
    /// The row's kind (without surrounding whitespace) names no transaction.
    InvalidType(String),
    /// The row's kind (without surrounding whitespace) names no event.
    UnknownType(String),
}

/// `r` is what `Transaction::try_from_row` makes of the row `value`.
pub open spec fn transaction_from_row(value: RawRow, r: Result<Transaction, RowError>) -> bool {
    match value.amount {
        None => r == Err::<Transaction, RowError>(RowError::MissingAmount),
        Some(amount) => {
            let kind = trimmed(value.tx_kind@);
            if kind == "deposit"@ {
                r == Ok::<Transaction, RowError>(
                    Transaction::Deposit {
                        client_id: value.client,
                        transaction_id: value.tx,
                        amount,
                        status: TransactionStatus::Clean,
                    },
                )
            } else if kind == "withdrawal"@ {
                r == Ok::<Transaction, RowError>(
                    Transaction::Withdrawal {
                        client_id: value.client,
                        transaction_id: value.tx,
                        amount,
                        status: TransactionStatus::Clean,
                    },
                )
            } else {
                r matches Err(RowError::InvalidType(text)) && text@ == kind
            }
        },
    }
}

/// The different mutating events we can have within our payments engine.
#[derive(Clone, Copy, Debug, PartialEq, Eq, Structural)]
pub enum PaymentEvent {
    Dispute { reference_txn_id: u32, client_id: u16 },
    Resolve { reference_txn_id: u32, client_id: u16 },
    Chargeback { reference_txn_id: u32, client_id: u16 },
}

impl PaymentEvent {
    /// The id of the transaction the event refers to.
    pub fn txn_id(&self) -> (r: u32)
        ensures
            r == self.referenced_id(),
    {
        match self {
            Self::Dispute { reference_txn_id, .. }
            | Self::Resolve { reference_txn_id, .. }
            | Self::Chargeback { reference_txn_id, .. } => *reference_txn_id,
        }
    }

    /// The id of the transaction the event refers to.
    pub open spec fn referenced_id(self) -> u32 {
        match self {
            PaymentEvent::Dispute { reference_txn_id, .. } => reference_txn_id,
            PaymentEvent::Resolve { reference_txn_id, .. } => reference_txn_id,
            PaymentEvent::Chargeback { reference_txn_id, .. } => reference_txn_id,
        }
    }

    /// Reads a row into an event. The kind, without surrounding whitespace,
    /// must be `dispute`, `resolve` or `chargeback`; an amount is ignored.
    pub fn try_from_row(value: RawRow) -> (r: Result<PaymentEvent, RowError>)
        ensures
            event_from_row(value, r),
    {
        let kind = trim(value.tx_kind.as_str());
        if same_text(kind, "dispute") {
            Ok(PaymentEvent::Dispute { client_id: value.client, reference_txn_id: value.tx })
        } else if same_text(kind, "resolve") {
            Ok(PaymentEvent::Resolve { client_id: value.client, reference_txn_id: value.tx })
        } else if same_text(kind, "chargeback") {
            Ok(PaymentEvent::Chargeback { client_id: value.client, reference_txn_id: value.tx })
        } else {
            Err(RowError::UnknownType(kind.to_owned()))
        }
    }
}

/// `r` is what `PaymentEvent::try_from_row` makes of the row `value`.
pub open spec fn event_from_row(value: RawRow, r: Result<PaymentEvent, RowError>) -> bool {
    let kind = trimmed(value.tx_kind@);
    if kind == "dispute"@ {
        r == Ok::<PaymentEvent, RowError>(
            PaymentEvent::Dispute { client_id: value.client, reference_txn_id: value.tx },
        )
    } else if kind == "resolve"@ {
        r == Ok::<PaymentEvent, RowError>(
            PaymentEvent::Resolve { client_id: value.client, reference_txn_id: value.tx },
        )
    } else if kind == "chargeback"@ {
        r == Ok::<PaymentEvent, RowError>(
            PaymentEvent::Chargeback { client_id: value.client, reference_txn_id: value.tx },
        )
    } else {
        r matches Err(RowError::UnknownType(text)) && text@ == kind
    }
}

} // verus!
