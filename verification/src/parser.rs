//! Turning one row of input into a payment record.
//!
//! The row's fields are read into a `RawRow` before they get here; this
//! module decides, from the row's record type, whether it is a transaction
//! or an event, and builds it.

use vstd::prelude::*;

use crate::text::same_text;
use crate::transactions::{
    event_from_row,
    transaction_from_row,
    PaymentEvent,
    RawRow,
    RowError,
    Transaction,
};

verus! {

/// A record of the stream: a transaction, or an event on an earlier one.
#[derive(Debug)]
pub enum PaymentRecord {
    Transaction(Transaction),
    MutatingEvent(PaymentEvent),
}

/// Why a row makes no payment record.
#[derive(Debug)]
pub enum RecordError {
    /// The row has no first field.
    MissingRecordType,
    /// The row's fields could not be read; the reason is given.
    UnreadableRow(String),
    /// The fields were read but make no transaction or event.
    InvalidRow(RowError),
    /// The first field names no kind of record.
    UnknownRecordType(String),
}

/// The record type of a transaction.
pub open spec fn names_transaction(t: Seq<char>) -> bool {
    t == "deposit"@ || t == "withdrawal"@
}

/// The record type of an event.
pub open spec fn names_event(t: Seq<char>) -> bool {
    t == "dispute"@ || t == "resolve"@ || t == "chargeback"@
}

/// `r` is what `read_to_payment_record` makes of a row whose first field is
/// `record_type` and whose fields read as `row`.
pub open spec fn payment_record_from(
    record_type: Option<Seq<char>>,
    row: Result<RawRow, String>,
    r: Result<PaymentRecord, RecordError>,
) -> bool {
    match record_type {
        None => r matches Err(RecordError::MissingRecordType),
        Some(t) => if names_transaction(t) {
            match row {
                Err(why) => r matches Err(RecordError::UnreadableRow(e)) && e == why,
                Ok(raw) => match r {
                    Ok(PaymentRecord::Transaction(x)) => transaction_from_row(raw, Ok(x)),
                    Err(RecordError::InvalidRow(e)) => transaction_from_row(raw, Err(e)),
                    _ => false,
                },
            }
        } else if names_event(t) {
            match row {
                Err(why) => r matches Err(RecordError::UnreadableRow(e)) && e == why,
                Ok(raw) => match r {
                    Ok(PaymentRecord::MutatingEvent(x)) => event_from_row(raw, Ok(x)),
                    Err(RecordError::InvalidRow(e)) => event_from_row(raw, Err(e)),
                    _ => false,
                },
            }
        } else {
            r matches Err(RecordError::UnknownRecordType(text)) && text@ == t
        },
    }
}

/// Reads a row into a payment record. `record_type` is the row's first
/// field, if it has one; `row` is the row's fields as read, or why they could
/// not be read.
///
/// Errors where the row has no record type, where its record type names
/// neither a transaction (`deposit`, `withdrawal`) nor an event (`dispute`,
/// `resolve`, `chargeback`), where its fields could not be read, or where
/// they make no transaction or event of that family.
pub fn read_to_payment_record(record_type: Option<&str>, row: Result<RawRow, String>) -> (r: Result<
    PaymentRecord,
    RecordError,
>)
    ensures
        payment_record_from(
            match record_type {
                Some(t) => Some(t@),
                None => None,
            },
            row,
            r,
        ),
{
    let record_type = match record_type {
        Some(t) => t,
        None => return Err(RecordError::MissingRecordType),
    };
    if same_text(record_type, "deposit") || same_text(record_type, "withdrawal") {
        match row {
            Err(why) => Err(RecordError::UnreadableRow(why)),
            Ok(raw) => match Transaction::try_from_row(raw) {
                Ok(txn) => Ok(PaymentRecord::Transaction(txn)),
                Err(e) => Err(RecordError::InvalidRow(e)),
            },
        }
    } else if same_text(record_type, "dispute") || same_text(record_type, "resolve") || same_text(
        record_type,
        "chargeback",
    ) {
        match row {
            Err(why) => Err(RecordError::UnreadableRow(why)),
            Ok(raw) => match PaymentEvent::try_from_row(raw) {
                Ok(event) => Ok(PaymentRecord::MutatingEvent(event)),
                Err(e) => Err(RecordError::InvalidRow(e)),
            },
        }
    } else {
        Err(RecordError::UnknownRecordType(record_type.to_owned()))
    }
}

} // verus!
