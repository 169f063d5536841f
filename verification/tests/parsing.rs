use csv::StringRecord;
use rust_decimal::Decimal;

use payments_engine::amount::Amount;
use payments_engine::cli::{parse_cli_args, CliError};
use payments_engine::parser::{read_to_payment_record, PaymentRecord, RecordError};
use payments_engine::text::trim;
use payments_engine::transactions::{
    PaymentEvent, RawRow, RowError, Transaction, TransactionStatus,
};

fn amt(mantissa: i128, scale: u32) -> Amount {
    Amount::from_parts(mantissa, scale).expect("valid amount")
}

fn row(kind: &str, client: u16, tx: u32, amount: Option<Amount>) -> RawRow {
    RawRow { tx_kind: kind.to_string(), client, tx, amount }
}

/// Reads the fields of a record in the order type, client, tx, amount, as
/// the engine's input does.
fn read_fields(record: &StringRecord) -> RawRow {
    let (tx_kind, client, tx, amount): (String, u16, u32, Option<Decimal>) =
        record.deserialize(None).expect("fields read");
    RawRow {
        tx_kind,
        client,
        tx,
        amount: amount.map(|d| Amount::from_parts(d.mantissa(), d.scale()).unwrap()),
    }
}

#[test]
fn test_row_parses() {
    let wanted_transaction = Transaction::Deposit {
        amount: amt(10, 1),
        transaction_id: 1,
        client_id: 1,
        status: TransactionStatus::Clean,
    };

    let record = StringRecord::from(vec!["deposit", "1", "1", "1.0"]);
    let parsed_transaction = Transaction::try_from_row(read_fields(&record));

    assert!(parsed_transaction.is_ok());

    assert_eq!(
        wanted_transaction,
        parsed_transaction.expect("failed to get parsed_transaction")
    );
}

#[test]
fn kinds_are_trimmed() {
    let t = Transaction::try_from_row(row("  withdrawal\t", 2, 3, Some(amt(5, 0)))).unwrap();
    assert_eq!(
        t,
        Transaction::Withdrawal { client_id: 2, transaction_id: 3, amount: amt(5, 0), status: TransactionStatus::Clean }
    );
    let e = PaymentEvent::try_from_row(row(" chargeback ", 4, 8, None)).unwrap();
    assert_eq!(e, PaymentEvent::Chargeback { reference_txn_id: 8, client_id: 4 });
    assert_eq!(e.txn_id(), 8);
}

#[test]
fn transaction_needs_amount() {
    match Transaction::try_from_row(row("deposit", 1, 1, None)) {
        Err(RowError::MissingAmount) => {}
        other => panic!("unexpected {other:?}"),
    }
}

#[test]
fn unknown_kind_is_reported_trimmed() {
    match Transaction::try_from_row(row(" dispute ", 1, 1, Some(amt(1, 0)))) {
        Err(RowError::InvalidType(k)) => assert_eq!(k, "dispute"),
        other => panic!("unexpected {other:?}"),
    }
    match PaymentEvent::try_from_row(row("refund", 1, 1, None)) {
        Err(RowError::UnknownType(k)) => assert_eq!(k, "refund"),
        other => panic!("unexpected {other:?}"),
    }
}

#[test]
fn events_ignore_amount() {
    let e = PaymentEvent::try_from_row(row("dispute", 5, 6, Some(amt(1, 0)))).unwrap();
    assert_eq!(e, PaymentEvent::Dispute { reference_txn_id: 6, client_id: 5 });
    let e = PaymentEvent::try_from_row(row("resolve", 5, 7, None)).unwrap();
    assert_eq!(e, PaymentEvent::Resolve { reference_txn_id: 7, client_id: 5 });
}

#[test]
fn records_are_routed_by_type() {
    match read_to_payment_record(Some("deposit"), Ok(row("deposit", 1, 2, Some(amt(3, 0))))) {
        Ok(PaymentRecord::Transaction(t)) => assert_eq!(t.id(), 2),
        other => panic!("unexpected {other:?}"),
    }
    match read_to_payment_record(Some("dispute"), Ok(row("dispute", 1, 2, None))) {
        Ok(PaymentRecord::MutatingEvent(e)) => assert_eq!(e.txn_id(), 2),
        other => panic!("unexpected {other:?}"),
    }
    match read_to_payment_record(None, Ok(row("deposit", 1, 2, None))) {
        Err(RecordError::MissingRecordType) => {}
        other => panic!("unexpected {other:?}"),
    }
    match read_to_payment_record(Some("transfer"), Ok(row("transfer", 1, 2, None))) {
        Err(RecordError::UnknownRecordType(t)) => assert_eq!(t, "transfer"),
        other => panic!("unexpected {other:?}"),
    }
    match read_to_payment_record(Some("withdrawal"), Err("bad client".to_string())) {
        Err(RecordError::UnreadableRow(why)) => assert_eq!(why, "bad client"),
        other => panic!("unexpected {other:?}"),
    }
    match read_to_payment_record(Some("withdrawal"), Ok(row("withdrawal", 1, 2, None))) {
        Err(RecordError::InvalidRow(RowError::MissingAmount)) => {}
        other => panic!("unexpected {other:?}"),
    }
    match read_to_payment_record(Some("resolve"), Ok(row("deposit", 1, 2, None))) {
        Err(RecordError::InvalidRow(RowError::UnknownType(k))) => assert_eq!(k, "deposit"),
        other => panic!("unexpected {other:?}"),
    }
}

#[test]
fn trim_removes_unicode_whitespace() {
    assert_eq!(trim("\u{3000} a b\u{a0}\n"), "a b");
    assert_eq!(trim("   "), "");
    assert_eq!(trim("x"), "x");
}

#[test]
fn cli_takes_first_argument() {
    let args = vec!["engine".to_string(), "transactions.csv".to_string(), "extra".to_string()];
    assert_eq!(parse_cli_args(&args).unwrap().input_file_path, "transactions.csv");
    let args = vec!["engine".to_string()];
    assert!(matches!(parse_cli_args(&args), Err(CliError::NoInputFile)));
}
