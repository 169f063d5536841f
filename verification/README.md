# payments_engine

A streaming payments engine: it reads deposits, withdrawals, disputes,
resolutions and chargebacks from a CSV file, applies them to client accounts,
and prints the final account states.

The library under `src/` is verified with Verus:

- `amount` — decimal amounts as the parts of a `rust_decimal::Decimal`
  (mantissa, scale, sign bit, so that `-0` is kept); addition, subtraction,
  comparison and rounding are calls into `rust_decimal` behind small trusted
  wrappers.
- `text` — whitespace trimming and string comparison.
- `transactions` — transactions, events, and how a row becomes one.
- `parser` — which kind of record a row is.
- `accounts` — client accounts and the account manager; every operation is
  specified as a transition of an abstract state (`ManagerView`), and the
  checked operations also say why a request was ignored, which the program
  logs.
- `engine` — dispatch of one record to the account manager.
- `cli` — the program's arguments.
- `laws` — properties proved across operations: a chargeback freezes the
  account for good, a logged deposit only moves forward through its life
  cycle, repeated events change nothing, events need the client's own
  deposit. The laws on balances — totals stay equal to available plus held
  funds, held funds equal the deposits under dispute, a resolved dispute
  restores the funds — are proved for steps whose decimal arithmetic needs no
  rounding; `rust_decimal` rounds only where a result needs more than 96 bits
  of mantissa, and there these laws can fail.

`app/main.rs` is the program around it: argument and file handling, CSV
reading and writing with `csv` and `serde`, and logging with `tracing`.
