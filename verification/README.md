# payments_engine

A toy payments engine: it reads a list of transactions (deposits, withdrawals, disputes,
resolutions and chargebacks), keeps each client's account (available, held and total funds,
locked or not) and prints the accounts as CSV.

- `src/` is the library, verified with Verus: amounts (`amount.rs`, decimal arithmetic done by
  `rust_decimal`), accounts (`client.rs`), the records (`bankrecords.rs`), the processing of one
  transaction (`processor.rs`) and the CSV report (`report.rs`, written by the `csv` crate).
  Contracts are stated over mathematical views; the laws (what every operation keeps, what a
  resolution undoes, what a refused transaction leaves alone) are proof functions.
- `app/` is the command-line program: it reads the CSV file, hands each line to the library,
  logs refused transactions and prints the report.
- `tests/` runs the library on concrete values.
