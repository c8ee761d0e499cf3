# payment_engine

A payment engine that applies deposits, withdrawals, disputes, resolves and
chargebacks to client accounts, verified with Verus.

- `src/` is the verified library.
  - `domain/`: accounts, transactions, recorded transactions, dispute states.
  - `traits/ledger.rs`: the ledger interface, with its abstract state
    (`LedgerState`) and the contract of every operation.
  - `ledger/in_memory.rs`: the ledger kept in hash maps.
  - `engine/`: the rules for each kind of transaction
    (`transaction_handlers.rs`, stated as `*_outcome` spec functions), the
    dispatcher (`payment_engine.rs`) and the properties that span operations
    (`laws.rs`).
  - `io/`: reading amounts and input rows (`csv_input.rs`), printing amounts
    and output rows (`csv_output.rs`), and the proof that parsing reads back
    what printing writes (`round_trip.rs`).
- `app/` is the command-line program: it reads CSV with the `csv` and
  `serde` crates, streams the transactions through the engine, and writes the
  report as CSV to stdout.

```bash
payment_engine transactions.csv > accounts.csv
```
