# payments_engine

A payments engine that reads client transactions (deposits, withdrawals,
disputes, resolutions, chargebacks) from a CSV file and prints the final
state of every client account. Amounts and balances are fixed-point numbers
with four decimal places, kept as integer units of one ten-thousandth.

The library in `src/` is verified with Verus:

- `types.rs`, `balance_order.rs`, `decimal.rs`: client identifiers, positive
  amounts, balances, their comparisons and their decimal text.
- `transaction.rs`: transaction types and life-cycle states, and the reading
  of a row's fields into a transaction.
- `account.rs`: an account, its abstract model, and the rules by which a
  transaction changes it (`transaction_outcome`).
- `processor.rs`: one account per client, fed one record at a time, with the
  skip-or-stop policy for failed records.
- `writer.rs`: the CSV text of the accounts.
- `laws.rs`: properties that span transactions and clients, such as the
  balance equation, the life cycle of a transaction, the account invariant
  (held is the sum of the disputed amounts, total is the deposits not charged
  back less the withdrawals, frozen exactly after a chargeback), and client
  isolation over whole inputs.

`app/` holds the command-line program: argument handling, reading the CSV
file (with `csv` and `serde`, and the rounding of written amounts to units),
printing, error messages and logging.
