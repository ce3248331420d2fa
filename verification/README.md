# homebase

A self-hosted personal finance dashboard: accounts and their balances, bank CSV
imports, and zero-based paycheck budgeting.

- `src/` is the library, verified with Verus: money parsing and formatting in
  pennies, budget totals and the waterfall chart's bars, account and budget
  form checks, bank CSV rows turned into transactions, and login decisions.
  Calls into `rust_decimal`, `regex` and `password-auth` go through small
  trusted wrappers whose contracts are documented beside them.
- `tests/` runs the library on concrete values.
- `app/` is the web server around it (axum, sqlx, maud): routes, queries,
  templates, sessions and the chart's floating-point geometry.
