# aster_core

The verified core of the Aster hotel-supplies desktop application, written
in Verus.

- `src/` is the library.  Every function in it is verified against its
  contract; the calls into `base64`, `hmac`/`sha2`, `uuid`, `rand`,
  `serde_json` and `std` that it makes go through small trusted wrappers,
  each with a doc comment that says what its contract claims.
  - `pagination`, `remote_pagination`, `report_pagination`, `keyset_pages`,
    `stock_queries`: cursor signing and checking, page cutting, collecting
    every page of a listing, report sections, listing parameters.
  - `security_rate_limiter`, `sessions`, `pairing`: attempt windows, session
    lifetimes, the pairing exchange state (the OPAQUE cryptography runs in
    the shell).
  - `secrets`, `credentials`, `credential_store`: the secret cache, legacy
    setting migration, remembered logins.
  - `master_data`, `master_records`, `master_listings`, `stock_rules`,
    `report_filters`, `backup_records`, `write_limits`: the business rules
    of master data, stock documents, reports and backups.
  - `stock_documents`: the flows of stock documents (drafts, confirmation,
    adjustments, voids, stocktakes), written against the database steps
    they take, which the shell supplies; `approvals`, `authentication`,
    `audit_logs`: approval requests, sign-in, the audit listing.
  - `proxy`: proxy candidates from the environment, the platform report
    (`scutil` / `netsh` output) and the common local ports.
- `app/` is the desktop shell around it: SQLite (the statements, the schema
  migrations, the report queries, and the floating-point stock arithmetic:
  FIFO batch allocation, balances, budgets), the file system, the
  environment, platform commands, OPAQUE, and the serde forms of the
  messages.
- `tests/` runs the library on concrete values.
