# fb_ledger

The core of a financial back-office ledger, written in Verus: the functions
in `src/` carry contracts that the verifier proves.

- `src/` — the verified library: decimal money arithmetic (`decimal`), attribute
  bags, posting templates and the booking pipeline (`template`, `pipeline`), the
  bond contract, fee schedules, tax lots, positions and P&L, reconciliation,
  statements, performance, compliance screening, the chart of accounts, the event
  store's append rule, entry batching, configuration defaults, result rendering
  and sample data.
- `tests/` — tests of the library on concrete values.
- `app/` — the `fb` command around the library: argument parsing, PostgreSQL
  access, the async posting engine, and the floating-point performance and
  screening scores.

Every function in `src/` is verified except a few trusted wrappers, each a
single call into std or an outside crate whose contract is taken on trust:

- `src/decimal.rs` — `rust_decimal`'s checked addition, subtraction,
  multiplication and division, comparison, parsing and printing;
- `src/accounts.rs` — `uuid`'s hyphenated text of an identifier and its parser;
- `src/compliance.rs` — `str::to_lowercase`;
- `src/output.rs` — the `csv` writer;
- `src/faker.rs` — `rand`'s `gen_range` for random draws;
- `src/text.rs` — string equality and `String::push`.

The library's own logic is proved against what those wrappers state.
