# position_and_risk_engine

A portfolio position & risk service whose core is verified with Verus.

- `src/` — the verified library: asset classes and their labels, ASCII
  case-insensitive ticker matching, the in-memory position book (lookup,
  read-back, mark-to-market price updates) with its proved laws, and the
  status/message outcomes of the HTTP handlers.
- `app/` — the Axum service around it: async handlers, the shared
  `RwLock`-guarded repository, the demonstration portfolio, and the
  floating-point PnL / exposure metrics.
- `tests/` — tests of the library on concrete values.
