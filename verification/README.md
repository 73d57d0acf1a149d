# rm_engine

Sizes a trade from the account balance, the quality of the setup and how fast
price recently travelled the stop-loss distance.

- `src/` — the verified library:
  - `search.rs`: the state machine that decides which candles to request,
    records each move of the stop-loss distance and says when to stop;
  - `average.rs`: the weighted average of the recorded moves;
  - `exchange.rs`: account keys and the passphrase requirement;
  - `quality.rs`: trade-quality tiers;
  - `input.rs`: digit-grouping underscores in typed numbers;
  - `timestamp.rs`: the instants jiff supports.
- `app/` — the command-line program: configuration, exchange clients,
  requests, and the floating-point price and size arithmetic.
- `tests/` — tests of the library.
