# broker_feeds

Verified logic of two trading adapters: an execution adapter for the Alpaca broker, and a data
adapter for the MarketStore time-series store.

- `src/` is the library. Every function in it has a contract, which Verus proves of all but the
  wrappers named below.
  - `alpaca/` decides what happens to an order (risk limits, wash trades, market sessions, the
    broker's order rules), builds the requests, and reads the broker's answers and trade updates.
  - `marketstore/` maps bar types to the store's keys, builds queries, decodes columns and stream
    rows, keeps subscriptions, and runs the session and reconnection rules.
  - `decimal.rs`, `fixed.rs`, `text.rs` and `model.rs` hold the numbers, texts and enums that both
    speak of.
- `app/` connects the library to sockets, HTTP, gRPC, the clock and the trading engine.
- `tests/` runs the library with the outside crates linked.

A function that works on numbers which may not fit comes twice: `try_...` says so with `None`, and
the function without that prefix asks for numbers that fit.

What the library has from outside crates (decimal arithmetic, calendar and time zone, fixed-point
prices, JSON strings) stands behind small wrappers whose doc comments say what is taken on trust.
