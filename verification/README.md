# Axiom Sandbox

The verified core of an algorithmic trading sandbox: trade records and their log, position sizing,
in-trade management, order planning, stream supervision and rule evaluation. Every function under
`src/` states its behaviour in a contract. Verus proves each of them but those of the small wrappers
around calls into `std` and other crates, which are believed; the comment of a wrapper says what is
claimed of the call.

- `src/` — the library
  - `decimal`, `double`, `text`, `time`, `json`, `symbol_map` — numbers, texts, moments, documents
  - `types`, `risk`, `strategy` — candles and trades, sizing and limits, entry rules
  - `data` — trade log, trade manager, backfill and file replay
  - `exchange` — orders, managed positions, execution engines, requests and their answers
  - `websocket` — stream addresses, connections, circuit breaker, stream processing
  - `session`, `credentials`, `dto` — a running session, saved credentials, what is shown
- `tests/` — tests of the library
- `app/` — the program around it: sockets, HTTP, files, floating-point indicators

Decimal arithmetic is that of `rust_decimal`. A contract says what an operation gives wherever the
exact result fits; where the result is rounded, it is named and handed on by that name, and of a
product or a quotient it is stated how far rounding may take it. A function
whose figures may be too large to hold has a `checked_` companion that says so.
