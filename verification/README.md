# anchorbell_engine

The AnchorBell trading engine for Binance TradFi perpetuals, with its
decision logic verified in Verus.

- `src/` is the verified library: order and evidence state machines, the
  execution supervisor's risk gates, calibration and its replay, ledgers,
  the Binance wire rules (signing, REST calls, order-socket requests and
  replies, user-data frames, subscriptions), the instrument registry, the
  market capability gate, decimal tick parsing and rendering, and the
  decisions of the maker runner, the live runner and its loop (order
  planning, gate actions, health ticks, recovery, completion), the market
  stream's read and reconnect steps, and the control dashboard.
  Every public function states its result in its `ensures`; the properties
  that span functions are stated and proved as `law_*` proof functions.
- `tests/` runs the library on concrete values.
- `app/` is the ordinary Rust around it: the `main` binary, JSON encodings
  (serde), files, the HTTP client (reqwest), the websockets
  (tokio-tungstenite) and the async plumbing (tokio).

Hashing and MAC computation go through `sha2`, `hmac` and `hex`, and JSON
string quoting through `serde_json`, behind small trusted wrappers whose
contracts name what those crates compute; the JSON string escaping is
stated in full.
