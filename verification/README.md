# tektii_gateway_core

The core of a trading gateway: one API in front of many brokers, with stop-loss and take-profit
orders that the gateway places itself as primary orders fill. The library is written in Verus:
what each function does is stated in its contract and proved.

## Layout

- `src/` is the verified library.
  - `models/`: orders, positions, quotes, bars, trades, platforms, and the rules on order requests.
  - `error.rs`, `reject_codes.rs`: errors, their HTTP form, and the redaction of credentials.
  - `state.rs`: the cache of orders and positions, with one-cancels-other groups.
  - `exit_management/`: exit orders from registration over fills, siblings, moves and
    cancellation to expiry.
  - `events/`: what follows from an event of a provider, and in which order.
  - `circuit_breaker.rs`, `failure_window.rs`: when failures stop further calls.
  - `http/`: which failures are retried, and after which delay.
  - `adapter/`, `api/`, `config.rs`, `correlation.rs`, `shutdown.rs`: the decisions behind the
    adapters, the REST handlers, the configuration and the shutdown.
  - `decimal.rs`, `time.rs`, `text.rs`, `json.rs`, `random.rs`, `table.rs`, `id_set.rs`,
    `lists.rs`: the values that the rest works on.
- `app/` is ordinary Rust around it: HTTP handlers, provider calls, timers, files, the environment.
- `tests/` runs the library.

## What is trusted

The library calls `rust_decimal`, `regex`, `chrono`, `uuid`, `subtle`, `dashmap` and `smallvec`, and
a few functions of `std`, through items whose contracts are not proved. Each stands beside a doc
comment that names the outside function and says what is claimed of it.

## Laws

Public proof functions whose names begin with `law_` state what holds across calls: that the open
breaker places nothing, that a fill is processed once, that a moved exit leg keeps its cover, that
an event is broadcast after its exit orders were handled, that a link is read back as it was
written, and more.
