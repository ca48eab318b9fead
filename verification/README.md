# NovaMind

The rules of a NovaMind node, as a library verified with Verus, and the node itself around it.

- `src/` is the library. Every function states what it returns in `ensures`, and the
  properties that span functions are proof functions whose names begin with `law_`.
  - `text`, `amount`, `table`, `rows`: white space and digits, binary64 amounts by their bit
    patterns, notes on hosts, lists read from the store.
  - `digest`, `clock`, `wallet`: what is taken from the crates `md5`, `hex`, `chrono` and
    `ring`. The functions marked `external_body` there are trusted; their comments say what
    is claimed of the crates.
  - `address`, `throttle`, `chain`, `mining`, `tasks`, `transactions`, `staking`, `peers`:
    the rules.
  - `status`, `reply`, `answers`: what the node answers.
- `tests/` runs the library, with the real crates behind it.
- `app/` is the node: the HTTP routes, the SQLite store, and the arithmetic of rewards, which
  is done in floating point.
