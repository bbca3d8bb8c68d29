# stellar_lend

The core of a Soroban lending protocol as a Verus-verified library, with the
contract glue around it.

- `src/` — the verified library:
  - `int128`: overflow-safe `i128`/`u128` arithmetic (add, sub, mul, div,
    binary exponentiation, Newton integer square roots, basis-point products),
    each specified over unbounded integers, with laws such as the additive
    exponent rule and uniqueness of the floor square root.
  - `reserve_factor`: the dynamic reserve-factor curve (kinked, clamped to
    governance bounds), proven bounded and non-decreasing in utilization.
  - `cross_asset`: asset configuration, supply/borrow caps and the position
    changes of deposits, borrows, withdrawals, repayments and liquidations.
  - `health`: the batched position summary (health factor, liquidation flag,
    borrow capacity) across assets, with price staleness checks.
  - `oracle`: price validation and the decisions of a client that falls back
    from a primary to a secondary oracle and then to a cache.
  - `swap_router`, `events`, `traits`: swap routing decisions, event naming,
    module registry.
- `app/` — Soroban storage, authorization, events and the loops that query
  outside services, calling the library for every decision.
- `tests/` — tests of the library.
