# otelite

A store for the telemetry of coding agents, and what its commands show of it. The library under `src/`
is verified with Verus: every function states in its contract what it returns.

- Statements: `sql`, `filter`, `listing`, `analytics`, `series`, `calls`, `tools`, `sources` and `records`
  write the SQL that the store runs, with the values bound to it; `balance` shows that each placeholder
  has its value.
- Token accounting: `counter`, `tokens`, `tally`, `cache`, `roles`, `providers` and `identity` turn the
  rows that come back into usage by series, model, role and provider; `cache_laws` shows what the
  economics of the cache do not depend on.
- Timing: `latency`, `latency_series` and `capability`.
- Commands: `usage`, `histogram`, `diagnose`, `report`, `tables`, `dashboard` and `layout`.
- The store itself: `config`, `retention` and `pool`.
- Foundations: `group`, `order`, `sums`, `ratio`, `counts`, `parse`, `text` and `error`.

`app/` is ordinary Rust around the library: the database, the clock, the environment, the network and
the terminal. Rates and shares are exact fractions in the library; `app/` makes floating-point numbers of
them.

The library trusts what it states of `chrono` (the UTC form of an instant), `cron` (whether an expression
is refused), `dirs` (the home directory) and the standard library's quoting of a text. Each of these stands
in one function marked as trusted, in `report` and `config`.
