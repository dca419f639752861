# faultkit

Fault injection for testing error paths: fail the Nth mmap, read, write,
allocation or channel send — once, from some call on, at chosen calls, or at
random — deterministically and per thread by default.

Layout:

- `src/` — the verified library. `types` (operations, faults, errors),
  `rng` (the xorshift generator behind probabilistic faults), `op_state` (one
  operation's faults and call count), `fault_state` (all operations of one
  scope), `registry` (the API over a thread's view: its own faults, the
  process-wide faults and flag, the generator's seed), `guard` (scoped
  injection), `laws` (properties spanning several calls).
- `app/` — the calling convention with implicit state: a thread-local for
  thread-scoped faults, a spinlock for process-wide ones, atomics for the flag
  and the seed, `f64` probabilities, and guards that restore on drop.
- `tests/` — the library's tests.
