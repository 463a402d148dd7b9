# amm

A constant-product automated market maker for one token pair, written in
Verus. `src/` holds the pool's arithmetic and state transitions with their
contracts; `app/` is the on-chain program (Anchor) that validates accounts,
moves tokens, and calls the library.

- `src/math.rs`: floor integer square root (Newton's method).
- `src/state.rs`: the pool and position records and the pool invariant.
- `src/instructions/`: initialize, add liquidity, remove liquidity, swap.
  Each instruction is split into a *quote* (every check made before a token
  moves), a *settle* (the bookkeeping made after the transfers), and a
  *handle* that composes the two.
- `src/laws.rs`: properties that relate several instructions.
