# lucky

The LUCKY lottery and ICP burn protocol on the Internet Computer, as a verified Rust
library (`src/`, checked by Verus) and the canisters around it (`app/`).

- `src/` holds the canisters' logic with its contracts, including the requests sent to other
  canisters and the steps of the multi-call flows (claims, draws, top-ups): the token ledger
  and staking (`token`, `staking`), reward emission (`emission`), tickets, streaks and draws
  (`tickets`, `lottery`), payment splits and cycles top-ups (`topups`, `treasury`), IGNIS's
  state, fallback speech and prompts (`ignis`, `voice`), the local ICP ledger (`ledger`),
  hashing and account identifiers (`digest`), text helpers (`text`), and the readers of
  earlier stable-memory formats (`*_upgrade`).
- `app/` is the canister glue: candid types, stable storage, timers, the awaits of
  inter-canister calls (and the loops that alternate them with the library's steps), and the
  floating-point text of a draw multiplier. Each module there is the interface of one canister.
- `tests/` runs the library on concrete values.
