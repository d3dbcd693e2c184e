# freeos_swap

The FREEOS swap canister fetches swap records from the PROTON chain and mints
FREEOS on the Internet Computer's ICRC-1 ledger.

- `src/` is the verified library (Verus): the outcall request and its reply
  transform (`swap`), the rules that turn swap rows into mints (`swap`), the
  ledger requests and their reports (`ledger`), principals (`principal`, with
  text encoding done by `candid`), JSON documents (`json`, parsed by
  `serde_json`), PROTON account checks (`proton`) and the
  text helpers they use (`text`).
- `app/` is the canister itself: timers, HTTP outcalls, inter-canister calls,
  the Candid copies of the library's types, and the
  floating-point conversions between FREEOS decimals and whole units.
- `tests/` exercises the library on concrete values.
