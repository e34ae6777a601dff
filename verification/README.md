# supersol_token

The shared-liquidity layer of the SuperSol token program, written in Verus:
the functions in `src/` carry contracts that Verus proves, with two
exceptions. Two small wrappers around outside code are trusted, not proved:
`sort_ranges_by_fees` in `src/sort.rs`, which calls std's stable
`sort_by_key`, and `clock_unix_timestamp` in `src/sysvar.rs`, which reads
Solana's clock sysvar. Their contracts say what that code is documented to do.

## Layout

- `src/compatibility.rs`: which mints and token accounts may take part in
  shared liquidity.
- `src/shared_liquidity.rs`: token exchange by supply ratio, IBC transfers,
  wrapped tokens, and a simple constant-product pool between two token
  accounts.
- `src/pool.rs`, `src/swap.rs`, `src/routing.rs`: the shared pool with
  liquidity positions, constant-product swaps, and multi-hop routing.
- `src/concentrated.rs`, `src/sort.rs`: concentrated-liquidity positions with
  price ranges.
- `src/flash_loan.rs`, `src/mining.rs`, `src/oracle.rs`, `src/emergency.rs`:
  flash loans, liquidity mining, the price oracle and the emergency pause.
- `src/operations.rs`: the entry points that read the runtime's clock.
- `src/clock.rs`, `src/sysvar.rs`: the clock, read through `solana_sysvar`.
- `app/`: the conversions to Solana's `Pubkey` and `ProgramError`, the error
  enums with their messages, the flash loan that runs a caller's callback, and
  the floating-point formulas (rewards, TWAP, volatility, price impact).

Functions that depend on the time take the clock's reading as an argument
(`now`), so that their contracts state what happens for every reading; the
entry points in `src/operations.rs` read the clock and pass it on.

The proof functions named `law_*` state properties that hold across calls:
for instance that unwrapping undoes a wrap, that swaps never lower the
product of the reserves, that the best route beats every other route found,
and that staking keeps `total_staked` equal to the sum of the stakes.
