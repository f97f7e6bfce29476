# xref

The verified core of a Solana referral program and of the router that forwards
requests to it.

- `src/` is the library, verified with Verus. `entry` decides which request the
  program serves, `router` decides what the router forwards, `instructions/` holds
  the request handlers (ad and rewards-account creation, rewards-account closing,
  disputes, and the recording of referral transactions with their ed25519
  signature-instruction check), `state/` the account and instruction data types with
  their byte layouts, `codec` the layout's building blocks, and `outside` the calls
  into the Solana and borsh crates and into std, whose contracts are trusted.
- `app/` is the on-chain glue: it turns the runtime's accounts into the library's
  account views, reads the clock and rent sysvars, performs the cross-program calls
  the library plans and writes the account data it computes. It holds both
  programs' entrypoints; the router's is built with `--cfg router_program`.
- `tests/` runs the library against the real Solana and borsh crates.
