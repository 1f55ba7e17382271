# nft_staking_core

Verified decision logic of a Solana staking program for Metaplex Core NFTs.

- `src/` (Verus): the rules of the five instructions. `instructions/` holds
  one module per instruction (`create_collection`, `init_config`, `mint_nft`,
  `stake`, `claim_rewards`) with the account checks in `holder`;
  `attributes` rewrites the assets' and collections' attribute lists;
  `text` renders and parses decimal numbers and trims padding; `accounts`
  decodes Metaplex Core account data through `mpl_core` and decides, from
  `mpl_core`'s own header and registry decoders, whether a plugin lookup stays
  inside the account data (each instruction has a `checked_` form that
  reports where the program aborts); `laws` proves
  properties that span instructions (a recorded stake time reads back, a claim
  pays whole days since the stake or the last claim, a staked asset cannot be
  staked again, stake counts go up by one, splitting rewards over two claims
  never earns more; and, given what the Metaplex Core writes leave in the
  accounts, the same laws on the instructions' outcomes).
- `app/`: the Anchor program that reads the accounts and the clock, calls the
  library, and performs the cross-program invocations it decides on.
- `tests/`: tests on concrete values, including account data built with
  `mpl_core`'s own types.
