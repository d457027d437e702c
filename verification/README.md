# gwyneth_revm

Verified core of a cross-chain (Gwyneth / Taiko) fork of an Ethereum virtual machine,
written in Verus.

The library holds the parts of the EVM that decide and compute, each with a contract
proved by Verus:

- `gas`: gas accounting of a call frame, with per-chain usage and the final refund cap.
- `state`, `bytecode`, `primitives`: accounts, their status flags and storage, code and its
  hash, addresses on chains, and 256-bit words.
- `precompile`: the cross-chain call options precompile and signer recovery.
- `xcall`: the call instructions with cross-chain call options applied.
- `state_diff`: the state diff of one chain read from the journal of a run.
- `changes`: restriction of changesets and reverts to one chain.
- `pre_execution`, `taiko_handler`, `journaled`: charging the caller, EIP-7702
  authorizations, warm addresses, and the Taiko fee rules.
- `evm`: the EVM instance and the decisions of the transaction loop.
- `create_inputs`, `db`, `env`, `journal`, `specification`, `taiko_specification`: the
  remaining inputs, environment and identifiers.

Hashing (Keccak-256, `CREATE`/`CREATE2` addresses), 256-bit arithmetic and secp256k1
recovery are done by `alloy-primitives` and `k256` behind small trusted wrappers whose
contracts state what those crates document.
