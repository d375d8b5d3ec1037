# pretxsim

An air-gapped pre-execution simulation proxy for EVM transactions. It
intercepts `eth_sendTransaction`, runs the transaction in revm against state
read from an upstream node, records a structural analysis (DELEGATECALL,
SSTORE and SELFDESTRUCT opcodes, logs, ERC-20/721/1155 token transfers,
ERC-20 allowance changes, balance changes, EIP-7702 delegations), asks a
local language model for a brief, and lets the user decide whether to
proceed. An approved transaction is forwarded to the upstream node with
`eth_sendTransaction`, and the node's transaction hash is the reply; a
refused one is answered with an error and never leaves the proxy.

The library in `src/` holds the decisions, each with a contract proved by
Verus:

- `inspector` — the risk inspector and its report; `parse_delegation_designator`.
  Token transfers are read from `Transfer`, `TransferSingle` and
  `TransferBatch` logs. Allowances are tracked by what touches them: ERC-20
  `Approval` logs, and calls of `approve`, `increaseAllowance`,
  `decreaseAllowance`, `transferFrom` and `permit` (so an allowance spent by
  `transferFrom` is tracked even when the token emits no `Approval`). When the
  balances are captured, each touched allowance is compared by its value
  before and after the transaction, and reported when the two differ. `app/`
  reads both values with a read-only `allowance(owner, spender)` call: before
  over the upstream state at the simulated block, after over the simulated
  state with the transaction committed; an allowance it cannot read is not
  compared.
- `abi` — reading 32-byte ABI words and dynamic arrays out of log data.
- `request` — reading an `eth_sendTransaction` request, the reply after the
  user's answer, and the replies passed on from the upstream node.
- `upstream` — reading the upstream node's answers into account state and
  writing the parameters of state queries.
- `agent` — the prompt sent to the local model and what is shown of its answer.
- `parse`, `render` — the text forms of numbers, addresses and byte strings.
- `primitives`, `table` — plain fixed-width values and a map keyed by address.
  The inspector keeps its start balances and code hashes in `table::AddrTable`,
  a list of entries with a uniqueness invariant, rather than a `HashMap`:
  vstd specifies `HashMap` operations only for key types that obey its key
  model, which it states for integers, `bool` and boxes of them; for a
  20-byte address key it could only be assumed, and this crate assumes
  nothing, so such a map would have no usable contract.
- `properties` — properties that hold across calls of the inspector and
  between written and read text forms.

`app/` is the program around it: the JSON-RPC server, the revm inspector
bridge and database, HTTP calls and the console prompt.
