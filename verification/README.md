# pending_eth_transactions

A websocket client for Alchemy's `alchemy_filteredNewFullPendingTransactions`
subscriptions, with its logic verified in Verus.

- `src/` is the verified library: reading Ethereum addresses from text and
  writing them back (`block_util`), the JSON-RPC messages and the exact JSON
  text of each request (`alchemy_pending_transactions_messages`, `json`), the
  subscriptions in force (`subscription_registry`), the state of a connection
  and what each received message does to it
  (`alchemy_pending_transactions_websocket`), and the properties that hold
  across these operations (`laws`).
- `app/` holds what runs around it: the socket and its read/write task, the
  channels that carry answers back to waiting requests, serde on the message
  types, and error types with `std::error::Error`.
- `tests/` exercises the library on concrete messages.
