# noir_pallets

Two modules of a chain, as a library that [Verus](https://github.com/verus-lang/verus) verifies.

- `bank` carries out a Cosmos `MsgSend`. Everything that touches the chain is a request that the
  send asks for; the library decides what to ask next, and with which outcome the send ends.
- `solana` admits Solana transactions: who a call comes from, whether a transaction is well put
  together and signed, and which block hashes the queue of recent hashes holds.

The `laws` modules state what holds of each as a whole. `app/` connects the library to a running
chain, which provides balances, gas, storage and events.
