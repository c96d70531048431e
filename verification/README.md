# tx_extract

Verified core of a small Bitcoin Core regtest program: it mines to a Miner
wallet, sends 20 BTC to a Trader wallet through one chosen UTXO, and writes a
ten-line report of the resulting transaction.

- `src/` — the library, verified with Verus. Amounts are satoshis.
  - `client` — RPC URL of the node or a wallet; the decisions that make sure a
    wallet is loaded (list, then load, then create).
  - `transaction` — choice of the UTXO to spend, reading of the `send` reply
    (the txid text goes through `Txid::from_str`).
  - `extract` — the report's fields from the `gettransaction` reply.
  - `output` — the report's text, with amounts in BTC to eight decimals, and
    the laws that the printed numbers read back as the same values.
  - `config` — the amounts and block counts of the run.
- `app/` — the program: RPC calls, JSON (de)serialisation, conversion between
  floating-point BTC and satoshis, and the file write.
- `tests/` — tests of the library.
