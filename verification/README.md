# casp_backend

Back office of a demonstration crypto-asset service provider (CASP) for the
rUSD e-money token: clients buy, sell, transfer, redeem and withdraw rUSD
held in the CASP's custody, and the CASP keeps its hot and cold wallets
reconciled with everything it owes.

- `src/` is the library, verified with Verus. The register of client
  entitlements (`ledger`, with its books of withdrawals, fee sweeps,
  deposits, service records, and the projections for reports and
  statements), the registers of the bootstrap purchase, inventory
  replenishments, reconciliation snapshots, blacklisted addresses and
  blocked accounts, and the rules around them: amounts and fees, the
  20/80 inventory split, custody reconciliation, daily reporting, client
  statements (with an optional demonstration history, `demo_history`),
  request checks, and the next step of every procedure that
  waits on the chain, the issuer or the bank. `ledger_laws` states what the
  register's operations keep: conservation of what the CASP owes, retries
  that change nothing, exact fees. `journal_laws` states that each operation
  changes a client's balance in the journal exactly as it changes the
  client's position.
- `app/` is the service around it: configuration from the environment, the
  token contract and deposit router on chain, the issuer's and bank's HTTP
  interfaces, the procedures that call them, and the HTTP API. The registers
  live in memory; every call that changes them is written to an append-only
  journal beside the configured database path and replayed through the same
  library calls at start. Those calls take every input they depend on, the
  time included, so the registers come back exactly as they were, and a
  finished bootstrap is not run again.
- `tests/` exercise the library on concrete values.
