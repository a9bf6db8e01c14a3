# orizon_contracts

Verified logic of four Soroban contracts that put an agent marketplace
on-chain, written in Verus.

- `src/` — the library, verified by Verus:
  - `ids`, `table`, `shared`, `codes`: identifiers, the keyed storage tables
    the contracts keep, the shared records and error codes;
  - `registry`: agent identities, skills and prices;
  - `reputation`: decayed, value-weighted, dispute-aware rating evidence;
  - `score_ledger`: the plain sum-and-count rating ledger;
  - `escrow`: authorize / charge / revoke of per-call payments;
  - `attestation`: write-once job receipts;
  - `*_laws`: properties proved across calls and over any sequence of
    calls (replay guards that never lapse, write-once attestations, spent
    never above the authorized maximum, revocation is final, payer weight is
    the sum of accepted weights, decay never lowers the mean and keeps an
    exact mean while the decayed weight exceeds the mean times the elapsed
    epochs, ...).
- `app/` — the Soroban contracts: each entry point loads what it needs from
  contract storage, calls the library's checks and state steps, writes back
  and publishes its event.
- `tests/` — tests against the library.
