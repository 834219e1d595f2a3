# gigshield-kernel

The decision logic of the GigShield Soroban contracts, verified with Verus.

- `src/escrow_vault.rs`: milestone escrow (initialize, add, complete, approve,
  dispute, resolve, deadline release). Each operation takes the contract's
  storage and a request and returns the next storage and the token transfers to
  carry out, or the reason the request is refused, which leaves storage as it
  was.
- `src/compliance_guard.rs`: guarded business accounts (register, freeze,
  unfreeze, clawback, key recovery, auth control), with storage held per
  business.
- `src/escrow_laws.rs`, `src/compliance_laws.rs`: properties that hold of every
  request, proved over the operations' specifications.
- `src/address.rs`: addresses as strkey text.
- `app/`: the Soroban contracts around the library: authorization, storage,
  ledger time and token calls.
