# cygnus_programme

The programme ledger of the Cygnus aid disbursement protocol, verified with
Verus. A sponsor funds a programme, an implementer claims milestones, an
approver releases each milestone's budget, and the implementer disburses in
batches that publish only a Merkle root, a total and a count.

- `src/` — the verified library.
  - `types.rs`, `events.rs`, `error.rs`: the programme record, its events and
    errors; `ProgrammeView` and `wf` state the record's invariant.
  - `contract.rs`: every contract call as a transition (`step`), the checks made
    before a signature is asked for (`signer`), the inputs on which a call traps
    (`traps`), and the executable calls proved against them.
  - `laws.rs`: what every call keeps (balances `disbursed <= released <= funded`,
    released = sum of approved budgets, closed is final, approved is terminal,
    late claims are flagged and never blocked, `disbursed` is the total of the
    recorded batches, over single calls and over whole runs of calls, ...).
  - `merkle.rs`, `merkle_laws.rs`: leaf and node encodings, root construction,
    proof folding, and the proof that every leaf verifies against its root.
  - `host.rs`: the Soroban items the library relies on (environment, address,
    the host's SHA-256).
- `tests/` — the protocol's scenarios and the laws on concrete values.
- `app/` — the Soroban contract: storage, signatures, token transfers and events
  around the library.
