# astro_orbit

Verified model of the Astro Orbit Soroban contracts: an organization
registry, project registration, deployment records, per-organization role
permissions, and an admin-maintained index of all three.

- `src/` is the library, checked by Verus. Each contract (`organization`,
  `project`, `deployment`, `permissions`, `registry`) holds its instance
  storage as plain values (`table::Table`), states every entry point against
  a specification over a view of that storage (`OrgState`, `ProjState`, ...),
  and proves the contract's laws as `lemma_*` proof functions. `env::Env`
  models one invocation: ledger time, the authorizations it carries, the
  authorizations the contract required, and the events it published.
- `tests/` runs the library on concrete values.
- `app/` holds the Soroban contracts themselves: each entry point loads the
  ledger entries it reads into the model, lets the model decide, requires on
  the ledger the authorizations the model asked for, publishes its events
  and writes the changed entries back.
