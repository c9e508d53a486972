# fornax_types

The vocabulary of a local evidence engine, verified with Verus: what an agent
did and claimed, what was observed of it, what evidence a claim needs before it
counts, and the policy that says what follows.

- `src/` is the library. Everything in it is plain data and pure functions;
  every function is verified against its contract, and `law_*` proof functions
  state what holds across functions.
- `app/` holds the serialized forms of the library's types and what reads bytes,
  files or the environment.
- `tests/` runs the library on concrete values.

Outside functions (hashing, signatures, base64, timestamps, identifiers, JSON
strings) are called through wrappers whose contracts are trusted; each wrapper
says what it relies on.

| Module | About |
| --- | --- |
| `evidence`, `graph`, `sensor` | events, claims, evidence and how it bears on claims |
| `capabilities`, `adapter`, `extension` | what a runtime can observe and how it reports |
| `epistemic_contract` | what evidence a kind of claim needs |
| `experiment`, `causal`, `calibration` | interventions and the records about them |
| `audit`, `audit_checkpoint` | audit events and signed checkpoints of a ledger |
| `policy` | content, publication, targeting, resolution, signed bundles, cache, revocation |
| `order`, `code`, `text`, `json`, `time`, `ident`, `crypto`, `model` | foundations |
