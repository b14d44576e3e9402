# icn_runtime

The verified core of the ICN runtime and its command-line tools, written in
Verus. Every function in `src/` carries a contract that Verus proves; calls into
outside crates (CIDs, hashing, signatures, base encodings, JSON reading) go
through small trusted wrappers whose contracts name what the crates compute.

- `src/policy.rs`, `src/dag.rs`, `src/engine.rs`: scope policies and
  memberships, the policy check every DAG node passes, policy update
  approvals, and the runtime's host-side decisions.
- `src/car.rs`: unsigned varints, the CAR archive a federation is exported to,
  and the reading and checking of an imported archive.
- `src/bundle.rs`, `src/keys.rs`, `src/federation.rs`: trust-bundle
  verification, participant keys, the plan of a federation's founding, and
  the nodes that admit a scope into a federation.
- `src/governance.rs`, `src/scope.rs`, `src/observability.rs`: proposals and
  votes, cooperative and community scopes (the node each scope command
  writes: its payload, label, scope and parents), and what a DAG tells about a
  scope.
- `src/mesh.rs`: job manifests and their signing, node selection, bids and
  their signed acceptance.
- `src/json.rs`, `src/text.rs`: the JSON model and text helpers the rest uses.
- `app/`: the command-line program; file I/O, clocks and randomness, argument
  parsing and printing around the library.
- `tests/`: tests of the library on concrete values.
