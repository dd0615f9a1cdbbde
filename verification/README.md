# hpc_constellation

Verified core of the HorrorPlace constellation contract tooling, written in
Verus.

- `src/routing.rs` – routing-spine and repo-manifest validation (route
  conflicts, implicit deny, sovereignty, constraints) and route resolution.
- `src/audit.rs` – consistency audit of the wiring plan against manifests and
  the routing spine, with fix suggestions.
- `src/director/` – the authoring director: spine and manifest models, phase
  gating and promotion, manifest policy checks, envelope checks, the
  validation pipeline, planning, apply, describe, skeleton dispatch.
- `src/file_lint.rs` – the AI-file lint rules (line splitting, banned tokens,
  skipped directories and extensions, envelope directories).
- `src/compression.rs`, `src/schema_compression.rs` – compact key notations
  with their round-trip laws.
- `src/text.rs`, `src/json.rs`, `src/hashing.rs` – text helpers and the
  specified calls into `serde_json`, `sha2` and `hex`; the schema layer in
  `src/director/validate/schema.rs` calls the `jsonschema` engine and the
  envelope checks call `chrono`.
- `app/` – the command-line tools, file and network I/O, JSON (de)serialization
  and the floating-point parts.
- `tests/` – tests of the library.
