# mcp-environment

Runtime environment registry for an MCP tool server: environments and their
worker pools, configuration sync (plan/apply), validation, worker pool
scaling, release promotion and rollback, deployment history and drift checks.

- `src/` is the verified library (Verus). `model.rs` holds the mathematical
  model of the registry and its invariant, `server.rs` the operations with
  their contracts, `laws.rs` the properties that span several operations,
  `text.rs` the text the registry produces, `outside.rs` the calls into the
  clock and the random identifier generator.
- `app/` is the MCP server around it: the async lock, parameter decoding and
  JSON encoding of results.
- `tests/` exercises the library on concrete values.
