# openshell_supervisor_network

Network policy enforcement of a sandbox supervisor, verified with Verus.

- `src/` is the library. `l7/` inspects JSON-RPC and MCP requests and carries
  HTTP responses back through middleware; `opa/` prepares sandbox policies for
  the policy evaluator, loads them and reads its decisions; `host_gateway.rs`
  selects the address of the host gateway. The other modules hold JSON values,
  texts, numerals and bytes with their models.
- `tests/` runs the library on concrete values.
- `app/` is what surrounds it: files, sockets, locks, waits and the traits
  through which the rest of the supervisor takes part.

Every public function states what it returns or changes. Properties that span
several functions are public proof functions, in the module that they are about
or in `inspection_laws.rs`, `wire_laws.rs`, `document_laws.rs`,
`normalize_laws.rs` and `binary_laws.rs`.

Calls into other crates stand in `bytes.rs`, `text.rs`, `l7/json_text.rs`,
`l7/mcp_inspection.rs`, `opa/evaluation.rs` and `opa/chain.rs`. What is relied on
there without proof is said above each of them.
