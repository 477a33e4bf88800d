# mcpkit-rs

Policy enforcement, configuration, tool bundles and WASM tool execution for MCP servers,
written in Verus: the logic in `src/` carries `requires`/`ensures` contracts that Verus
proves.

## Layout

- `src/policy/` — permission policies: the policy document model (`permissions`, `yaml`),
  compiling a policy into fast lookups (`compiled`, `path_trie`, `tool_lists`, `glob`,
  `globs`, `limits`), the MCP extension (`mcp`), the runtime enforcer (`runtime`), the
  permission cache with LRU recency (`cache`), capabilities and violations (`core_defs`)
  and errors (`error`).
- `src/config/` — the server configuration: its types, defaults, merging and environment
  overrides (`loader`), validation, and the numeric syntax it reads (`float_syntax`).
- `src/bundle/` — tool bundles: digests, the local bundle cache and its index (`cache`),
  and the OCI registry protocol's decisions (`oci`): URLs, auth challenges, manifests.
- `src/server/` — the server side: policy checks in front of a handler (`policy`) and the
  server settings with the WASM limits they imply (`settings`).
- `src/wasm/` — WASM tools: manifests, the execution context, metering, file system
  preopens (`fs`), the outcome of a run (`execution`) and the executor's decisions
  (`executor`).
- `src/text.rs` — verified string helpers shared by the modules.
- `tests/` — tests of the library.
- `app/` — the `mcpk` program and the I/O around the library: files, the network, serde
  formats, async plumbing, metering display.

Public proof functions named `lemma_*` state laws of the library (for example, that a
denied tool is refused whatever else the policy allows, or that a bundle's cache path
gives back its URI).
