# martty

The decision logic of a terminal client for ACP agents, verified with Verus.

`src/` is the library. Its functions are proved against their contracts
(a few private helpers carry none): how keys, clicks and pastes are routed, the slash-command menu
and its arguments, the pickers, the prompt queue and each session's prompt
lane, session tabs and the binds that attach agent sessions to them, the
theme catalog, the settings document and the MCP server supply, the
persistent `!` shell's script and marker scan, protocol negotiation and the
replay window. Properties that span several calls stand as `law_*` proof
functions beside the code they are about.

Calls into outside crates (`unicode-width`, `yaml-rust2`, `serde_json`,
`agent-client-protocol`, `std` path and string helpers) go through a few
`#[verifier::external_body]` wrappers whose doc comments say what their
contracts claim. Settings and catalog JSON is parsed in `src/json.rs` and
the crow config's YAML in `src/yaml.rs`, each behind such a wrapper; the
version-2 `initialize` request is built in `src/acp.rs`.

`app/` is ordinary Rust around the library: file and environment access
(it hands the library raw file text), writing the library's `Json` model
back out, the MCP wire types, the shell process, crossterm key events, the
clock, and the few figures printed with floating point.

`tests/` exercises the library on concrete values.
