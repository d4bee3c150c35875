# kei

The verified core of the Kei language tool-chain, written in Verus.

- `src/effects.rs` — the standard effect hierarchy and its containment
  relation (`is_known`, `covers`), with its laws.
- `src/precedence.rs` — the binary-operator precedence tiers
  (`PrecTier`, `bin_prec`, `bin_prec_level`), with their laws.
- `src/resolve.rs` — the project-root rule (`derive_root`), the module file
  as `PathBuf::push` and `set_extension` build it (`module_file`), and the
  steps of the file-system module resolver (`begin`/`leave`: cache,
  import-cycle guard, which file to read), with the law that each module is
  loaded at most once.
- `src/json.rs` — the JSON value model that the MCP server works on.
- `src/codec.rs` — JSON text in and out through `serde_json` (parse a
  message, write a response line).
- `src/server.rs` — the MCP (JSON-RPC 2.0) dispatch of the Kei MCP server:
  version negotiation, the modern/legacy protocol-version gate, the tool
  list and the `tools/call` argument rules, with their laws.
- `src/transport.rs` — line framing of the stdio transport (body limit,
  terminators, blank lines, UTF-8), its error responses, and the answer to
  one line (`answer_line`: frame, parse, handle).
- `src/text.rs` — character-level string helpers.

`app/` is the `kei-mcp` program around the library: the stdio read/write
loop and the calls into the Kei tool-chain crates (tools, wasm entry points,
the module resolver's file reading and parsing).
