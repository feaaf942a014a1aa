# copilot_sdk

A client library for the Copilot CLI's JSON-RPC 2.0 protocol, with its logic
verified by Verus.

## Layout

- `src/` — the verified library.
  - `framing.rs`: the `Content-Length` header block that frames each message,
    its writing and its line-by-line reading, and the law that a framed
    message reads back.
  - `jsonrpc.rs`: JSON-RPC messages, the classification of incoming ones, the
    answers to incoming requests, and `RpcState`, the state of a client
    (running flag, next request id, pending requests) with the decisions of
    its read loop, its requests and its shut-down.
  - `json.rs`, `strmap.rs`: JSON values and the string-keyed map that holds
    objects, each with a mathematical model.
  - `process.rs`: subprocess options, how the standard streams are set up,
    Node.js script detection by file extension, and the CLI path override.
  - `types.rs`: configuration and protocol types, tool results, tool schema
    building, permissions and the BYOK environment settings.
  - `text.rs`: Unicode white space and trimming.
- `app/` — what cannot be verified: async I/O on pipes and sockets, the
  background read loop, spawning the CLI, reading environment variables, and
  serde forms of the library's types.
- `tests/` — tests of the library, run against the compiled crate.
