# greentic-mcp-client

Client core for MCP servers speaking JSON-RPC 2.0 (protocol `2025-06-18`),
written in Verus.

- `src/` — the verified, sans-io library: a JSON value model (`json`),
  JSON text decoding and encoding through `serde_json` (`codec`), text
  utilities (`text`), server-sent-events framing (`sse`), request builders,
  response parsing and result mapping (`proto`), auth headers (`auth`), and
  per-session state: request ids, session-id replay, request headers and what
  each operation makes of an answer (`client`).
- `app/` — the transports around it: reqwest for Streamable HTTP, tokio for
  stdio subprocess servers, and the error type with its messages.
- `tests/` — tests of the library, including comparisons with `std`.
