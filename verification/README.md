# mcp_sdk

Building blocks for Model Context Protocol servers, verified with Verus:
JSON-RPC messages, MCP method catalogs and result/params bodies, tool,
resource and prompt builders, URI templates, pagination cursors, API-key
authentication, sessions, stdio framing, notifications, sampling and
elicitation, and the Streamable HTTP request handler.

## Layout

- `src/` — the verified library. Every public function states what it
  returns in its `ensures`; laws relating several functions are public proof
  functions (`lemma_*`).
  - `json`, `text`, `textmap`, `render` — JSON values, text operations, a
    sorted text-keyed map, and compact/pretty JSON text (object members in
    key order, messages in declared order).
  - `jsonrpc`, `methods`, `protocol`, `envelopes`, `readers` — the protocol.
  - `builders`, `app`, `template`, `pagination`, `clients`, `notifications`.
  - `http_auth`, `session_guard`, `stdio`, `streamable_http`, `fixtures` —
    transports.
- `app/` — what stays outside the verified library: conversions between the
  library's JSON and `serde_json` values, floating-point helpers, the async
  HTTP service on `tokio`, and fixture files.
- `tests/` — tests run against the compiled library.

Outside crates are called from `src/` through a few trusted wrappers whose
contracts are stated in their doc comments: `sha2` (SHA-256), `base64`
(cursor encoding), `serde_json` (reading JSON text and cursor bytes), `uuid`
(session ids).
