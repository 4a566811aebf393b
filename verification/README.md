# rex_daemon

The decision logic of the Rex local inference daemon, written in Verus and
proved against its contracts: the access policy and broker tools, the context
pipeline and its caches, the response-cache policy and layers, the streaming
request path, session logs and titles, tool approvals, OpenAI-compatible
completion framing and server-sent-event assembly, process supervision, the
observability read API and metrics, and the desktop shell's view records.

Layout:

- `src/` — the verified library, one module per concern; `lib.rs` lists them.
- `tests/` — tests run against the compiled library.
- `app/` — the program around the library: configuration loading, the
  socket and idle lifecycle, child processes, file-system work for the
  broker, session log files, and serde copies of the library's records.
