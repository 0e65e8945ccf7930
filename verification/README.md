# zed_kotlin

Kotlin language support for the Zed editor, with the stdio proxy that sits
between Zed and JetBrains' kotlin-lsp, written as a Verus-verified library and
a thin unverified shell.

- `src/` is the verified library: the install sequences of the language
  server and the proxy (as state machines over the host's answers), the
  launch command, the debug-adapter decisions, the proxy's message
  forwarding, and its localhost HTTP sidecar (request reader, response
  framing, injected request ids and the table of waiting requests).
- `app/` talks to the Zed host, the file system, sockets and processes, and
  hands the library plain values.
- `tests/` runs the library on concrete inputs.
