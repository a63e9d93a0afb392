# zed_harnlang

Language support for Harn (`.harn`) in the Zed editor: an editor extension
that prepares the language-server binaries, and a proxy that sits between the
editor and two language servers (Harn's `harn-lsp` and rust-analyzer), sending
go-to-definition requests on `Harness…` names to rust-analyzer.

The logic is a library verified with Verus (`src/`):

- `json`, `rpc`: JSON values and JSON-RPC messages, and their compact text.
- `transport`: the `Content-Length` framing of the language server protocol.
- `text`: the identifier under a cursor.
- `documents`: the texts of the open documents.
- `ranking`, `symbols`: choosing definitions among `workspace/symbol` results.
- `interceptor`, `proxy`: what the proxy changes and where messages go.
- `fallback`: the second proxy variant, which asks rust-analyzer only when
  Harn's server answers a request with nothing.
- `paths`, `config`, `extension`, `stubs`: paths, the server list, the
  extension's setup steps, and the `Harness` stub file generator.

`app/` holds the program around it: the proxies' I/O loops (`lsp-proxy` as
the first argument runs the second variant), the serde form of
messages, and the editor extension's host calls.
