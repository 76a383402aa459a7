# paint_type

The verified core of the paint.type image editor, written in Verus.

`src/` is the library. Its functions are proved against their contracts,
except a handful of small trusted wrappers, each marked
`#[verifier::external_body]` and documented, that make one outside call:
SHA-256 (`sha2`), hexadecimal and base64 encoding (`hex`, `base64`), and
from std UTF-8 decoding, `Debug` quoting, lower-casing and path
extensions. The modules:

- `undo` — the branching, append-only undo graph.
- `crdt`, `permission`, `session`, `transport`, `llm`, `groove` — the
  collaboration core: a last-writer-wins tile CRDT, per-peer capabilities,
  the permission-gated session, its transports, the assistant channel and
  service discovery.
- `ptype` — the `.ptype` container codec; `png` — the editor's PNG files;
  `half` — binary16/binary32 bit-pattern conversion.
- `tile`, `layers`, `fill`, `brush`, `host` — tile coordinates and errors,
  the layer stack, flood-fill planning, brush tip masks, and the UI
  command/response vocabulary.
- `plugins` — plugin manifests, errors, the sandbox and tool responses.
- `tools` — the plugin tooling: minter, harness, wizard (its configuration,
  rendering and question flow), provisioner, configurator, file templates
  and the typed-wasm schema generator.

`app/` is ordinary Rust around the library: native tiles and
floating-point compositing, the document and its command dispatch, file
and terminal I/O, and the command lines of the plugin tools.

`tests/` exercises the library through its public API.
