# cleo

The decision-making core of CLEO for iOS (a script and mod loader for the
game), written in Verus: Verus checks every function in `src/`
against its contract.

- `src/` — the verified library: SCM bytecode reading, writing and
  disassembly (`scripts::scm`), script states and menus (`scripts::runtime`),
  cheats, settings and language choice (`meta`), archive directories and
  resource replacement (`streaming`, `files`), FXT text files and custom
  strings (`text`), OSW sound indexes, release version ordering (`github`),
  log record handling, controller and touch-zone decisions.
- `tests/` — tests of the library on concrete values.
- `app/` — the I/O around the library: reading and writing files, the
  HTTP request for the release list, and the serde forms of the library's
  types.

Outside code that the library calls (byteorder, `CaseInsensitiveHashMap`,
serde_json for the release list, a few std functions) is reached through small trusted wrappers whose contracts
say what the library relies on.
