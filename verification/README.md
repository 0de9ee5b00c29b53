# wasi-runner

Compiles single-file Rust tools (cargo scripts) to WASI and runs them in a
sandbox that holds only the capabilities granted on the command line.

- `src/` is the library, verified with Verus: the git-blob-hash cache of
  compiled tools (`cache`), the cargo frontmatter and manifest settings of a
  tool script and the TOML document of its manifest (`frontmatter`,
  `toml_model`, which parses through the `toml` crate), tool metadata and the choice of
  tool files (`metadata`), the build plan (`compiler`), the sandbox and exit
  codes of a run (`executor`), shared types and exit codes (`tool_error`,
  `codes`), and the argument checks and search request of the bundled tools
  (`tools`, `urlencode`).
- `app/` is the `wasi-runner` program: command line, file system, cargo,
  JSON parsing, and the wasmtime runtime. It also holds the I/O side
  of the bundled tools.
- `tests/` exercises the library on concrete values.
