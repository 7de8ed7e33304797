# thorn

A linter engine for Python sources, written in Verus. The library parses
Python into its own AST, runs the checks that framework plugins register,
places the findings at line and column, drops those that inline comments
suppress, orders them, and renders them for CI tools. The functions in
`src/` are verified against their contracts; calls into outside crates stand
behind a few trusted wrappers whose contracts say what they claim. What the
plugins' own checks return is theirs: the engine's contracts say how it
gathers, levels, places, filters and orders whatever they return.

## Layout

- `src/ast.rs`, `src/model.rs` — the AST and its mathematical model.
- `src/syntax.rs`, `src/grammar.rs`, `src/stmt_grammar.rs` — tree-sitter's
  concrete syntax tree as plain values, and what each node parses to.
- `src/parser.rs`, `src/stmt_parser.rs`, `src/python.rs` — the parser, proved
  to build what the grammar states; `parse_python` is the entry point, and `parse_python_clean` refuses a
  source with a syntax error.
- `src/diagnostic.rs`, `src/suppress.rs`, `src/linter.rs` — diagnostics, their
  placement, inline suppression, ordering, and the linter engine.
- `src/plugin.rs`, `src/graph.rs`, `src/visitor.rs` — the plugin API, the
  application graph, and what a walk over the AST visits.
- `src/config.rs`, `src/discover.rs`, `src/cli.rs` — `[tool.thorn]`
  configuration, file selection, and the command line's filtering.
- `src/format.rs`, `src/json.rs` — GitHub, GitLab, SARIF, JSON and text output.
- `app/` — the command-line toolkit: `run(plugins)`, file-system walks,
  parallel linting, colored output, and the visitor trait.
- `tests/` — tests of the library.
