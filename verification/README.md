# cmtk

A schema-driven formatter and analyzer for CMake files, written in Verus.
The library under `src/` is verified; `app/` is the command line around it.

## Layout

- `text.rs` — character-level helpers over the `Seq<char>` view of strings.
- `syntax.rs`, `lexer.rs`, `cst.rs`, `parser.rs` — the lossless pipeline:
  tokens and the syntax tree, with the proof that the tree's text is the
  source.
- `schema.rs`, `builtin_schemas.rs`, `config.rs` — command schemas and
  settings.
- `layout_spec.rs`, `pack.rs`, `layout.rs` — how the arguments of one command
  are laid out into lines (stated as spec functions, implemented against
  them).
- `format_spec.rs`, `formatter.rs` — how a whole file is written.
- `content.rs`, `order.rs` — what formatting keeps: counted character by
  character, it changes only whitespace, comments included; comments that
  move keep their texts; without comments in commands, it keeps every
  non-blank character in order.
- `analyzer_spec.rs`, `analyzer.rs` — schema discovery from
  `cmake_parse_arguments` calls.
- `discovery.rs`, `diff.rs` — which files are CMake files, which commands
  lack a schema, and the `--check` diff report.
- `cmtkrc.rs` — TOML configuration documents, through `toml`: `scan --write`
  sets the discovered schemas under `function_schemas` in an existing
  `.cmtkrc`, and the `[tool.cmtk]` table is taken out of `pyproject.toml`.
