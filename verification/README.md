# SolScript

A compiler front end and Anchor code generator for a Solidity-style contract
language, written in Verus: the lexer, the parser, the lowering to a Solana
representation, the Anchor project generator, the IDL, the source formatter, the
editor services (hover, definitions, completions) and the decisions of the
command line carry contracts that Verus proves.

## Layout

- `src/` — the verified library.
  - `lexer.rs`, `grammar.rs`, `grouping.rs`, `parser.rs`, `parse_error.rs`: source text to
    syntax tree; `grouping.rs` states how operators group by precedence.
  - `ast.rs`, `types.rs`, `type_names.rs`, `span.rs`: the syntax tree.
  - `lower_spec.rs`, `lower.rs`, `lower_stmt.rs`, `program_spec.rs`, `lower_items.rs`,
    `lower_contract.rs`, `ir.rs`: lowering to the Solana representation.
  - `gen_spec.rs`, `rust_gen.rs`, `handler_gen.rs`, `project_spec.rs`, `project_gen.rs`,
    `project_text.rs`, `project.rs`: the files of a generated Anchor project.
  - `idl.rs`: the Anchor IDL as a value.
  - `formatter.rs`: the canonical layout of sources and the check of `fmt --check`.
  - `lsp.rs`: hover texts, definitions and completions.
  - `config.rs`, `package.rs`, `templates.rs`, `bpf.rs`, `commands.rs`: the project file,
    packages, templates, build tools and the choices of the command line.
  - `laws.rs`, `codegen_laws.rs`, `format_laws.rs`: properties of the library as a whole.
  - `text.rs`, `chars.rs`: strings and characters.
- `tests/` — tests run against the compiled library.
- `app/` — the `solscript` command line: argument parsing, files, processes and the
  serialisation of the IDL and the project file.

## Limits

- Direct SOL transfers are lowered into the Solana representation, but the Anchor
  generator does not emit them: generating an expression that holds one fails with
  `CodegenError::UnsupportedFeature("SOL transfers")`, and its contract says so.
- The TypeScript client and the generated tests are not produced: those parts of a
  generated project are empty.
