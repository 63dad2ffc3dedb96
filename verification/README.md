# waldur-cli-generator

Generates the command modules, the machine-readable command schema and the reference
pages of waldur-cli from two inputs: the OpenAPI schema of a Waldur deployment, and
`commands.toml`, the manifest of groups, resources and verbs.

```bash
waldur-cli-generator [SCHEMA_PATH] [WALDUR_CLI_DIR]
```

## Layout

- `src/` is the library, verified with [Verus](https://github.com/verus-lang/verus). It does
  no I/O. Its modules, from the inputs to the outputs:
  - `manifest`, `schema`, `skeleton`, `json_schema`, `extract`: what the inputs hold, and what
    is extracted and built from them;
  - `pipeline`: from a manifest and a schema to everything that generation needs;
  - `verb_codegen`, `codegen`, `templates`: the command modules and `cli.rs`;
  - `schema_codegen`: the command schema and the `schema.rs` that embeds it;
  - `reference_pages`, `reference_docs`: the reference pages and their indexes;
  - `text`, `order`, `table`, `json`, `rust_text`: texts, sorting, tables with names for keys,
    JSON values and Rust tokens;
  - the modules whose names end in `_laws`: what holds across functions.
- `app/` is the program: arguments, files and the serde types that the inputs are read into.
- `tests/` runs the library.

## What is trusted

Functions marked `#[verifier::external_body]` and `assume_specification` items hand calls to
std, `serde_json`, `syn`, `proc_macro2`, `prettyplease` and `toml`. Each says in its doc
comment which function it calls and what is taken for granted about it. Everything else is
proved.
