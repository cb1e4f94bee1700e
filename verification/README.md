# schematic

A layered configuration library: sources (files, URLs, code snippets) are detected by
format, parsed into partial configurations, merged with per-setting strategies, overridden
from environment variables and validated. Enumerable settings are named, parsed and
formatted from their declarations.

The library under `src/` is written in Verus, and each public function carries a contract
that Verus proves:

- `text`, `helpers`, `format`: string primitives, source classification, format detection.
- `env`, `merge`, `internal`: environment value parsers, merge strategies, and the managers
  that derived configurations call for environment reads, merging and validation.
- `config`: errors, paths, validation errors, sources and the steps of loading them,
  extension, formats, the URL cache, enumerable settings and their parsing.
- `derive`: what the derives decide from the attributes they read: names, casings, aliases,
  environment variables, serde options and the table of an enumerable setting.

`app/` holds what does input and output or rests on serde and miette: reading files and the
environment, deserializing each format, the error types with their diagnostics, and the
loader that drives the library.
