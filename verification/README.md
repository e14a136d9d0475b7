# iceman

A command-line tool for looking into Apache Iceberg catalogs and tables, with
its logic verified by Verus.

- `src/` is the verified library: identifiers and command-line values, the
  catalog configuration formats (iceman TOML, PyIceberg YAML and its
  `PYICEBERG_*` environment overlay) and catalog resolution, the metadata
  tables of `inspect` (snapshots, history, refs, manifests, entries, files,
  partitions, metadata log), the SQL query plumbing around DuckDB, the `info`
  topics, the `describe` and `list` output, and the text and TSV rendering.
  Every function there carries a contract; the few calls into other crates
  (`serde_json` string escaping, `glob` patterns, `chrono` timestamps, Unicode
  lowercase) go through small trusted wrappers whose contracts are stated next
  to them.
- `app/` holds what cannot be verified: argument parsing, reading files and
  the environment, talking to the catalog, running DuckDB, and printing.
- `tests/` exercises the library on concrete values.

The two programs are `iceman` and, under the name `pyiceman`, a front end that
reads PyIceberg's configuration.
