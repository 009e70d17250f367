# datagov

A data-governance toolkit: dataset inspection and profiling, SQL over
dataset files, SQL parsing/formatting/transpiling, and PII scanning with
masked evidence.

- `src/` is the verified library (Verus). It holds the exit-code contract,
  the typed error, value masking, format detection, the CSV/TSV, JSON and
  Parquet summaries, profiling SQL and column classification, query
  reference planning and rewriting, SQL dialect handling and the parse
  report, the PII recognizers, validators, confidence and finding logic,
  and configuration layering. Outside crates (`regex`, `url`, `sha2`,
  `csv`, `sqlglot-rust`, `serde_json`, `parquet`) are reached through small trusted
  wrappers whose contracts are stated in their doc comments.
- `app/` is the `datagov` command-line program around it: argument parsing
  (`clap`), file and standard-input reading, the DataFusion engine,
  report envelopes (`serde`), and table rendering (`comfy-table`).
- `tests/` exercises the library through its public API.
