# csv2parquet

Converts CSV datasets into Parquet files (single and partitioned) and into
Delta Lake tables with a hand-built transaction log, generates the mock
datasets, and benchmarks a substring query on CSV against Parquet.

- `src/` is the verified library (Verus): CSV columns (`csv_input`), column
  types and typed data (`table`), row partitioning (`partition`), column
  statistics (`stats`), the Delta Lake log contents (`delta_log`) and its JSON
  documents (`log_json`), conversion planning (`convert`), match counting
  (`query`), mock data generation (`mock`) and text helpers (`text`).
- `app/` is the command-line program: file I/O, Arrow/Parquet encoding, JSON
  text of the log documents, logging, timing. Run it with `create-mock-csv`,
  `convert` or `query`.
- `tests/` exercises the library on concrete inputs.
