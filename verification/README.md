# export_core

Rendering of query results — CSV, TSV, Markdown tables, SQL `IN` lists and the JSON
value of each row — as a Verus-verified library.

- `src/` is the verified library. Each renderer's contract states the exact text it
  produces, over the specification functions next to it:
  `text` (joining, replacing, number and hex text), `value` (cell values and their full
  text), `csv`, `tsv`, `markdown`, `in_clause`, `json` (the JSON value of each cell).
- `src/laws.rs` and `src/csv_reading.rs` prove properties of every input: a CSV document
  written with quoting reads back into its fields, sanitised fields never start a
  formula, `line_break_to_space` keeps every row on one line, Markdown cells never
  split or end a table row, and SQL text literals read back into their text.
- Text that only `chrono`, `rust_decimal` and `uuid` compute comes from them through
  trusted wrappers at the end of `src/value.rs`, whose contracts state that text.
- `app/` holds what the library does not: the serde forms of the options, cells with
  floating-point and outside-crate types, and the JSON built and printed with
  `serde_json`.
