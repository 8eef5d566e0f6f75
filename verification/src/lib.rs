//! Rendering of query results as CSV, TSV, Markdown tables, SQL `IN` lists and JSON rows.
//!
//! Every renderer states in its contract the exact text it produces; `laws` and
//! `csv_reading` prove what the formats promise of every input, such as that a CSV
//! document written with quoting reads back into its fields.
pub mod csv;
pub mod csv_reading;
pub mod in_clause;
pub mod json;
pub mod laws;
pub mod markdown;
pub mod output_laws;
pub mod text;
pub mod tsv;
pub mod value;

pub use csv::{render_csv, CsvDecimal, CsvDelimiter, CsvLineBreak, CsvOptions, CsvQuote};
pub use in_clause::render_in_clause;
pub use json::{row_to_json, value_to_json, JsonCell};
pub use markdown::render_markdown;
pub use tsv::render_tsv;
pub use value::{value_to_text, CivilDate, ClockTime, ColumnInfo, DecimalNumber, Value};
