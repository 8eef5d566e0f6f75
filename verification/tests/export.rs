use export_core::{
    render_csv, render_in_clause, render_markdown, render_tsv, row_to_json, value_to_text,
    CivilDate, ColumnInfo, CsvDecimal, CsvDelimiter, CsvLineBreak, CsvOptions, CsvQuote,
    DecimalNumber, JsonCell, Value,
};
use std::str::FromStr;

fn col(name: &str) -> ColumnInfo {
    ColumnInfo {
        name: name.into(),
        data_type: "text".into(),
        nullable: true,
        primary_key: false,
        is_auto_increment: false,
        default_value: None,
        is_generated: false,
    }
}

fn cols(names: &[&str]) -> Vec<ColumnInfo> {
    names.iter().map(|n| col(n)).collect()
}

fn decimal(text: &str) -> Value {
    let d = rust_decimal::Decimal::from_str(text).unwrap();
    Value::Decimal(DecimalNumber::new(d.mantissa(), d.scale()).unwrap())
}

/// The `serde_json` value a cell stands for.
fn to_json(cell: &JsonCell) -> serde_json::Value {
    match cell {
        JsonCell::Null => serde_json::Value::Null,
        JsonCell::Bool(b) => serde_json::Value::Bool(*b),
        JsonCell::Int(i) => serde_json::Value::from(*i),
        JsonCell::Float(t) => t
            .parse::<f64>()
            .ok()
            .and_then(serde_json::Number::from_f64)
            .map(serde_json::Value::Number)
            .unwrap_or(serde_json::Value::Null),
        JsonCell::Number(t) => serde_json::Value::Number(t.parse().unwrap()),
        JsonCell::Str(s) => serde_json::Value::String(s.clone()),
        JsonCell::Document(t) => serde_json::from_str(t).unwrap(),
    }
}

fn json_field(entries: &[(String, JsonCell)], name: &str) -> serde_json::Value {
    let mut found = serde_json::Value::Null;
    for (k, v) in entries {
        if k == name {
            found = to_json(v);
        }
    }
    found
}

#[test]
fn value_to_text_covers_every_variant() {
    assert_eq!(value_to_text(&Value::Null), None);
    assert_eq!(value_to_text(&Value::Bool(true)), Some("true".to_string()));
    assert_eq!(value_to_text(&Value::Bool(false)), Some("false".to_string()));
    assert_eq!(value_to_text(&Value::Int(42)), Some("42".to_string()));
    assert_eq!(value_to_text(&Value::Float(1.5f64.to_string())), Some("1.5".to_string()));
    assert_eq!(value_to_text(&Value::Text("hi".into())), Some("hi".to_string()));
    assert_eq!(
        value_to_text(&Value::Bytes(vec![0xde, 0xad])),
        Some("0xdead".to_string())
    );
    assert_eq!(
        value_to_text(&Value::Date(CivilDate::new(2024, 1, 2).unwrap())),
        Some("2024-01-02".to_string())
    );
    assert_eq!(
        value_to_text(&Value::Time(export_core::ClockTime::new(13, 5, 9, 0).unwrap())),
        Some("13:05:09".to_string())
    );
    assert_eq!(
        value_to_text(&Value::DateTime(
            CivilDate::new(2024, 1, 2).unwrap(),
            export_core::ClockTime::new(13, 5, 9, 0).unwrap()
        )),
        Some("2024-01-02 13:05:09".to_string())
    );
    assert_eq!(value_to_text(&decimal("12.30")), Some("12.30".to_string()));
    let uuid = uuid::Uuid::from_str("550e8400-e29b-41d4-a716-446655440000").unwrap();
    assert_eq!(
        value_to_text(&Value::Uuid(*uuid.as_bytes())),
        Some(uuid.to_string())
    );
    let json: serde_json::Value = serde_json::from_str("{\"a\": 1}").unwrap();
    assert_eq!(
        value_to_text(&Value::Json(serde_json::to_string(&json).unwrap())),
        Some("{\"a\":1}".to_string())
    );
}

#[test]
fn csv_defaults_render_comma_lf_if_needed() {
    let columns = cols(&["id", "name"]);
    let rows = vec![vec![Value::Int(1), Value::Text("Alice".into())]];
    let out = render_csv(&columns, &rows, &CsvOptions::default());
    assert_eq!(out, "id,name\n1,Alice\n");
}

#[test]
fn csv_quote_if_needed_triggers_on_delimiter() {
    let columns = cols(&["a"]);
    let rows = vec![vec![Value::Text("has,comma".into())]];
    let out = render_csv(&columns, &rows, &CsvOptions::default());
    assert_eq!(out, "a\n\"has,comma\"\n");
}

#[test]
fn csv_quote_if_needed_triggers_on_quote_char() {
    let columns = cols(&["a"]);
    let rows = vec![vec![Value::Text("say \"hi\"".into())]];
    let out = render_csv(&columns, &rows, &CsvOptions::default());
    assert_eq!(out, "a\n\"say \"\"hi\"\"\"\n");
}

#[test]
fn csv_quote_if_needed_triggers_on_original_line_break_even_when_converted() {
    let columns = cols(&["a"]);
    let rows = vec![vec![Value::Text("line1\nline2".into())]];
    let opts = CsvOptions {
        line_break_to_space: true,
        ..Default::default()
    };
    let out = render_csv(&columns, &rows, &opts);
    assert_eq!(out, "a\n\"line1 line2\"\n");
}

#[test]
fn csv_quote_always_quotes_everything() {
    let columns = cols(&["a"]);
    let rows = vec![vec![Value::Text("plain".into())]];
    let opts = CsvOptions {
        quote: CsvQuote::Always,
        ..Default::default()
    };
    let out = render_csv(&columns, &rows, &opts);
    assert_eq!(out, "\"a\"\n\"plain\"\n");
}

#[test]
fn csv_quote_never_quotes_nothing_even_with_delimiter() {
    let columns = cols(&["a"]);
    let rows = vec![vec![Value::Text("has,comma".into())]];
    let opts = CsvOptions {
        quote: CsvQuote::Never,
        ..Default::default()
    };
    let out = render_csv(&columns, &rows, &opts);
    assert_eq!(out, "a\nhas,comma\n");
}

#[test]
fn csv_sanitizes_formula_prefixes() {
    let columns = cols(&["a"]);
    for ch in ['=', '+', '-', '@'] {
        let rows = vec![vec![Value::Text(format!("{ch}cmd"))]];
        let out = render_csv(&columns, &rows, &CsvOptions::default());
        assert_eq!(out, format!("a\n'{ch}cmd\n"), "prefix {ch} should be sanitized");
    }
}

#[test]
fn csv_does_not_sanitize_non_formula_prefixes() {
    let columns = cols(&["a"]);
    let rows = vec![vec![Value::Text("plain text".into())]];
    let out = render_csv(&columns, &rows, &CsvOptions::default());
    assert_eq!(out, "a\nplain text\n");
}

#[test]
fn csv_decimal_comma_only_for_plain_decimals() {
    let columns = cols(&["a"]);
    let opts = CsvOptions {
        decimal: CsvDecimal::Comma,
        delimiter: CsvDelimiter::Semicolon,
        ..Default::default()
    };
    assert_eq!(
        render_csv(&columns, &[vec![Value::Text("1.5".into())]], &opts),
        "a\n1,5\n"
    );
    assert_eq!(
        render_csv(&columns, &[vec![Value::Text("1e5".into())]], &opts),
        "a\n1e5\n"
    );
    assert_eq!(
        render_csv(&columns, &[vec![Value::Text("12".into())]], &opts),
        "a\n12\n"
    );
    assert_eq!(
        render_csv(&columns, &[vec![Value::Text("1.2.3".into())]], &opts),
        "a\n1.2.3\n"
    );
}

#[test]
fn csv_null_modes() {
    let columns = cols(&["a"]);
    let rows = vec![vec![Value::Null]];
    let out_empty = render_csv(&columns, &rows, &CsvOptions::default());
    assert_eq!(out_empty, "a\n\n");
    let opts = CsvOptions {
        null_to_empty: false,
        ..Default::default()
    };
    let out_null = render_csv(&columns, &rows, &opts);
    assert_eq!(out_null, "a\nNULL\n");
}

#[test]
fn csv_crlf_line_break() {
    let columns = cols(&["a"]);
    let rows = vec![vec![Value::Int(1)]];
    let opts = CsvOptions {
        line_break: CsvLineBreak::CrLf,
        ..Default::default()
    };
    let out = render_csv(&columns, &rows, &opts);
    assert_eq!(out, "a\r\n1\r\n");
}

#[test]
fn csv_semicolon_delimiter() {
    let columns = cols(&["a", "b"]);
    let rows = vec![vec![Value::Int(1), Value::Int(2)]];
    let opts = CsvOptions {
        delimiter: CsvDelimiter::Semicolon,
        ..Default::default()
    };
    let out = render_csv(&columns, &rows, &opts);
    assert_eq!(out, "a;b\n1;2\n");
}

#[test]
fn csv_header_off() {
    let columns = cols(&["a"]);
    let rows = vec![vec![Value::Int(1)]];
    let opts = CsvOptions {
        header_row: false,
        ..Default::default()
    };
    let out = render_csv(&columns, &rows, &opts);
    assert_eq!(out, "1\n");
}

#[test]
fn tsv_with_and_without_header() {
    let columns = cols(&["a", "b"]);
    let rows = vec![vec![Value::Int(1), Value::Null]];
    assert_eq!(render_tsv(&columns, &rows, true), "a\tb\n1\tNULL");
    assert_eq!(render_tsv(&columns, &rows, false), "1\tNULL");
}

#[test]
fn json_number_vs_string_handling() {
    let columns = cols(&["i", "f", "d", "s"]);
    let row = vec![
        Value::Int(5),
        Value::Float(1.5f64.to_string()),
        decimal("9.99"),
        Value::Text("hi".into()),
    ];
    let json = row_to_json(&columns, &row);
    assert_eq!(json_field(&json, "i"), serde_json::Value::from(5));
    assert_eq!(json_field(&json, "f"), serde_json::Value::from(1.5));
    assert_eq!(json_field(&json, "d"), serde_json::Value::from(9.99));
    assert_eq!(json_field(&json, "s"), serde_json::Value::from("hi"));
}

#[test]
fn json_missing_cell_is_null() {
    let columns = cols(&["a", "b"]);
    let row = vec![Value::Int(1)];
    let json = row_to_json(&columns, &row);
    assert_eq!(json_field(&json, "b"), serde_json::Value::Null);
}

#[test]
fn markdown_escapes_pipe_and_converts_line_breaks() {
    let columns = cols(&["a"]);
    let rows = vec![vec![Value::Text("has|pipe\nand newline".into())]];
    let out = render_markdown(&columns, &rows);
    assert_eq!(out, "| a |\n| --- |\n| has\\|pipe<br>and newline |");
}

#[test]
fn in_clause_skips_null_and_quotes_text() {
    let rows = vec![
        vec![Value::Text("O'Brien".into())],
        vec![Value::Null],
        vec![Value::Int(5)],
        vec![Value::Bool(true)],
    ];
    let out = render_in_clause(&rows, 0);
    assert_eq!(out, "('O''Brien', 5, TRUE)");
}

#[test]
fn in_clause_empty_when_all_skipped() {
    let rows = vec![vec![Value::Null], vec![Value::Bytes(vec![1, 2])]];
    assert_eq!(render_in_clause(&rows, 0), "()");
}
