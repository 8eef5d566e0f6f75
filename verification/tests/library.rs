use export_core::json::value_to_json;
use export_core::{
    render_csv, render_in_clause, render_markdown, render_tsv, row_to_json, value_to_text,
    CivilDate, ClockTime, ColumnInfo, CsvDecimal, CsvDelimiter, CsvLineBreak, CsvOptions,
    CsvQuote, DecimalNumber, JsonCell, Value,
};

fn column(name: &str) -> ColumnInfo {
    ColumnInfo {
        name: name.to_string(),
        data_type: "text".to_string(),
        nullable: false,
        primary_key: false,
        is_auto_increment: false,
        default_value: None,
        is_generated: false,
    }
}

fn text(v: Value) -> String {
    value_to_text(&v).unwrap()
}

fn date(y: i32, m: u32, d: u32) -> CivilDate {
    CivilDate::new(y, m, d).unwrap()
}

fn time(h: u32, m: u32, s: u32, n: u32) -> ClockTime {
    ClockTime::new(h, m, s, n).unwrap()
}

#[test]
fn delimiter_and_line_break_strings() {
    assert_eq!(CsvDelimiter::Comma.as_str(), ",");
    assert_eq!(CsvDelimiter::Semicolon.as_str(), ";");
    assert_eq!(CsvDelimiter::Tab.as_str(), "\t");
    assert_eq!(CsvDelimiter::Pipe.as_str(), "|");
    assert_eq!(CsvLineBreak::Lf.as_str(), "\n");
    assert_eq!(CsvLineBreak::CrLf.as_str(), "\r\n");
    assert_eq!(CsvLineBreak::Cr.as_str(), "\r");
}

#[test]
fn default_options() {
    let o = CsvOptions::default();
    assert!(o.null_to_empty);
    assert!(!o.line_break_to_space);
    assert!(o.header_row);
    assert!(o.sanitize_formulas);
    assert_eq!(o.delimiter, CsvDelimiter::Comma);
    assert_eq!(o.quote, CsvQuote::IfNeeded);
    assert_eq!(o.line_break, CsvLineBreak::Lf);
    assert_eq!(o.decimal, CsvDecimal::Period);
}

#[test]
fn integers_render_like_display() {
    for i in [0i64, 7, -7, 10, -10, 1234567890, i64::MAX, i64::MIN] {
        assert_eq!(text(Value::Int(i)), i.to_string());
    }
}

#[test]
fn bytes_render_as_lower_hex() {
    assert_eq!(text(Value::Bytes(vec![])), "0x");
    assert_eq!(text(Value::Bytes(vec![0x00, 0x0f, 0xa0, 0xff])), "0x000fa0ff");
}

#[test]
fn dates_exist_only_on_calendar_days() {
    assert!(CivilDate::new(2023, 2, 29).is_none());
    assert!(CivilDate::new(2024, 2, 29).is_some());
    assert!(CivilDate::new(1900, 2, 29).is_none());
    assert!(CivilDate::new(2000, 2, 29).is_some());
    assert!(CivilDate::new(2024, 4, 31).is_none());
    assert!(CivilDate::new(2024, 13, 1).is_none());
    assert!(CivilDate::new(2024, 1, 0).is_none());
    assert!(CivilDate::new(-4, 2, 29).is_some());
    assert!(CivilDate::new(262142, 12, 31).is_some());
    assert!(CivilDate::new(262143, 1, 1).is_none());
    assert!(CivilDate::new(-262143, 1, 1).is_some());
    assert!(CivilDate::new(-262144, 1, 1).is_none());
    let d = date(2024, 3, 9);
    assert_eq!((d.year(), d.month(), d.day()), (2024, 3, 9));
}

#[test]
fn date_years_are_padded_and_signed() {
    assert_eq!(text(Value::Date(date(5, 3, 4))), "0005-03-04");
    assert_eq!(text(Value::Date(date(-1, 12, 31))), "-0001-12-31");
    assert_eq!(text(Value::Date(date(10000, 1, 1))), "+10000-01-01");
    assert_eq!(text(Value::Date(date(0, 1, 1))), "0000-01-01");
}

#[test]
fn times_and_leap_seconds() {
    assert!(ClockTime::new(24, 0, 0, 0).is_none());
    assert!(ClockTime::new(23, 58, 58, 1_000_000_000).is_none());
    assert!(ClockTime::new(23, 59, 59, 2_000_000_000).is_none());
    assert_eq!(text(Value::Time(time(0, 0, 0, 999))), "00:00:00");
    assert_eq!(text(Value::Time(time(23, 59, 59, 1_500_000_000))), "23:59:60");
    assert_eq!(
        text(Value::DateTime(date(1999, 12, 31), time(23, 59, 59, 0))),
        "1999-12-31 23:59:59"
    );
}

#[test]
fn timestamps_are_rfc3339_in_utc() {
    let d = date(2024, 1, 2);
    assert_eq!(
        text(Value::TimestampTz(d, time(13, 5, 9, 0))),
        "2024-01-02T13:05:09+00:00"
    );
    assert_eq!(
        text(Value::TimestampTz(d, time(13, 5, 9, 500_000_000))),
        "2024-01-02T13:05:09.500+00:00"
    );
    assert_eq!(
        text(Value::TimestampTz(d, time(13, 5, 9, 123_456_000))),
        "2024-01-02T13:05:09.123456+00:00"
    );
    assert_eq!(
        text(Value::TimestampTz(d, time(13, 5, 9, 1))),
        "2024-01-02T13:05:09.000000001+00:00"
    );
    assert_eq!(
        text(Value::TimestampTz(d, time(23, 59, 59, 1_250_000_000))),
        "2024-01-02T23:59:60.250+00:00"
    );
}

#[test]
fn decimals_keep_their_scale() {
    let dec = |m: i128, s: u32| text(Value::Decimal(DecimalNumber::new(m, s).unwrap()));
    assert_eq!(dec(0, 2), "0.00");
    assert_eq!(dec(0, 0), "0");
    assert_eq!(dec(-5, 3), "-0.005");
    assert_eq!(dec(123, 0), "123");
    assert_eq!(dec(-123456, 2), "-1234.56");
    assert!(DecimalNumber::new(79228162514264337593543950336, 0).is_none());
    assert!(DecimalNumber::new(-79228162514264337593543950336, 0).is_none());
    assert!(DecimalNumber::new(79228162514264337593543950335, 28).is_some());
    assert!(DecimalNumber::new(1, 29).is_none());
    let d = DecimalNumber::new(-42, 1).unwrap();
    assert_eq!((d.mantissa(), d.scale()), (-42, 1));
}

#[test]
fn uuids_are_hyphenated() {
    assert_eq!(
        text(Value::Uuid([0; 16])),
        "00000000-0000-0000-0000-000000000000"
    );
    let b = [
        0x01, 0x23, 0x45, 0x67, 0x89, 0xab, 0xcd, 0xef, 0xfe, 0xdc, 0xba, 0x98, 0x76, 0x54, 0x32,
        0x10,
    ];
    assert_eq!(text(Value::Uuid(b)), "01234567-89ab-cdef-fedc-ba9876543210");
}

#[test]
fn csv_fields_with_everything_read_back_quoted() {
    let columns = vec![column("x"), column("y")];
    let rows = vec![vec![
        Value::Text("a,\"b\"\r\nc".to_string()),
        Value::Text(String::new()),
    ]];
    let out = render_csv(&columns, &rows, &CsvOptions::default());
    assert_eq!(out, "x,y\n\"a,\"\"b\"\"\r\nc\",\n");
}

#[test]
fn csv_sanitized_field_is_quoted_under_always() {
    let columns = vec![column("=sum")];
    let rows = vec![vec![Value::Int(-3)]];
    let opts = CsvOptions {
        quote: CsvQuote::Always,
        ..Default::default()
    };
    assert_eq!(render_csv(&columns, &rows, &opts), "\"'=sum\"\n\"'-3\"\n");
    let opts = CsvOptions {
        sanitize_formulas: false,
        ..Default::default()
    };
    assert_eq!(render_csv(&columns, &rows, &opts), "=sum\n-3\n");
}

#[test]
fn csv_line_breaks_become_single_spaces() {
    let columns = vec![column("a")];
    let rows = vec![vec![Value::Text("a\r\nb\rc\nd\n\re".to_string())]];
    let opts = CsvOptions {
        line_break_to_space: true,
        quote: CsvQuote::Never,
        ..Default::default()
    };
    assert_eq!(render_csv(&columns, &rows, &opts), "a\na b c d  e\n");
}

#[test]
fn csv_decimal_comma_with_signs() {
    let columns = vec![column("a")];
    let opts = CsvOptions {
        decimal: CsvDecimal::Comma,
        delimiter: CsvDelimiter::Tab,
        sanitize_formulas: false,
        ..Default::default()
    };
    let one = |s: &str| render_csv(&columns, &[vec![Value::Text(s.to_string())]], &opts);
    assert_eq!(one("-1.50"), "a\n-1,50\n");
    assert_eq!(one("+0.5"), "a\n+0,5\n");
    assert_eq!(one(".5"), "a\n.5\n");
    assert_eq!(one("1."), "a\n1.\n");
    assert_eq!(one("--1.5"), "a\n--1.5\n");
    assert_eq!(one("1.x"), "a\n1.x\n");
    let d = DecimalNumber::new(1250, 3).unwrap();
    assert_eq!(
        render_csv(&columns, &[vec![Value::Decimal(d)]], &opts),
        "a\n1,250\n"
    );
}

#[test]
fn csv_pipe_delimiter_and_cr_line_break() {
    let columns = vec![column("a"), column("b")];
    let rows = vec![
        vec![Value::Text("x|y".to_string()), Value::Bool(true)],
        vec![Value::Null, Value::Text("z".to_string())],
    ];
    let opts = CsvOptions {
        delimiter: CsvDelimiter::Pipe,
        line_break: CsvLineBreak::Cr,
        null_to_empty: false,
        ..Default::default()
    };
    assert_eq!(
        render_csv(&columns, &rows, &opts),
        "a|b\r\"x|y\"|true\rNULL|z\r"
    );
}

#[test]
fn tsv_writes_names_and_text_as_they_are() {
    let columns = vec![column("a\tb")];
    assert_eq!(render_tsv(&columns, &[], false), "");
    assert_eq!(render_tsv(&columns, &[], true), "a\tb");
    let rows = vec![vec![Value::Text("x,\"y\"".to_string())], vec![]];
    assert_eq!(render_tsv(&columns, &rows, true), "a\tb\nx,\"y\"\n");
}

#[test]
fn markdown_edge_cases() {
    assert_eq!(render_markdown(&[], &[]), "|  |\n|  |");
    let columns = vec![column("a"), column("b")];
    let rows = vec![vec![Value::Text("x\r\ny\r".to_string()), Value::Null]];
    assert_eq!(
        render_markdown(&columns, &rows),
        "| a | b |\n| --- | --- |\n| x<br>y<br> | NULL |"
    );
}

#[test]
fn in_clause_kinds_of_literals() {
    let rows = vec![
        vec![Value::Float("2.5".to_string())],
        vec![Value::Decimal(DecimalNumber::new(-10, 1).unwrap())],
        vec![Value::Date(date(2024, 1, 2))],
        vec![],
        vec![Value::Bool(false)],
        vec![Value::Text("''".to_string())],
    ];
    assert_eq!(
        render_in_clause(&rows, 0),
        "(2.5, -1.0, '2024-01-02', FALSE, '''''')"
    );
    assert_eq!(render_in_clause(&rows, 1), "()");
}

#[test]
fn json_cells_by_kind() {
    assert!(matches!(value_to_json(&Value::Null), JsonCell::Null));
    assert!(matches!(value_to_json(&Value::Bool(true)), JsonCell::Bool(true)));
    assert!(matches!(value_to_json(&Value::Int(-2)), JsonCell::Int(-2)));
    match value_to_json(&Value::Decimal(DecimalNumber::new(999, 2).unwrap())) {
        JsonCell::Number(t) => assert_eq!(t, "9.99"),
        other => panic!("unexpected {other:?}"),
    }
    match value_to_json(&Value::Date(date(2024, 1, 2))) {
        JsonCell::Str(t) => assert_eq!(t, "2024-01-02"),
        other => panic!("unexpected {other:?}"),
    }
    match value_to_json(&Value::Json("[1,2]".to_string())) {
        JsonCell::Document(t) => assert_eq!(t, "[1,2]"),
        other => panic!("unexpected {other:?}"),
    }
    let entries = row_to_json(&[column("k"), column("k")], &[Value::Int(1), Value::Int(2)]);
    assert_eq!(entries.len(), 2);
    assert_eq!(entries[0].0, "k");
    assert!(matches!(entries[1].1, JsonCell::Int(2)));
}

#[test]
fn every_option_value_is_listed() {
    assert_eq!(CsvDelimiter::ALL.len(), 4);
    assert_eq!(CsvQuote::ALL, [CsvQuote::Always, CsvQuote::IfNeeded, CsvQuote::Never]);
    assert_eq!(CsvLineBreak::ALL[1], CsvLineBreak::CrLf);
    assert_eq!(CsvDecimal::ALL, [CsvDecimal::Period, CsvDecimal::Comma]);
}
