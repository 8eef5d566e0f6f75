use export_core::{
    render_csv, render_in_clause, render_markdown, ColumnInfo, CsvDelimiter, CsvLineBreak,
    CsvOptions, CsvQuote, Value,
};

fn named(name: &str) -> ColumnInfo {
    ColumnInfo {
        name: name.to_string(),
        data_type: "text".to_string(),
        nullable: true,
        primary_key: false,
        is_auto_increment: false,
        default_value: None,
        is_generated: false,
    }
}

/// Reads fields separated by `d` and records ended by a line break, honouring quotes.
fn read_csv(s: &str, d: char, line_break: &str) -> Vec<Vec<String>> {
    let chars: Vec<char> = s.chars().collect();
    let lb: Vec<char> = line_break.chars().collect();
    let mut records = Vec::new();
    let mut i = 0;
    while i < chars.len() {
        let mut record = Vec::new();
        loop {
            let mut field = String::new();
            if i < chars.len() && chars[i] == '"' {
                i += 1;
                loop {
                    if chars[i] == '"' {
                        if i + 1 < chars.len() && chars[i + 1] == '"' {
                            field.push('"');
                            i += 2;
                        } else {
                            i += 1;
                            break;
                        }
                    } else {
                        field.push(chars[i]);
                        i += 1;
                    }
                }
            } else {
                while i < chars.len() && chars[i] != d && chars[i] != '\r' && chars[i] != '\n' {
                    field.push(chars[i]);
                    i += 1;
                }
            }
            record.push(field);
            if i < chars.len() && chars[i] == d {
                i += 1;
            } else {
                break;
            }
        }
        assert_eq!(&chars[i..i + lb.len()], &lb[..]);
        i += lb.len();
        records.push(record);
    }
    records
}

#[test]
fn csv_document_reads_back_into_its_fields() {
    let awkward = [
        "plain",
        "comma,inside",
        "semi;colon",
        "quote \" inside",
        "\"starts with quote",
        "line\nbreak",
        "cr\rlf\r\n",
        "",
        "=formula",
    ];
    let columns: Vec<ColumnInfo> = vec![named("first, name"), named("second \"q\"")];
    let rows: Vec<Vec<Value>> = awkward
        .iter()
        .map(|t| vec![Value::Text(t.to_string()), Value::Null])
        .collect();
    for quote in [CsvQuote::Always, CsvQuote::IfNeeded] {
        for (delimiter, d) in [(CsvDelimiter::Comma, ','), (CsvDelimiter::Semicolon, ';')] {
            for line_break in [CsvLineBreak::Lf, CsvLineBreak::CrLf, CsvLineBreak::Cr] {
                let opts = CsvOptions { quote, delimiter, line_break, ..Default::default() };
                let out = render_csv(&columns, &rows, &opts);
                let back = read_csv(&out, d, line_break.as_str());
                assert_eq!(back.len(), rows.len() + 1);
                assert_eq!(back[0], vec!["first, name".to_string(), "second \"q\"".to_string()]);
                for (k, t) in awkward.iter().enumerate() {
                    let expected = if t.starts_with('=') { format!("'{t}") } else { t.to_string() };
                    assert_eq!(back[k + 1], vec![expected, String::new()]);
                }
            }
        }
    }
}

#[test]
fn csv_rows_are_single_lines_with_line_break_to_space() {
    let columns = vec![named("a"), named("b")];
    let rows = vec![vec![
        Value::Text("x\ny".to_string()),
        Value::Text("p\r\nq\rr".to_string()),
    ]];
    let opts = CsvOptions { line_break_to_space: true, ..Default::default() };
    let out = render_csv(&columns, &rows, &opts);
    assert_eq!(out, "a,b\n\"x y\",\"p q r\"\n");
    assert_eq!(out.matches('\n').count(), 2);
    assert!(!out.contains('\r'));
}

#[test]
fn sanitized_fields_never_start_a_formula() {
    let columns = vec![named("@user")];
    for quote in [CsvQuote::Always, CsvQuote::IfNeeded, CsvQuote::Never] {
        let rows = vec![vec![Value::Text("+1".to_string())], vec![Value::Int(-1)]];
        let opts = CsvOptions { quote, ..Default::default() };
        let out = render_csv(&columns, &rows, &opts);
        for line in out.lines() {
            let first = line.chars().next().unwrap();
            assert!(!['=', '+', '-', '@'].contains(&first), "{line}");
        }
    }
}

#[test]
fn markdown_rows_keep_one_cell_per_column() {
    let columns = vec![named("a"), named("b")];
    let rows = vec![vec![Value::Text("|x|\r\n|".to_string()), Value::Text("\\".to_string())]];
    let out = render_markdown(&columns, &rows);
    let last = out.lines().last().unwrap();
    assert_eq!(last, "| \\|x\\|<br>\\| | \\ |");
    let unescaped = last
        .char_indices()
        .filter(|(i, c)| *c == '|' && (*i == 0 || last.as_bytes()[i - 1] != b'\\'))
        .count();
    assert_eq!(unescaped, 3);
}

#[test]
fn sql_text_literals_double_their_quotes() {
    let rows = vec![vec![Value::Text("it's 'quoted'".to_string())]];
    assert_eq!(render_in_clause(&rows, 0), "('it''s ''quoted''')");
}
