//! What each renderer does with each input, stated over the inputs themselves: which
//! fields are changed, which cell text comes from which value, and in which order the
//! rows and cells appear.
use vstd::prelude::*;

use crate::csv::{
    cell_text, converted_text, csv_line, csv_text, delimiter_char, escaped_field, header_fields,
    is_plain_decimal_text, row_fields, sanitized, CsvDecimal, CsvOptions, CsvQuote,
};
use crate::in_clause::{in_clause_literal_text, in_clause_literals, in_clause_text};
use crate::json::{json_of, row_entry, JsonModel};
use crate::markdown::{markdown_cell_text, markdown_line, markdown_row, markdown_text, separator_cells};
use crate::text::{
    has_line_break, int_text, join, replace_char, replace_cr_or_lf, replace_crlf,
    replace_line_breaks,
};
use crate::tsv::{tsv_row, tsv_text};
use crate::value::{column_names, value_text, ColumnInfo, Value};

verus! {

// ---------------------------------------------------------------------------
// Lemmas
// ---------------------------------------------------------------------------

proof fn lemma_join_push(list: Seq<Seq<char>>, sep: Seq<char>, x: Seq<char>)
    ensures
        join(list.push(x), sep) == if list.len() == 0 {
            x
        } else {
            join(list, sep) + sep + x
        },
{
    let l = list.push(x);
    assert(l.drop_last() =~= list);
    assert(l.last() == x);
    if list.len() == 0 {
        assert(l =~= seq![x]);
    }
}

proof fn lemma_map_push<A, B>(s: Seq<A>, x: A, f: spec_fn(A) -> B)
    ensures
        s.push(x).map_values(f) == s.map_values(f).push(f(x)),
{
    assert(s.push(x).map_values(f) =~= s.map_values(f).push(f(x)));
}

proof fn lemma_replace_char_absent(s: Seq<char>, c: char, r: Seq<char>)
    requires
        !s.contains(c),
    ensures
        replace_char(s, c, r) == s,
    decreases s.len(),
{
    if s.len() > 0 {
        let tail = s.skip(1);
        assert(!tail.contains(c)) by {
            if tail.contains(c) {
                let i = choose|i: int| 0 <= i < tail.len() && tail[i] == c;
                assert(s[i + 1] == c);
            }
        }
        lemma_replace_char_absent(tail, c, r);
        assert(s[0] != c) by {
            if s[0] == c {
                assert(s.contains(c));
            }
        }
        assert(seq![s[0]] + tail =~= s);
    }
}

proof fn lemma_no_line_break_tail(s: Seq<char>)
    requires
        s.len() > 0,
        !has_line_break(s),
    ensures
        !has_line_break(s.skip(1)),
        s[0] != '\r' && s[0] != '\n',
{
    let tail = s.skip(1);
    if tail.contains('\n') {
        let i = choose|i: int| 0 <= i < tail.len() && tail[i] == '\n';
        assert(s[i + 1] == '\n');
        assert(s.contains('\n'));
    }
    if tail.contains('\r') {
        let i = choose|i: int| 0 <= i < tail.len() && tail[i] == '\r';
        assert(s[i + 1] == '\r');
        assert(s.contains('\r'));
    }
    if s[0] == '\r' {
        assert(s.contains('\r'));
    }
    if s[0] == '\n' {
        assert(s.contains('\n'));
    }
}

proof fn lemma_crlf_absent(s: Seq<char>, r: Seq<char>)
    requires
        !has_line_break(s),
    ensures
        replace_crlf(s, r) == s,
    decreases s.len(),
{
    if s.len() > 0 {
        lemma_no_line_break_tail(s);
        lemma_crlf_absent(s.skip(1), r);
        assert(seq![s[0]] + s.skip(1) =~= s);
    }
}

proof fn lemma_cr_or_lf_absent(s: Seq<char>, r: Seq<char>)
    requires
        !has_line_break(s),
    ensures
        replace_cr_or_lf(s, r) == s,
    decreases s.len(),
{
    if s.len() > 0 {
        lemma_no_line_break_tail(s);
        lemma_cr_or_lf_absent(s.skip(1), r);
        assert(seq![s[0]] + s.skip(1) =~= s);
    }
}

/// Replacing line breaks in a text that has none leaves it as it is.
pub proof fn lemma_replace_line_breaks_absent(s: Seq<char>, r: Seq<char>)
    requires
        !has_line_break(s),
    ensures
        replace_line_breaks(s, r) == s,
{
    lemma_crlf_absent(s, r);
    lemma_cr_or_lf_absent(s, r);
}

// ---------------------------------------------------------------------------
// CSV
// ---------------------------------------------------------------------------

/// Sanitising puts a `'` in front of a field exactly when sanitising is on and the field's
/// first character is `=`, `+`, `-` or `@`; every other field is kept unchanged. Under
/// `Never` quoting that is the whole of what is written.
pub proof fn law_sanitize_only_formula_starts(f: Seq<char>, opts: CsvOptions, had: bool)
    ensures
        ({
            let starts_formula = f.len() > 0 && (f[0] == '=' || f[0] == '+' || f[0] == '-' || f[0]
                == '@');
            &&& (opts.sanitize_formulas && starts_formula) ==> sanitized(f, opts.sanitize_formulas)
                == seq!['\''] + f
            &&& !(opts.sanitize_formulas && starts_formula) ==> sanitized(
                f,
                opts.sanitize_formulas,
            ) == f
            &&& opts.quote == CsvQuote::Never ==> escaped_field(f, opts, had) == if opts.sanitize_formulas
                && starts_formula {
                seq!['\''] + f
            } else {
                f
            }
        }),
{
}

/// Under `IfNeeded` quoting, a field with no delimiter, double quote or line break, whose raw
/// value had no line break and which does not start a formula, is written exactly as it is.
pub proof fn law_if_needed_keeps_plain_fields(f: Seq<char>, opts: CsvOptions)
    requires
        opts.quote == CsvQuote::IfNeeded,
        !f.contains(delimiter_char(opts.delimiter)),
        !f.contains('"'),
        !has_line_break(f),
        f.len() == 0 || !(f[0] == '=' || f[0] == '+' || f[0] == '-' || f[0] == '@'),
    ensures
        escaped_field(f, opts, false) == f,
{
}

/// Line-break and decimal conversion leave a text alone unless it holds a line break that
/// is to become a space, or it is a plain decimal that is to get a comma.
pub proof fn law_conversion_keeps_other_text(t: Seq<char>, opts: CsvOptions)
    requires
        !opts.line_break_to_space || !has_line_break(t),
        opts.decimal == CsvDecimal::Period || !is_plain_decimal_text(t),
    ensures
        converted_text(t, opts) == t,
{
    if opts.line_break_to_space {
        lemma_replace_line_breaks_absent(t, seq![' ']);
    }
}

/// A text cell with nothing to quote, convert or sanitise is written as its text; with the
/// default options a date-like or e-mail-like text is written unchanged.
pub proof fn law_csv_plain_text_cell_is_its_text(s: String, opts: CsvOptions)
    requires
        opts.quote != CsvQuote::Always,
        !s@.contains(delimiter_char(opts.delimiter)),
        !s@.contains('"'),
        !has_line_break(s@),
        s@.len() == 0 || !(s@[0] == '=' || s@[0] == '+' || s@[0] == '-' || s@[0] == '@'),
        opts.decimal == CsvDecimal::Period || !is_plain_decimal_text(s@),
    ensures
        cell_text(Value::Text(s), opts) == s@,
{
    law_conversion_keeps_other_text(s@, opts);
}

/// A null cell is written as nothing, or as `NULL`, sanitised and quoted like any field.
pub proof fn law_csv_null_cell(opts: CsvOptions)
    ensures
        cell_text(Value::Null, opts) == escaped_field(
            if opts.null_to_empty {
                seq![]
            } else {
                seq!['N', 'U', 'L', 'L']
            },
            opts,
            false,
        ),
{
}

/// Without rows, a CSV document is the header line when one is asked for, else nothing;
/// the header line holds each column name written as a field, in column order.
pub proof fn law_csv_without_rows(columns: Seq<ColumnInfo>, opts: CsvOptions)
    ensures
        csv_text(columns, seq![], opts) == if opts.header_row {
            csv_line(header_fields(columns, opts), opts)
        } else {
            seq![]
        },
        header_fields(columns, opts).len() == columns.len(),
        forall|i: int|
            0 <= i < columns.len() ==> #[trigger] header_fields(columns, opts)[i] == escaped_field(
                columns[i].name@,
                opts,
                false,
            ),
{
    assert(csv_text(columns, seq![], opts) =~= if opts.header_row {
        csv_line(header_fields(columns, opts), opts)
    } else {
        seq![]
    });
}

/// One more row adds one more line at the end, for that row, after the lines of the
/// earlier rows.
pub proof fn law_csv_rows_in_order(
    columns: Seq<ColumnInfo>,
    rows: Seq<Vec<Value>>,
    r: Vec<Value>,
    opts: CsvOptions,
)
    ensures
        csv_text(columns, rows.push(r), opts) == csv_text(columns, rows, opts) + csv_line(
            row_fields(r@, opts),
            opts,
        ),
{
    assert(rows.push(r).drop_last() =~= rows);
    assert(csv_text(columns, rows.push(r), opts) =~= csv_text(columns, rows, opts) + csv_line(
        row_fields(r@, opts),
        opts,
    ));
}

/// Within a line, one more cell adds its written field at the end, after a delimiter.
pub proof fn law_csv_cells_in_order(row: Seq<Value>, v: Value, opts: CsvOptions)
    ensures
        row_fields(row.push(v), opts) == row_fields(row, opts).push(cell_text(v, opts)),
        row_fields(row, opts).len() == row.len(),
        forall|i: int| 0 <= i < row.len() ==> #[trigger] row_fields(row, opts)[i] == cell_text(row[i], opts),
{
    lemma_map_push(row, v, |x: Value| cell_text(x, opts));
}

// ---------------------------------------------------------------------------
// TSV
// ---------------------------------------------------------------------------

/// The TSV text of a cell: a value's full text, and `NULL` only for a null.
pub open spec fn tsv_cell_of(v: Value) -> Seq<char> {
    match value_text(v) {
        Some(t) => t,
        None => seq!['N', 'U', 'L', 'L'],
    }
}

/// A TSV line is its cells in order, each the value's full text (an empty text gives an
/// empty cell, only a null gives `NULL`), separated by tabs.
pub proof fn law_tsv_cells_in_order(row: Seq<Value>, v: Value)
    ensures
        tsv_row(seq![v]) == tsv_cell_of(v),
        tsv_row(row.push(v)) == if row.len() == 0 {
            tsv_cell_of(v)
        } else {
            tsv_row(row) + seq!['\t'] + tsv_cell_of(v)
        },
{
    let f = |x: Value| crate::value::text_or_null(x);
    lemma_map_push(row, v, f);
    lemma_join_push(row.map_values(f), seq!['\t'], f(v));
    assert(seq![v].map_values(f) =~= seq![f(v)]);
}

/// Without rows, the TSV text is the tab-joined column names, or nothing.
pub proof fn law_tsv_without_rows(columns: Seq<ColumnInfo>, with_headers: bool)
    ensures
        tsv_text(columns, seq![], with_headers) == if with_headers {
            join(column_names(columns), seq!['\t'])
        } else {
            seq![]
        },
{
    let lines = crate::tsv::tsv_lines(columns, seq![], with_headers);
    if with_headers {
        assert(lines =~= seq![join(column_names(columns), seq!['\t'])]);
    } else {
        assert(lines =~= Seq::<Seq<char>>::empty());
    }
}

/// One more row adds its line at the end, after a line feed when something came before.
pub proof fn law_tsv_rows_in_order(
    columns: Seq<ColumnInfo>,
    rows: Seq<Vec<Value>>,
    r: Vec<Value>,
    with_headers: bool,
)
    ensures
        tsv_text(columns, rows.push(r), with_headers) == if with_headers || rows.len() > 0 {
            tsv_text(columns, rows, with_headers) + seq!['\n'] + tsv_row(r@)
        } else {
            tsv_row(r@)
        },
{
    let g = |x: Vec<Value>| tsv_row(x@);
    let head = if with_headers {
        seq![join(column_names(columns), seq!['\t'])]
    } else {
        Seq::<Seq<char>>::empty()
    };
    lemma_map_push(rows, r, g);
    let before = crate::tsv::tsv_lines(columns, rows, with_headers);
    assert(crate::tsv::tsv_lines(columns, rows.push(r), with_headers) =~= before.push(tsv_row(r@)));
    lemma_join_push(before, seq!['\n'], tsv_row(r@));
}

// ---------------------------------------------------------------------------
// Markdown
// ---------------------------------------------------------------------------

/// Without rows, a Markdown table is its header line and its separator line.
pub proof fn law_markdown_without_rows(columns: Seq<ColumnInfo>)
    ensures
        markdown_text(columns, seq![]) == markdown_line(column_names(columns)) + seq!['\n']
            + markdown_line(separator_cells(columns.len())),
{
    let lines = crate::markdown::markdown_lines(columns, seq![]);
    let a = markdown_line(column_names(columns));
    let b = markdown_line(separator_cells(columns.len()));
    assert(lines =~= seq![a].push(b));
    lemma_join_push(seq![a], seq!['\n'], b);
    assert(join(seq![a], seq!['\n']) == a);
}

/// One more row adds its line at the end of the table, after a line feed: the data lines
/// keep the order of the rows.
pub proof fn law_markdown_rows_in_order(columns: Seq<ColumnInfo>, rows: Seq<Vec<Value>>, r: Vec<Value>)
    ensures
        markdown_text(columns, rows.push(r)) == markdown_text(columns, rows) + seq!['\n']
            + markdown_row(r@),
{
    let g = |x: Vec<Value>| markdown_row(x@);
    lemma_map_push(rows, r, g);
    let before = crate::markdown::markdown_lines(columns, rows);
    assert(crate::markdown::markdown_lines(columns, rows.push(r)) =~= before.push(
        markdown_row(r@),
    ));
    lemma_join_push(before, seq!['\n'], markdown_row(r@));
}

/// A Markdown row is `| `, its cells in order separated by ` | `, then ` |`.
pub proof fn law_markdown_cells_in_order(row: Seq<Value>, v: Value)
    ensures
        markdown_row(seq![v]) == seq!['|', ' '] + markdown_cell_text(v) + seq![' ', '|'],
        row.len() > 0 ==> markdown_row(row.push(v)) == markdown_row(row).take(
            markdown_row(row).len() - 2,
        ) + seq![' ', '|', ' '] + markdown_cell_text(v) + seq![' ', '|'],
{
    let f = |x: Value| markdown_cell_text(x);
    lemma_map_push(row, v, f);
    assert(seq![v].map_values(f) =~= seq![f(v)]);
    let cells = row.map_values(f);
    lemma_join_push(cells, seq![' ', '|', ' '], f(v));
    if row.len() > 0 {
        let old_line = markdown_row(row);
        let j = join(cells, seq![' ', '|', ' ']);
        assert(old_line.take(old_line.len() - 2) =~= seq!['|', ' '] + j);
        assert(markdown_row(row.push(v)) =~= seq!['|', ' '] + j + seq![' ', '|', ' '] + f(v)
            + seq![' ', '|']);
    }
}

/// A cell whose text holds no pipe and no line break is written as that text.
pub proof fn law_markdown_plain_cell_is_its_text(v: Value)
    requires
        value_text(v) matches Some(t) && !t.contains('|') && !has_line_break(t),
    ensures
        markdown_cell_text(v) == value_text(v)->0,
{
    let t = value_text(v)->0;
    lemma_replace_char_absent(t, '|', seq!['\\', '|']);
    lemma_replace_line_breaks_absent(t, seq!['<', 'b', 'r', '>']);
}

// ---------------------------------------------------------------------------
// SQL IN lists
// ---------------------------------------------------------------------------

/// The literals come from column `col` of each row, in row order: one more row adds the
/// literal of its cell at `col`, if it has that cell and the cell has a literal.
pub proof fn law_in_clause_column_in_order(rows: Seq<Vec<Value>>, r: Vec<Value>, col: int)
    ensures
        in_clause_literals(rows.push(r), col) == if 0 <= col < r@.len() && in_clause_literal_text(
            r@[col],
        ) is Some {
            in_clause_literals(rows, col).push(in_clause_literal_text(r@[col])->0)
        } else {
            in_clause_literals(rows, col)
        },
{
    assert(rows.push(r).drop_last() =~= rows);
}

/// A single row gives the list of its cell at `col`, whatever its other cells hold.
pub proof fn law_in_clause_single_row(row: Vec<Value>, col: int)
    ensures
        in_clause_text(seq![row], col) == if 0 <= col < row@.len() && in_clause_literal_text(
            row@[col],
        ) is Some {
            seq!['('] + in_clause_literal_text(row@[col])->0 + seq![')']
        } else {
            seq!['(', ')']
        },
{
    let rows = seq![row];
    assert(rows.drop_last() =~= Seq::<Vec<Value>>::empty());
    assert(in_clause_literals(rows.drop_last(), col) == Seq::<Seq<char>>::empty());
    assert(rows.last() == row);
    let lits = in_clause_literals(rows, col);
    if 0 <= col < row@.len() && in_clause_literal_text(row@[col]) is Some {
        assert(lits =~= seq![in_clause_literal_text(row@[col])->0]);
        assert(join(lits, seq![',', ' ']) == in_clause_literal_text(row@[col])->0);
    } else {
        assert(lits =~= Seq::<Seq<char>>::empty());
    }
    assert(in_clause_text(rows, col) =~= seq!['('] + join(lits, seq![',', ' ']) + seq![')']);
}

/// Nulls and binary values have no literal; booleans are `TRUE`/`FALSE`; integers are
/// their digits; any other value is its full text between single quotes, quotes doubled.
pub proof fn law_in_clause_literal_kinds(v: Value)
    ensures
        (v is Null || v is Bytes) ==> in_clause_literal_text(v) is None,
        v matches Value::Bool(b) ==> in_clause_literal_text(v) == Some(
            if b {
                seq!['T', 'R', 'U', 'E']
            } else {
                seq!['F', 'A', 'L', 'S', 'E']
            },
        ),
        v matches Value::Int(i) ==> in_clause_literal_text(v) == Some(int_text(i as int)),
        (v is Float || v is Decimal) ==> in_clause_literal_text(v) == value_text(v),
        !(v is Null || v is Bytes || v is Bool || v is Int || v is Float || v is Decimal)
            ==> in_clause_literal_text(v) == Some(
            seq!['\''] + replace_char(value_text(v)->0, '\'', seq!['\'', '\'']) + seq!['\''],
        ),
{
}

// ---------------------------------------------------------------------------
// JSON
// ---------------------------------------------------------------------------

/// Each kind of cell has its JSON value: nulls, booleans, integers and floats as
/// themselves, JSON documents as they are, and every other value except decimals (texts,
/// bytes, dates, times, UUIDs) as a string of its full text.
pub proof fn law_json_value_kinds(v: Value)
    ensures
        v is Null ==> json_of(v) == JsonModel::Null,
        v matches Value::Bool(b) ==> json_of(v) == JsonModel::Bool(b),
        v matches Value::Int(i) ==> json_of(v) == JsonModel::Int(i as int),
        v matches Value::Float(t) ==> json_of(v) == JsonModel::Float(t@),
        v matches Value::Json(t) ==> json_of(v) == JsonModel::Document(t@),
        v matches Value::Text(s) ==> json_of(v) == JsonModel::Str(s@),
        !(v is Null || v is Bool || v is Int || v is Float || v is Decimal || v is Json)
            ==> json_of(v) == JsonModel::Str(value_text(v)->0),
{
}

/// The entry of column `i` of a row is keyed by the column's name and holds the JSON
/// value of the row's cell `i`, or `null` when the row has no such cell.
pub proof fn law_row_json_entries(columns: Seq<ColumnInfo>, row: Seq<Value>, i: int)
    requires
        0 <= i < columns.len(),
    ensures
        row_entry(columns, row, i).0 == columns[i].name@,
        i < row.len() ==> row_entry(columns, row, i).1 == json_of(row[i]),
        i >= row.len() ==> row_entry(columns, row, i).1 == JsonModel::Null,
        i < row.len() ==> (row[i] matches Value::Text(s) ==> row_entry(columns, row, i).1
            == JsonModel::Str(s@)),
{
}

} // verus!
