//! Markdown table rendering.
use vstd::prelude::*;

use crate::text::{
    join, join_strings, push_str, replace_char, replace_char_exec, replace_line_breaks,
    replace_line_breaks_exec, views,
};
use crate::value::{column_names, text_or_null, value_text_or_null, ColumnInfo, Value};

verus! {

/// A cell of a Markdown table: pipes escaped with a backslash, line breaks as `<br>`.
pub open spec fn markdown_cell_text(v: Value) -> Seq<char> {
    replace_line_breaks(
        replace_char(text_or_null(v), '|', seq!['\\', '|']),
        seq!['<', 'b', 'r', '>'],
    )
}

/// One table line: `| a | b |`.
pub open spec fn markdown_line(cells: Seq<Seq<char>>) -> Seq<char> {
    seq!['|', ' '] + join(cells, seq![' ', '|', ' ']) + seq![' ', '|']
}

/// The separator cells, one `---` per column.
pub open spec fn separator_cells(n: nat) -> Seq<Seq<char>> {
    Seq::new(n, |i: int| seq!['-', '-', '-'])
}

/// One line per row of cells.
pub open spec fn markdown_row(row: Seq<Value>) -> Seq<char> {
    markdown_line(row.map_values(|v: Value| markdown_cell_text(v)))
}

/// The header line, the separator line, then one line per row.
pub open spec fn markdown_lines(columns: Seq<ColumnInfo>, rows: Seq<Vec<Value>>) -> Seq<Seq<char>> {
    seq![
        markdown_line(column_names(columns)),
        markdown_line(separator_cells(columns.len())),
    ] + rows.map_values(|r: Vec<Value>| markdown_row(r@))
}

/// The table: its lines joined by `\n`, with no line break after the last one.
pub open spec fn markdown_text(columns: Seq<ColumnInfo>, rows: Seq<Vec<Value>>) -> Seq<char> {
    join(markdown_lines(columns, rows), seq!['\n'])
}

fn markdown_cell(value: &Value) -> (res: String)
    ensures
        res@ == markdown_cell_text(*value),
{
    let text = value_text_or_null(value);
    let escaped_pipe = "\\|";
    let br = "<br>";
    proof {
        reveal_strlit("\\|");
        reveal_strlit("<br>");
    }
    assert(escaped_pipe@ =~= seq!['\\', '|']);
    assert(br@ =~= seq!['<', 'b', 'r', '>']);
    let piped = replace_char_exec(text.as_str(), '|', escaped_pipe);
    replace_line_breaks_exec(piped.as_str(), br)
}

/// `| cells joined by " | " |`.
fn table_line(cells: &Vec<String>) -> (res: String)
    ensures
        res@ == markdown_line(views(cells@)),
{
    let open = "| ";
    let sep = " | ";
    let close = " |";
    proof {
        reveal_strlit("| ");
        reveal_strlit(" | ");
        reveal_strlit(" |");
    }
    assert(open@ =~= seq!['|', ' ']);
    assert(sep@ =~= seq![' ', '|', ' ']);
    assert(close@ =~= seq![' ', '|']);
    let mut out = String::new();
    push_str(&mut out, open);
    let body = join_strings(cells, sep);
    push_str(&mut out, body.as_str());
    push_str(&mut out, close);
    assert(out@ =~= markdown_line(views(cells@)));
    out
}

/// Renders a result set as a Markdown table.
pub fn render_markdown(columns: &[ColumnInfo], rows: &[Vec<Value>]) -> (res: String)
    ensures
        res@ == markdown_text(columns@, rows@),
{
    let dashes = "---";
    proof {
        reveal_strlit("---");
    }
    assert(dashes@ =~= seq!['-', '-', '-']);
    let mut names: Vec<String> = Vec::new();
    let mut separator: Vec<String> = Vec::new();
    for i in 0..columns.len()
        invariant
            names@.len() == i,
            separator@.len() == i,
            dashes@ == seq!['-', '-', '-'],
            forall|j: int| 0 <= j < i ==> (#[trigger] names@[j])@ == columns@[j].name@,
            forall|j: int| 0 <= j < i ==> (#[trigger] separator@[j])@ == seq!['-', '-', '-'],
    {
        names.push(columns[i].name.clone());
        separator.push(String::from_str(dashes));
    }
    assert(views(names@) =~= column_names(columns@));
    assert(views(separator@) =~= separator_cells(columns@.len()));
    let mut lines: Vec<String> = Vec::new();
    lines.push(table_line(&names));
    lines.push(table_line(&separator));
    for r in 0..rows.len()
        invariant
            lines@.len() == 2 + r,
            lines@[0]@ == markdown_line(column_names(columns@)),
            lines@[1]@ == markdown_line(separator_cells(columns@.len())),
            forall|j: int| 0 <= j < r ==> (#[trigger] lines@[2 + j])@ == markdown_row(rows@[j]@),
    {
        let row = &rows[r];
        let mut cells: Vec<String> = Vec::new();
        for i in 0..row.len()
            invariant
                cells@.len() == i,
                forall|j: int| 0 <= j < i ==> (#[trigger] cells@[j])@ == markdown_cell_text(row@[j]),
        {
            cells.push(markdown_cell(&row[i]));
        }
        assert(views(cells@) =~= row@.map_values(|v: Value| markdown_cell_text(v)));
        lines.push(table_line(&cells));
    }
    assert(views(lines@) =~= markdown_lines(columns@, rows@)) by {
        let want = markdown_lines(columns@, rows@);
        assert forall|j: int| 0 <= j < lines@.len() implies views(lines@)[j] == want[j] by {
            if j >= 2 {
                assert(lines@[2 + (j - 2)] == lines@[j]);
            }
        }
    }
    let newline = "\n";
    proof {
        reveal_strlit("\n");
    }
    assert(newline@ =~= seq!['\n']);
    join_strings(&lines, newline)
}

} // verus!
