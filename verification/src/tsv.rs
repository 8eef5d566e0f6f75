//! Tab-separated rendering, as pasted into spreadsheets.
use vstd::prelude::*;

use crate::text::{join, join_strings, views};
use crate::value::{column_names, text_or_null, value_text_or_null, ColumnInfo, Value};

verus! {

/// One line of tab-separated values: each cell's text, `NULL` for nulls.
pub open spec fn tsv_row(row: Seq<Value>) -> Seq<char> {
    join(row.map_values(|v: Value| text_or_null(v)), seq!['\t'])
}

/// The lines: the column names when asked for, then one line per row.
pub open spec fn tsv_lines(columns: Seq<ColumnInfo>, rows: Seq<Vec<Value>>, with_headers: bool) -> Seq<
    Seq<char>,
> {
    (if with_headers {
        seq![join(column_names(columns), seq!['\t'])]
    } else {
        Seq::<Seq<char>>::empty()
    }) + rows.map_values(|r: Vec<Value>| tsv_row(r@))
}

/// The whole text: the lines joined by `\n`, with no line break after the last one.
pub open spec fn tsv_text(columns: Seq<ColumnInfo>, rows: Seq<Vec<Value>>, with_headers: bool) -> Seq<
    char,
> {
    join(tsv_lines(columns, rows, with_headers), seq!['\n'])
}

/// Renders a result set as tab-separated text; column names are written as they are.
pub fn render_tsv(columns: &[ColumnInfo], rows: &[Vec<Value>], with_headers: bool) -> (res: String)
    ensures
        res@ == tsv_text(columns@, rows@, with_headers),
{
    let tab = "\t";
    let newline = "\n";
    proof {
        reveal_strlit("\t");
        reveal_strlit("\n");
    }
    assert(tab@ =~= seq!['\t']);
    assert(newline@ =~= seq!['\n']);
    let mut lines: Vec<String> = Vec::new();
    if with_headers {
        let mut names: Vec<String> = Vec::new();
        for i in 0..columns.len()
            invariant
                names@.len() == i,
                forall|j: int| 0 <= j < i ==> (#[trigger] names@[j])@ == columns@[j].name@,
        {
            names.push(columns[i].name.clone());
        }
        assert(views(names@) =~= column_names(columns@));
        lines.push(join_strings(&names, tab));
    }
    let ghost base = lines@.len();
    let ghost head = views(lines@);
    for r in 0..rows.len()
        invariant
            lines@.len() == base + r,
            base == (if with_headers { 1int } else { 0int }),
            head.len() == base,
            with_headers ==> head[0] == join(column_names(columns@), seq!['\t']),
            forall|j: int| 0 <= j < base ==> (#[trigger] lines@[j])@ == head[j],
            forall|j: int| 0 <= j < r ==> (#[trigger] lines@[base + j])@ == tsv_row(rows@[j]@),
            tab@ == seq!['\t'],
    {
        let row = &rows[r];
        let mut cells: Vec<String> = Vec::new();
        for i in 0..row.len()
            invariant
                cells@.len() == i,
                forall|j: int| 0 <= j < i ==> (#[trigger] cells@[j])@ == text_or_null(row@[j]),
        {
            cells.push(value_text_or_null(&row[i]));
        }
        assert(views(cells@) =~= row@.map_values(|v: Value| text_or_null(v)));
        lines.push(join_strings(&cells, tab));
    }
    assert(views(lines@) =~= tsv_lines(columns@, rows@, with_headers)) by {
        let want = tsv_lines(columns@, rows@, with_headers);
        assert forall|j: int| 0 <= j < lines@.len() implies views(lines@)[j] == want[j] by {
            if j >= base {
                assert(lines@[base + (j - base)] == lines@[j]);
            }
        }
    }
    join_strings(&lines, newline)
}

} // verus!
