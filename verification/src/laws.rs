//! Properties that hold of every input: what the output formats promise.
use vstd::prelude::*;

use crate::csv::{
    cell_text, converted_text, csv_line, delimiter_char, escaped_field, is_formula_start,
    is_plain_decimal_text, line_break_text, null_text, quoted, row_fields, sanitized, CsvDecimal,
    CsvOptions, CsvQuote,
};
use crate::markdown::markdown_row;
use crate::text::{
    has_line_break, join, replace_char, replace_cr_or_lf, replace_crlf, replace_line_breaks,
};
use crate::csv_reading::{lemma_read_quoted, read_quoted};
use crate::in_clause::{in_clause_literal_text, sql_quoted};
use crate::markdown::markdown_cell_text;
use crate::value::{text_or_null, value_text, Value};

verus! {

// ---------------------------------------------------------------------------
// Helpers on characters absent from a sequence
// ---------------------------------------------------------------------------

/// `x` occurs nowhere in `s`.
pub open spec fn lacks(s: Seq<char>, x: char) -> bool {
    forall|i: int| 0 <= i < s.len() ==> s[i] != x
}

pub proof fn lemma_lacks_contains(s: Seq<char>, x: char)
    ensures
        lacks(s, x) <==> !s.contains(x),
{
    if !lacks(s, x) {
        let i = choose|i: int| 0 <= i < s.len() && s[i] == x;
        assert(s[i] == x);
    }
}

proof fn lemma_lacks_concat(a: Seq<char>, b: Seq<char>, x: char)
    requires
        lacks(a, x),
        lacks(b, x),
    ensures
        lacks(a + b, x),
{
    assert forall|i: int| 0 <= i < (a + b).len() implies (a + b)[i] != x by {
        if i >= a.len() {
            assert((a + b)[i] == b[i - a.len()]);
        }
    }
}

proof fn lemma_replace_char_lacks(s: Seq<char>, c: char, r: Seq<char>, x: char)
    requires
        lacks(r, x),
        forall|i: int| 0 <= i < s.len() && s[i] != c ==> s[i] != x,
    ensures
        lacks(replace_char(s, c, r), x),
    decreases s.len(),
{
    if s.len() > 0 {
        let tail = s.skip(1);
        assert forall|i: int| 0 <= i < tail.len() && tail[i] != c implies tail[i] != x by {
            assert(tail[i] == s[i + 1]);
        }
        lemma_replace_char_lacks(tail, c, r, x);
        let head = if s[0] == c {
            r
        } else {
            seq![s[0]]
        };
        lemma_lacks_concat(head, replace_char(tail, c, r), x);
    }
}

proof fn lemma_replace_crlf_lacks(s: Seq<char>, r: Seq<char>, x: char)
    requires
        lacks(r, x),
        x != '\r',
        x != '\n',
        lacks(s, x),
    ensures
        lacks(replace_crlf(s, r), x),
    decreases s.len(),
{
    if s.len() == 0 {
    } else if s.len() >= 2 && s[0] == '\r' && s[1] == '\n' {
        let tail = s.skip(2);
        assert forall|i: int| 0 <= i < tail.len() implies tail[i] != x by {
            assert(tail[i] == s[i + 2]);
        }
        lemma_replace_crlf_lacks(tail, r, x);
        lemma_lacks_concat(r, replace_crlf(tail, r), x);
    } else {
        let tail = s.skip(1);
        assert forall|i: int| 0 <= i < tail.len() implies tail[i] != x by {
            assert(tail[i] == s[i + 1]);
        }
        lemma_replace_crlf_lacks(tail, r, x);
        lemma_lacks_concat(seq![s[0]], replace_crlf(tail, r), x);
    }
}

proof fn lemma_replace_cr_or_lf_lacks(s: Seq<char>, r: Seq<char>, x: char)
    requires
        lacks(r, x),
        forall|i: int| 0 <= i < s.len() && s[i] != '\r' && s[i] != '\n' ==> s[i] != x,
    ensures
        lacks(replace_cr_or_lf(s, r), x),
    decreases s.len(),
{
    if s.len() > 0 {
        let tail = s.skip(1);
        assert forall|i: int| 0 <= i < tail.len() && tail[i] != '\r' && tail[i] != '\n' implies tail[i]
            != x by {
            assert(tail[i] == s[i + 1]);
        }
        lemma_replace_cr_or_lf_lacks(tail, r, x);
        let head = if s[0] == '\r' || s[0] == '\n' {
            r
        } else {
            seq![s[0]]
        };
        lemma_lacks_concat(head, replace_cr_or_lf(tail, r), x);
    }
}

/// Replacing every line break by a text without line breaks leaves none.
pub proof fn lemma_replace_line_breaks_removes_breaks(s: Seq<char>, r: Seq<char>)
    requires
        !has_line_break(r),
    ensures
        !has_line_break(replace_line_breaks(s, r)),
{
    lemma_lacks_contains(r, '\r');
    lemma_lacks_contains(r, '\n');
    let t = replace_crlf(s, r);
    lemma_replace_cr_or_lf_lacks(t, r, '\r');
    lemma_replace_cr_or_lf_lacks(t, r, '\n');
    lemma_lacks_contains(replace_line_breaks(s, r), '\r');
    lemma_lacks_contains(replace_line_breaks(s, r), '\n');
}

proof fn lemma_quoted_lacks(s: Seq<char>, x: char)
    requires
        lacks(s, x),
        x != '"',
    ensures
        lacks(quoted(s), x),
{
    lemma_replace_char_lacks(s, '"', seq!['"', '"'], x);
    lemma_lacks_concat(seq!['"'], replace_char(s, '"', seq!['"', '"']), x);
    lemma_lacks_concat(seq!['"'] + replace_char(s, '"', seq!['"', '"']), seq!['"'], x);
}

proof fn lemma_escaped_field_lacks(field: Seq<char>, opts: CsvOptions, had: bool, x: char)
    requires
        lacks(field, x),
        x != '"',
        x != '\'',
    ensures
        lacks(escaped_field(field, opts, had), x),
{
    let f = sanitized(field, opts.sanitize_formulas);
    if f != field {
        lemma_lacks_concat(seq!['\''], field, x);
    }
    lemma_quoted_lacks(f, x);
}

proof fn lemma_join_lacks(list: Seq<Seq<char>>, sep: Seq<char>, x: char)
    requires
        lacks(sep, x),
        forall|i: int| 0 <= i < list.len() ==> lacks(#[trigger] list[i], x),
    ensures
        lacks(join(list, sep), x),
    decreases list.len(),
{
    if list.len() > 1 {
        let init = list.drop_last();
        assert forall|i: int| 0 <= i < init.len() implies lacks(#[trigger] init[i], x) by {
            assert(init[i] == list[i]);
        }
        lemma_join_lacks(init, sep, x);
        lemma_lacks_concat(join(init, sep), sep, x);
        assert(lacks(list.last(), x));
        lemma_lacks_concat(join(init, sep) + sep, list.last(), x);
    } else if list.len() == 1 {
        assert(lacks(list[0], x));
    }
}

proof fn lemma_join_has_no_line_break(list: Seq<Seq<char>>, sep: Seq<char>)
    requires
        !has_line_break(sep),
        forall|i: int| 0 <= i < list.len() ==> !has_line_break(#[trigger] list[i]),
    ensures
        !has_line_break(join(list, sep)),
{
    lemma_lacks_contains(sep, '\r');
    lemma_lacks_contains(sep, '\n');
    assert forall|i: int| 0 <= i < list.len() implies lacks(#[trigger] list[i], '\r') && lacks(
        list[i],
        '\n',
    ) by {
        lemma_lacks_contains(list[i], '\r');
        lemma_lacks_contains(list[i], '\n');
    }
    lemma_join_lacks(list, sep, '\r');
    lemma_join_lacks(list, sep, '\n');
    lemma_lacks_contains(join(list, sep), '\r');
    lemma_lacks_contains(join(list, sep), '\n');
}

proof fn lemma_replace_by_one_char(s: Seq<char>, c: char, x: char)
    ensures
        replace_char(s, c, seq![x]).len() == s.len(),
        forall|i: int|
            0 <= i < s.len() ==> #[trigger] replace_char(s, c, seq![x])[i] == if s[i] == c {
                x
            } else {
                s[i]
            },
    decreases s.len(),
{
    if s.len() > 0 {
        let tail = s.skip(1);
        lemma_replace_by_one_char(tail, c, x);
        let r = replace_char(s, c, seq![x]);
        assert forall|i: int| 0 <= i < s.len() implies #[trigger] r[i] == if s[i] == c {
            x
        } else {
            s[i]
        } by {
            if i > 0 {
                assert(r[i] == replace_char(tail, c, seq![x])[i - 1]);
                assert(tail[i - 1] == s[i]);
            }
        }
    }
}

// ---------------------------------------------------------------------------
// Laws
// ---------------------------------------------------------------------------

/// The text of a value is missing for `Null` and for nothing else, and a text value's
/// text is the whole of it, never cut short.
pub proof fn law_text_missing_only_for_null(v: Value)
    ensures
        value_text(v) is None <==> v is Null,
        v matches Value::Text(s) ==> value_text(v) == Some(s@),
{
}

/// With formula sanitising on, no written field starts with `=`, `+`, `-` or `@`, so no
/// spreadsheet reads it as a formula, whichever quoting is chosen.
pub proof fn law_sanitized_field_starts_no_formula(field: Seq<char>, opts: CsvOptions, had: bool)
    requires
        opts.sanitize_formulas,
    ensures
        escaped_field(field, opts, had).len() > 0 ==> !is_formula_start(
            escaped_field(field, opts, had)[0],
        ),
{
    let f = sanitized(field, opts.sanitize_formulas);
    assert(quoted(f)[0] == '"');
}

/// With `line_break_to_space`, no written cell holds a carriage return or a line feed.
pub proof fn law_line_break_to_space_leaves_no_breaks(v: Value, opts: CsvOptions)
    requires
        opts.line_break_to_space,
    ensures
        !has_line_break(cell_text(v, opts)),
{
    match value_text(v) {
        None => {
            let n = null_text(opts);
            assert(lacks(n, '\r') && lacks(n, '\n'));
            lemma_escaped_field_lacks(n, opts, false, '\r');
            lemma_escaped_field_lacks(n, opts, false, '\n');
        },
        Some(t) => {
            let t1 = replace_line_breaks(t, seq![' ']);
            lemma_replace_line_breaks_removes_breaks(t, seq![' ']);
            lemma_lacks_contains(t1, '\r');
            lemma_lacks_contains(t1, '\n');
            let t2 = converted_text(t, opts);
            if t2 != t1 {
                lemma_replace_char_lacks(t1, '.', seq![','], '\r');
                lemma_replace_char_lacks(t1, '.', seq![','], '\n');
            }
            lemma_escaped_field_lacks(t2, opts, has_line_break(t), '\r');
            lemma_escaped_field_lacks(t2, opts, has_line_break(t), '\n');
        },
    }
    lemma_lacks_contains(cell_text(v, opts), '\r');
    lemma_lacks_contains(cell_text(v, opts), '\n');
}

/// Under `IfNeeded`, a value whose raw text held a line break is quoted, even when
/// `line_break_to_space` has turned the break into a space.
pub proof fn law_if_needed_quotes_multi_line_values(v: Value, opts: CsvOptions)
    requires
        opts.quote == CsvQuote::IfNeeded,
        value_text(v) matches Some(t) && has_line_break(t),
    ensures
        cell_text(v, opts) == quoted(
            sanitized(converted_text(value_text(v)->0, opts), opts.sanitize_formulas),
        ),
{
}

/// Under `IfNeeded`, a field that holds the delimiter, a double quote or a line break is
/// quoted, and a field that holds none of them (and had no line break) is written as it is.
pub proof fn law_if_needed_quotes_exactly_when_needed(field: Seq<char>, opts: CsvOptions, had: bool)
    requires
        opts.quote == CsvQuote::IfNeeded,
    ensures
        ({
            let f = sanitized(field, opts.sanitize_formulas);
            let special = f.contains(delimiter_char(opts.delimiter)) || f.contains('"')
                || has_line_break(f) || had;
            &&& special ==> escaped_field(field, opts, had) == quoted(f)
            &&& !special ==> escaped_field(field, opts, had) == f
        }),
{
}

/// Every `|` of `s`, except perhaps a first one, comes right after a backslash.
pub open spec fn pipes_escaped_after_start(s: Seq<char>) -> bool {
    forall|i: int| 0 < i < s.len() && #[trigger] s[i] == '|' ==> s[i - 1] == '\\'
}

/// Every `|` of `s` comes right after a backslash.
pub open spec fn pipes_escaped(s: Seq<char>) -> bool {
    &&& pipes_escaped_after_start(s)
    &&& (s.len() > 0 ==> s[0] != '|')
}

proof fn lemma_pipes_escaped_concat(a: Seq<char>, b: Seq<char>)
    requires
        pipes_escaped_after_start(a),
        pipes_escaped_after_start(b),
        b.len() > 0 && b[0] == '|' ==> a.len() > 0 && a.last() == '\\',
    ensures
        pipes_escaped_after_start(a + b),
{
    let s = a + b;
    assert forall|i: int| 0 < i < s.len() && #[trigger] s[i] == '|' implies s[i - 1] == '\\' by {
        if i > a.len() {
            assert(s[i] == b[i - a.len()]);
            assert(s[i - 1] == b[i - 1 - a.len()]);
        } else if i == a.len() {
            assert(s[i] == b[0]);
            assert(s[i - 1] == a.last());
        } else {
            assert(s[i] == a[i]);
            assert(s[i - 1] == a[i - 1]);
        }
    }
}

proof fn lemma_escape_pipes(t: Seq<char>)
    ensures
        pipes_escaped(replace_char(t, '|', seq!['\\', '|'])),
    decreases t.len(),
{
    if t.len() > 0 {
        let tail = t.skip(1);
        let r = replace_char(tail, '|', seq!['\\', '|']);
        lemma_escape_pipes(tail);
        let h = if t[0] == '|' {
            seq!['\\', '|']
        } else {
            seq![t[0]]
        };
        lemma_pipes_escaped_concat(h, r);
        assert((h + r)[0] == h[0]);
    }
}

proof fn lemma_crlf_keeps_pipes_escaped(s: Seq<char>, r: Seq<char>)
    requires
        pipes_escaped_after_start(s),
        lacks(r, '|'),
        r.len() > 0,
    ensures
        pipes_escaped_after_start(replace_crlf(s, r)),
        replace_crlf(s, r).len() > 0 && replace_crlf(s, r)[0] == '|' ==> s.len() > 0 && s[0]
            == '|',
    decreases s.len(),
{
    if s.len() > 0 {
        let k: int = if s.len() >= 2 && s[0] == '\r' && s[1] == '\n' {
            2
        } else {
            1
        };
        let tail = s.skip(k);
        assert forall|i: int| 0 < i < tail.len() && #[trigger] tail[i] == '|' implies tail[i - 1] == '\\' by {
            assert(tail[i] == s[i + k]);
            assert(tail[i - 1] == s[i + k - 1]);
        }
        lemma_crlf_keeps_pipes_escaped(tail, r);
        let rt = replace_crlf(tail, r);
        let h = if k == 2 {
            r
        } else {
            seq![s[0]]
        };
        assert(replace_crlf(s, r) == h + rt);
        if rt.len() > 0 && rt[0] == '|' {
            assert(s[k] == '|');
            assert(s[k - 1] == '\\');
        }
        assert(pipes_escaped_after_start(h));
        lemma_pipes_escaped_concat(h, rt);
        assert((h + rt)[0] == h[0]);
    }
}

proof fn lemma_cr_or_lf_keeps_pipes_escaped(s: Seq<char>, r: Seq<char>)
    requires
        pipes_escaped_after_start(s),
        lacks(r, '|'),
        r.len() > 0,
    ensures
        pipes_escaped_after_start(replace_cr_or_lf(s, r)),
        replace_cr_or_lf(s, r).len() > 0 && replace_cr_or_lf(s, r)[0] == '|' ==> s.len() > 0
            && s[0] == '|',
    decreases s.len(),
{
    if s.len() > 0 {
        let tail = s.skip(1);
        assert forall|i: int| 0 < i < tail.len() && #[trigger] tail[i] == '|' implies tail[i - 1] == '\\' by {
            assert(tail[i] == s[i + 1]);
            assert(tail[i - 1] == s[i]);
        }
        lemma_cr_or_lf_keeps_pipes_escaped(tail, r);
        let rt = replace_cr_or_lf(tail, r);
        let h = if s[0] == '\r' || s[0] == '\n' {
            r
        } else {
            seq![s[0]]
        };
        if rt.len() > 0 && rt[0] == '|' {
            assert(s[1] == '|');
        }
        assert(pipes_escaped_after_start(h));
        lemma_pipes_escaped_concat(h, rt);
        assert((h + rt)[0] == h[0]);
    }
}

/// A Markdown cell holds no line break, and every `|` in it is escaped by a backslash,
/// so a cell never ends the table row or splits into two cells.
pub proof fn law_markdown_cell_is_one_cell(v: Value)
    ensures
        !has_line_break(markdown_cell_text(v)),
        pipes_escaped(markdown_cell_text(v)),
{
    let br = seq!['<', 'b', 'r', '>'];
    let piped = replace_char(text_or_null(v), '|', seq!['\\', '|']);
    assert(lacks(br, '\r') && lacks(br, '\n') && lacks(br, '|'));
    lemma_lacks_contains(br, '\r');
    lemma_lacks_contains(br, '\n');
    lemma_replace_line_breaks_removes_breaks(piped, br);
    lemma_escape_pipes(text_or_null(v));
    lemma_crlf_keeps_pipes_escaped(piped, br);
    let c = replace_crlf(piped, br);
    lemma_cr_or_lf_keeps_pipes_escaped(c, br);
}

/// With `line_break_to_space`, each data row is exactly one line: the only line break
/// of its line is the one that ends it.
pub proof fn law_csv_row_is_one_line(row: Seq<Value>, opts: CsvOptions)
    requires
        opts.line_break_to_space,
    ensures
        csv_line(row_fields(row, opts), opts) == join(
            row_fields(row, opts),
            seq![delimiter_char(opts.delimiter)],
        ) + line_break_text(opts.line_break),
        !has_line_break(join(row_fields(row, opts), seq![delimiter_char(opts.delimiter)])),
{
    let fields = row_fields(row, opts);
    assert forall|i: int| 0 <= i < fields.len() implies !has_line_break(#[trigger] fields[i]) by {
        law_line_break_to_space_leaves_no_breaks(row[i], opts);
    }
    let d = seq![delimiter_char(opts.delimiter)];
    assert(lacks(d, '\r') && lacks(d, '\n'));
    lemma_lacks_contains(d, '\r');
    lemma_lacks_contains(d, '\n');
    lemma_join_has_no_line_break(fields, d);
}

/// Each data row of a Markdown table is exactly one line.
pub proof fn law_markdown_row_is_one_line(row: Seq<Value>)
    ensures
        !has_line_break(markdown_row(row)),
{
    let cells = row.map_values(|v: Value| markdown_cell_text(v));
    assert forall|i: int| 0 <= i < cells.len() implies !has_line_break(#[trigger] cells[i]) by {
        law_markdown_cell_is_one_cell(row[i]);
    }
    let sep = seq![' ', '|', ' '];
    assert(lacks(sep, '\r') && lacks(sep, '\n'));
    lemma_lacks_contains(sep, '\r');
    lemma_lacks_contains(sep, '\n');
    lemma_join_has_no_line_break(cells, sep);
    let j = join(cells, sep);
    lemma_lacks_contains(j, '\r');
    lemma_lacks_contains(j, '\n');
    let open = seq!['|', ' '];
    let close = seq![' ', '|'];
    assert(lacks(open, '\r') && lacks(open, '\n') && lacks(close, '\r') && lacks(close, '\n'));
    lemma_lacks_concat(open, j, '\r');
    lemma_lacks_concat(open, j, '\n');
    lemma_lacks_concat(open + j, close, '\r');
    lemma_lacks_concat(open + j, close, '\n');
    lemma_lacks_contains(markdown_row(row), '\r');
    lemma_lacks_contains(markdown_row(row), '\n');
}

/// With the decimal comma, a plain decimal keeps its length and every character but its
/// dot, which becomes a comma; any other text is left as it is.
pub proof fn law_decimal_comma_changes_only_the_dot(t: Seq<char>, opts: CsvOptions)
    requires
        !opts.line_break_to_space,
        opts.decimal == CsvDecimal::Comma,
    ensures
        is_plain_decimal_text(t) ==> converted_text(t, opts).len() == t.len() && forall|i: int|
            0 <= i < t.len() ==> #[trigger] converted_text(t, opts)[i] == if t[i] == '.' {
                ','
            } else {
                t[i]
            },
        !is_plain_decimal_text(t) ==> converted_text(t, opts) == t,
{
    lemma_replace_by_one_char(t, '.', ',');
}

/// A text between single quotes, each single quote inside doubled, reads back into the
/// text and ends at its closing quote, whatever quotes the text holds.
pub proof fn law_sql_literal_reads_back(s: Seq<char>, rest: Seq<char>)
    requires
        rest.len() == 0 || rest[0] != '\'',
    ensures
        sql_quoted(s)[0] == '\'',
        read_quoted(sql_quoted(s).skip(1) + rest, '\'') == (s, rest),
{
    let inner = replace_char(s, '\'', seq!['\'', '\'']);
    assert(sql_quoted(s).skip(1) + rest =~= inner + seq!['\''] + rest);
    lemma_read_quoted(s, rest, '\'');
}

/// In an `IN` list, the literal of a value that is written as quoted text (anything but
/// nulls, binary values, booleans and numbers) reads back into the value's full text.
pub proof fn law_in_clause_text_literal_reads_back(v: Value, rest: Seq<char>)
    requires
        !(v is Null || v is Bytes || v is Bool || v is Int || v is Float || v is Decimal),
        rest.len() == 0 || rest[0] != '\'',
    ensures
        in_clause_literal_text(v) matches Some(l) && l[0] == '\'' && read_quoted(
            l.skip(1) + rest,
            '\'',
        ) == (value_text(v)->0, rest),
{
    law_sql_literal_reads_back(value_text(v)->0, rest);
}

} // verus!
