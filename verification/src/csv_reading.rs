//! Reading CSV back: a reader of quoted and plain fields, and the proof that what
//! `render_csv` writes under `Always` or `IfNeeded` quoting reads back into its fields.
use vstd::prelude::*;

use crate::csv::{
    converted_text, csv_line, csv_rows, csv_text, delimiter_char, escaped_field, header_fields,
    line_break_text, needs_quotes, null_text, quoted, row_fields, sanitized, CsvOptions, CsvQuote,
};
use crate::laws::{lacks, lemma_lacks_contains};
use crate::text::{has_line_break, join, replace_char};
use crate::value::{value_text, ColumnInfo, Value};

verus! {

// ---------------------------------------------------------------------------
// The reader
// ---------------------------------------------------------------------------

/// Reads the rest of a quoted text, starting just after its opening quote `q`: a doubled
/// `q` stands for one, a single `q` closes the text. Gives the text and what follows the
/// closing quote.
pub open spec fn read_quoted(s: Seq<char>, q: char) -> (Seq<char>, Seq<char>)
    decreases s.len(),
{
    if s.len() == 0 {
        (seq![], seq![])
    } else if s[0] == q {
        if s.len() >= 2 && s[1] == q {
            let (t, r) = read_quoted(s.skip(2), q);
            (seq![q] + t, r)
        } else {
            (seq![], s.skip(1))
        }
    } else {
        let (t, r) = read_quoted(s.skip(1), q);
        (seq![s[0]] + t, r)
    }
}

/// Reads an unquoted field: everything up to the delimiter, a line break or the end.
pub open spec fn read_plain(s: Seq<char>, d: char) -> (Seq<char>, Seq<char>)
    decreases s.len(),
{
    if s.len() == 0 || s[0] == d || s[0] == '\r' || s[0] == '\n' {
        (seq![], s)
    } else {
        let (t, r) = read_plain(s.skip(1), d);
        (seq![s[0]] + t, r)
    }
}

/// Reads one field, quoted when it starts with a double quote.
pub open spec fn read_field(s: Seq<char>, d: char) -> (Seq<char>, Seq<char>) {
    if s.len() > 0 && s[0] == '"' {
        read_quoted(s.skip(1), '"')
    } else {
        read_plain(s, d)
    }
}

/// Reads up to `n` fields separated by the delimiter `d`; stops early when a field is not
/// followed by the delimiter. Gives the fields and what follows the last one.
pub open spec fn read_record(s: Seq<char>, d: char, n: nat) -> (Seq<Seq<char>>, Seq<char>)
    decreases n,
{
    if n == 0 {
        (seq![], s)
    } else {
        let (f, r) = read_field(s, d);
        if n > 1 && r.len() > 0 && r[0] == d {
            let (fs, rest) = read_record(r.skip(1), d, (n - 1) as nat);
            (seq![f] + fs, rest)
        } else {
            (seq![f], r)
        }
    }
}

/// Reads one record per entry of `widths`, each followed by a line break of `lb_len`
/// characters.
pub open spec fn read_records(s: Seq<char>, d: char, lb_len: nat, widths: Seq<nat>) -> Seq<
    Seq<Seq<char>>,
>
    decreases widths.len(),
{
    if widths.len() == 0 {
        seq![]
    } else {
        let (fs, rest) = read_record(s, d, widths[0]);
        seq![fs] + read_records(rest.skip(lb_len as int), d, lb_len, widths.skip(1))
    }
}

// ---------------------------------------------------------------------------
// What a written field stands for
// ---------------------------------------------------------------------------

/// `e` is `f` written so that it reads back: quoted, or plain and free of the delimiter,
/// of double quotes and of line breaks.
pub open spec fn reads_back(e: Seq<char>, f: Seq<char>, d: char) -> bool {
    ||| e == quoted(f)
    ||| (e == f && lacks(f, d) && lacks(f, '"') && lacks(f, '\r') && lacks(f, '\n'))
}

/// What may follow a field: the delimiter, a line break, or nothing.
pub open spec fn field_end(rest: Seq<char>, d: char) -> bool {
    rest.len() == 0 || rest[0] == d || rest[0] == '\r' || rest[0] == '\n'
}

/// The text a cell stands for before quoting: its converted text, or the null text,
/// sanitised.
pub open spec fn cell_source(v: Value, opts: CsvOptions) -> Seq<char> {
    sanitized(
        match value_text(v) {
            None => null_text(opts),
            Some(t) => converted_text(t, opts),
        },
        opts.sanitize_formulas,
    )
}

// ---------------------------------------------------------------------------
// Lemmas
// ---------------------------------------------------------------------------

/// A text with each `q` doubled, then a closing `q`, reads back into the text and stops
/// at the closing quote.
pub proof fn lemma_read_quoted(f: Seq<char>, rest: Seq<char>, q: char)
    requires
        rest.len() == 0 || rest[0] != q,
    ensures
        read_quoted(replace_char(f, q, seq![q, q]) + seq![q] + rest, q) == (f, rest),
    decreases f.len(),
{
    let s = replace_char(f, q, seq![q, q]) + seq![q] + rest;
    if f.len() == 0 {
        assert(replace_char(f, q, seq![q, q]) =~= Seq::<char>::empty());
        assert(s =~= seq![q] + rest);
        assert(s.skip(1) =~= rest);
        assert(f =~= Seq::<char>::empty());
    } else {
        let tail = f.skip(1);
        let r = replace_char(tail, q, seq![q, q]);
        lemma_read_quoted(tail, rest, q);
        if f[0] == q {
            assert(s =~= seq![q, q] + (r + seq![q] + rest));
            assert(s.skip(2) =~= r + seq![q] + rest);
            assert(seq![q] + tail =~= f);
        } else {
            assert(s =~= seq![f[0]] + (r + seq![q] + rest));
            assert(s.skip(1) =~= r + seq![q] + rest);
            assert(seq![f[0]] + tail =~= f);
        }
    }
}

proof fn lemma_read_plain(f: Seq<char>, rest: Seq<char>, d: char)
    requires
        lacks(f, d),
        lacks(f, '\r'),
        lacks(f, '\n'),
        field_end(rest, d),
    ensures
        read_plain(f + rest, d) == (f, rest),
    decreases f.len(),
{
    let s = f + rest;
    if f.len() == 0 {
        assert(s =~= rest);
        assert(f =~= Seq::<char>::empty());
    } else {
        let tail = f.skip(1);
        assert(s[0] == f[0]);
        lemma_read_plain(tail, rest, d);
        assert(s.skip(1) =~= tail + rest);
        assert(seq![f[0]] + tail =~= f);
    }
}

proof fn lemma_read_field(e: Seq<char>, f: Seq<char>, d: char, rest: Seq<char>)
    requires
        reads_back(e, f, d),
        field_end(rest, d),
        d != '"',
    ensures
        read_field(e + rest, d) == (f, rest),
{
    if e == quoted(f) {
        let inner = replace_char(f, '"', seq!['"', '"']);
        assert(e + rest =~= seq!['"'] + (inner + seq!['"'] + rest));
        assert((e + rest).skip(1) =~= inner + seq!['"'] + rest);
        lemma_read_quoted(f, rest, '"');
    } else {
        if e.len() > 0 {
            assert((e + rest)[0] == f[0]);
        } else {
            assert(e + rest =~= rest);
        }
        lemma_read_plain(f, rest, d);
    }
}

/// A joined list of at least two items is its first item, the separator, and the rest joined.
pub proof fn lemma_join_front(list: Seq<Seq<char>>, sep: Seq<char>)
    requires
        list.len() >= 2,
    ensures
        join(list, sep) == list[0] + sep + join(list.skip(1), sep),
    decreases list.len(),
{
    if list.len() == 2 {
        assert(list.drop_last() =~= seq![list[0]]);
        assert(list.skip(1) =~= seq![list[1]]);
        assert(join(list.drop_last(), sep) == list[0]);
        assert(join(list.skip(1), sep) == list[1]);
    } else {
        let init = list.drop_last();
        lemma_join_front(init, sep);
        assert(init.skip(1) =~= list.skip(1).drop_last());
        assert(list.skip(1).last() == list.last());
        assert(join(list.skip(1), sep) == join(init.skip(1), sep) + sep + list.last());
        assert(init[0] == list[0]);
        assert(join(list, sep) =~= list[0] + sep + join(list.skip(1), sep));
    }
}

proof fn lemma_read_record(es: Seq<Seq<char>>, fs: Seq<Seq<char>>, d: char, rest: Seq<char>)
    requires
        es.len() == fs.len(),
        forall|i: int| 0 <= i < es.len() ==> reads_back(#[trigger] es[i], fs[i], d),
        d != '"',
        d != '\r',
        d != '\n',
        rest.len() == 0 || rest[0] == '\r' || rest[0] == '\n',
    ensures
        read_record(join(es, seq![d]) + rest, d, es.len()) == (fs, rest),
    decreases es.len(),
{
    let s = join(es, seq![d]) + rest;
    if es.len() == 0 {
        assert(s =~= rest);
        assert(fs =~= Seq::<Seq<char>>::empty());
    } else if es.len() == 1 {
        assert(reads_back(es[0], fs[0], d));
        lemma_read_field(es[0], fs[0], d, rest);
        assert(fs =~= seq![fs[0]]);
    } else {
        lemma_join_front(es, seq![d]);
        let later = join(es.skip(1), seq![d]) + rest;
        assert(s =~= es[0] + (seq![d] + later));
        assert(reads_back(es[0], fs[0], d));
        lemma_read_field(es[0], fs[0], d, seq![d] + later);
        assert((seq![d] + later).skip(1) =~= later);
        assert forall|i: int| 0 <= i < es.skip(1).len() implies reads_back(
            #[trigger] es.skip(1)[i],
            fs.skip(1)[i],
            d,
        ) by {
            assert(es.skip(1)[i] == es[i + 1]);
            assert(fs.skip(1)[i] == fs[i + 1]);
        }
        lemma_read_record(es.skip(1), fs.skip(1), d, rest);
        assert(seq![fs[0]] + fs.skip(1) =~= fs);
    }
}

proof fn lemma_escaped_reads_back(x: Seq<char>, opts: CsvOptions, had: bool)
    requires
        opts.quote != CsvQuote::Never,
    ensures
        reads_back(
            escaped_field(x, opts, had),
            sanitized(x, opts.sanitize_formulas),
            delimiter_char(opts.delimiter),
        ),
{
    let f = sanitized(x, opts.sanitize_formulas);
    let d = delimiter_char(opts.delimiter);
    if opts.quote == CsvQuote::IfNeeded && !needs_quotes(f, d, had) {
        lemma_lacks_contains(f, d);
        lemma_lacks_contains(f, '"');
        lemma_lacks_contains(f, '\r');
        lemma_lacks_contains(f, '\n');
    }
}

proof fn lemma_delimiter_is_plain(opts: CsvOptions)
    ensures
        delimiter_char(opts.delimiter) != '"',
        delimiter_char(opts.delimiter) != '\r',
        delimiter_char(opts.delimiter) != '\n',
{
}

proof fn lemma_line_break_starts_with_break(opts: CsvOptions, after: Seq<char>)
    ensures
        ({
            let rest = line_break_text(opts.line_break) + after;
            rest[0] == '\r' || rest[0] == '\n'
        }),
{
}

// ---------------------------------------------------------------------------
// Laws
// ---------------------------------------------------------------------------

/// Under `Always` or `IfNeeded` quoting, every written data line reads back, field by
/// field, into the (sanitised, converted) texts of its cells, and the reader stops at the
/// line break, whatever the cells hold: delimiters, quotes and line breaks included.
pub proof fn law_csv_row_reads_back(row: Seq<Value>, opts: CsvOptions, after: Seq<char>)
    requires
        opts.quote != CsvQuote::Never,
    ensures
        read_record(csv_line(row_fields(row, opts), opts) + after, delimiter_char(opts.delimiter), row.len())
            == (row.map_values(|v: Value| cell_source(v, opts)), line_break_text(opts.line_break)
            + after),
{
    let d = delimiter_char(opts.delimiter);
    let es = row_fields(row, opts);
    let fs = row.map_values(|v: Value| cell_source(v, opts));
    assert forall|i: int| 0 <= i < es.len() implies reads_back(#[trigger] es[i], fs[i], d) by {
        let v = row[i];
        match value_text(v) {
            None => lemma_escaped_reads_back(null_text(opts), opts, false),
            Some(t) => lemma_escaped_reads_back(converted_text(t, opts), opts, has_line_break(t)),
        }
    }
    lemma_delimiter_is_plain(opts);
    lemma_line_break_starts_with_break(opts, after);
    let rest = line_break_text(opts.line_break) + after;
    lemma_read_record(es, fs, d, rest);
    assert(csv_line(es, opts) + after =~= join(es, seq![d]) + rest);
}

/// Under `Always` or `IfNeeded` quoting, the header line reads back into the (sanitised)
/// column names.
pub proof fn law_csv_header_reads_back(columns: Seq<ColumnInfo>, opts: CsvOptions, after: Seq<char>)
    requires
        opts.quote != CsvQuote::Never,
    ensures
        read_record(
            csv_line(header_fields(columns, opts), opts) + after,
            delimiter_char(opts.delimiter),
            columns.len(),
        ) == (columns.map_values(|c: ColumnInfo| sanitized(c.name@, opts.sanitize_formulas)),
        line_break_text(opts.line_break) + after),
{
    let d = delimiter_char(opts.delimiter);
    let es = header_fields(columns, opts);
    let fs = columns.map_values(|c: ColumnInfo| sanitized(c.name@, opts.sanitize_formulas));
    assert forall|i: int| 0 <= i < es.len() implies reads_back(#[trigger] es[i], fs[i], d) by {
        lemma_escaped_reads_back(columns[i].name@, opts, false);
    }
    lemma_delimiter_is_plain(opts);
    lemma_line_break_starts_with_break(opts, after);
    let rest = line_break_text(opts.line_break) + after;
    lemma_read_record(es, fs, d, rest);
    assert(csv_line(es, opts) + after =~= join(es, seq![d]) + rest);
}

/// The lines of several rows are the first row's line followed by the lines of the others.
proof fn lemma_csv_rows_front(rows: Seq<Vec<Value>>, opts: CsvOptions)
    requires
        rows.len() >= 1,
    ensures
        csv_rows(rows, opts) == csv_line(row_fields(rows[0]@, opts), opts) + csv_rows(
            rows.skip(1),
            opts,
        ),
    decreases rows.len(),
{
    if rows.len() == 1 {
        assert(rows.drop_last() =~= Seq::<Vec<Value>>::empty());
        assert(rows.skip(1) =~= Seq::<Vec<Value>>::empty());
        assert(csv_rows(rows.drop_last(), opts) == Seq::<char>::empty());
        assert(csv_rows(rows.skip(1), opts) == Seq::<char>::empty());
        assert(rows.last() == rows[0]);
        assert(csv_rows(rows, opts) =~= csv_line(row_fields(rows[0]@, opts), opts));
    } else {
        let init = rows.drop_last();
        lemma_csv_rows_front(init, opts);
        assert(init.skip(1) =~= rows.skip(1).drop_last());
        assert(rows.skip(1).last() == rows.last());
        assert(csv_rows(rows.skip(1), opts) == csv_rows(init.skip(1), opts) + csv_line(
            row_fields(rows.last()@, opts),
            opts,
        ));
        assert(csv_rows(rows, opts) =~= csv_line(row_fields(rows[0]@, opts), opts) + csv_rows(
            rows.skip(1),
            opts,
        ));
    }
}

/// The number of cells of each row.
pub open spec fn row_widths(rows: Seq<Vec<Value>>) -> Seq<nat> {
    rows.map_values(|r: Vec<Value>| r@.len())
}

/// What each row's cells stand for.
pub open spec fn row_sources(rows: Seq<Vec<Value>>, opts: CsvOptions) -> Seq<Seq<Seq<char>>> {
    rows.map_values(|r: Vec<Value>| r@.map_values(|v: Value| cell_source(v, opts)))
}

/// Under `Always` or `IfNeeded` quoting, the data lines read back, line by line and field by
/// field, into what each row's cells stand for, followed by whatever comes after them.
pub proof fn law_csv_rows_read_back(rows: Seq<Vec<Value>>, opts: CsvOptions, after: Seq<char>)
    requires
        opts.quote != CsvQuote::Never,
    ensures
        read_records(
            csv_rows(rows, opts) + after,
            delimiter_char(opts.delimiter),
            line_break_text(opts.line_break).len(),
            row_widths(rows),
        ) == row_sources(rows, opts),
    decreases rows.len(),
{
    let d = delimiter_char(opts.delimiter);
    let lb = line_break_text(opts.line_break);
    if rows.len() == 0 {
        assert(row_widths(rows) =~= Seq::<nat>::empty());
        assert(row_sources(rows, opts) =~= Seq::<Seq<Seq<char>>>::empty());
    } else {
        let rest = rows.skip(1);
        let tail = csv_rows(rest, opts) + after;
        lemma_csv_rows_front(rows, opts);
        assert(csv_rows(rows, opts) + after =~= csv_line(row_fields(rows[0]@, opts), opts)
            + tail);
        law_csv_row_reads_back(rows[0]@, opts, tail);
        assert((lb + tail).skip(lb.len() as int) =~= tail);
        law_csv_rows_read_back(rest, opts, after);
        assert(row_widths(rows).skip(1) =~= row_widths(rest));
        assert(row_widths(rows)[0] == rows[0]@.len());
        assert(row_sources(rows, opts) =~= seq![
            rows[0]@.map_values(|v: Value| cell_source(v, opts)),
        ] + row_sources(rest, opts));
    }
}

/// Under `Always` or `IfNeeded` quoting, a whole CSV document reads back into the
/// (sanitised) column names when there is a header line, then into each row's cells.
pub proof fn law_csv_document_reads_back(
    columns: Seq<ColumnInfo>,
    rows: Seq<Vec<Value>>,
    opts: CsvOptions,
)
    requires
        opts.quote != CsvQuote::Never,
    ensures
        read_records(
            csv_text(columns, rows, opts),
            delimiter_char(opts.delimiter),
            line_break_text(opts.line_break).len(),
            if opts.header_row {
                seq![columns.len()] + row_widths(rows)
            } else {
                row_widths(rows)
            },
        ) == if opts.header_row {
            seq![columns.map_values(|c: ColumnInfo| sanitized(c.name@, opts.sanitize_formulas))]
                + row_sources(rows, opts)
        } else {
            row_sources(rows, opts)
        },
{
    let d = delimiter_char(opts.delimiter);
    let lb = line_break_text(opts.line_break);
    let body = csv_rows(rows, opts);
    law_csv_rows_read_back(rows, opts, seq![]);
    assert(body + seq![] =~= body);
    if opts.header_row {
        law_csv_header_reads_back(columns, opts, body);
        assert((lb + body).skip(lb.len() as int) =~= body);
        let widths = seq![columns.len()] + row_widths(rows);
        assert(widths.skip(1) =~= row_widths(rows));
    } else {
        assert(csv_text(columns, rows, opts) =~= body);
    }
}

} // verus!
