//! CSV rendering: field escaping, formula sanitising, decimal commas and line breaks.
use vstd::prelude::*;

use crate::text::{
    chars_of, has_char, has_line_break, has_line_break_exec, join, join_strings, push_char, push_str,
    replace_char, replace_char_exec, replace_line_breaks, replace_line_breaks_exec, views,
};
use crate::value::{value_text, value_to_text, ColumnInfo, Value};

verus! {

#[derive(Debug, Clone, Copy, PartialEq, Eq, Structural)]
pub enum CsvDelimiter {
    Comma,
    Semicolon,
    Tab,
    Pipe,
}

#[derive(Debug, Clone, Copy, PartialEq, Eq, Structural)]
pub enum CsvQuote {
    Always,
    IfNeeded,
    Never,
}

#[derive(Debug, Clone, Copy, PartialEq, Eq, Structural)]
pub enum CsvLineBreak {
    Lf,
    CrLf,
    Cr,
}

#[derive(Debug, Clone, Copy, PartialEq, Eq, Structural)]
pub enum CsvDecimal {
    Period,
    Comma,
}

#[derive(Debug, Clone, PartialEq, Eq, Structural)]
pub struct CsvOptions {
    pub null_to_empty: bool,
    pub line_break_to_space: bool,
    pub header_row: bool,
    pub sanitize_formulas: bool,
    pub delimiter: CsvDelimiter,
    pub quote: CsvQuote,
    pub line_break: CsvLineBreak,
    pub decimal: CsvDecimal,
}

// ---------------------------------------------------------------------------
// Specifications
// ---------------------------------------------------------------------------

/// The character that separates fields.
pub open spec fn delimiter_char(d: CsvDelimiter) -> char {
    match d {
        CsvDelimiter::Comma => ',',
        CsvDelimiter::Semicolon => ';',
        CsvDelimiter::Tab => '\t',
        CsvDelimiter::Pipe => '|',
    }
}

/// The characters that end a line.
pub open spec fn line_break_text(l: CsvLineBreak) -> Seq<char> {
    match l {
        CsvLineBreak::Lf => seq!['\n'],
        CsvLineBreak::CrLf => seq!['\r', '\n'],
        CsvLineBreak::Cr => seq!['\r'],
    }
}

/// Characters with which a spreadsheet starts a formula.
pub open spec fn is_formula_start(c: char) -> bool {
    c == '=' || c == '+' || c == '-' || c == '@'
}

/// `field` with a `'` in front when sanitising is on and the field starts a formula.
pub open spec fn sanitized(field: Seq<char>, sanitize: bool) -> Seq<char> {
    if sanitize && field.len() > 0 && is_formula_start(field[0]) {
        seq!['\''] + field
    } else {
        field
    }
}

/// `s` between double quotes, each double quote inside doubled.
pub open spec fn quoted(s: Seq<char>) -> Seq<char> {
    seq!['"'] + replace_char(s, '"', seq!['"', '"']) + seq!['"']
}

/// Whether a field must be quoted under `IfNeeded`: it holds the delimiter, a double
/// quote or a line break, or its raw value held a line break.
pub open spec fn needs_quotes(field: Seq<char>, delim: char, had_line_breaks: bool) -> bool {
    field.contains(delim) || field.contains('"') || has_line_break(field) || had_line_breaks
}

/// A field as it is written to the file.
pub open spec fn escaped_field(field: Seq<char>, opts: CsvOptions, had_line_breaks: bool) -> Seq<
    char,
> {
    let f = sanitized(field, opts.sanitize_formulas);
    match opts.quote {
        CsvQuote::Always => quoted(f),
        CsvQuote::Never => f,
        CsvQuote::IfNeeded => if needs_quotes(f, delimiter_char(opts.delimiter), had_line_breaks) {
            quoted(f)
        } else {
            f
        },
    }
}

pub open spec fn is_ascii_digit(c: char) -> bool {
    '0' <= c <= '9'
}

pub open spec fn all_ascii_digits(s: Seq<char>) -> bool {
    forall|i: int| 0 <= i < s.len() ==> is_ascii_digit(#[trigger] s[i])
}

/// `s` without one leading `+` or `-`.
pub open spec fn unsigned_part(s: Seq<char>) -> Seq<char> {
    if s.len() > 0 && (s[0] == '+' || s[0] == '-') {
        s.skip(1)
    } else {
        s
    }
}

/// An optional sign, then one or more digits, a dot, and one or more digits.
pub open spec fn is_plain_decimal_text(s: Seq<char>) -> bool {
    is_unsigned_plain_decimal(unsigned_part(s))
}

/// The text of a null cell before escaping.
pub open spec fn null_text(opts: CsvOptions) -> Seq<char> {
    if opts.null_to_empty {
        seq![]
    } else {
        seq!['N', 'U', 'L', 'L']
    }
}

/// The text of a non-null cell after line-break and decimal conversion, before escaping.
pub open spec fn converted_text(text: Seq<char>, opts: CsvOptions) -> Seq<char> {
    let t1 = if opts.line_break_to_space {
        replace_line_breaks(text, seq![' '])
    } else {
        text
    };
    if opts.decimal == CsvDecimal::Comma && is_plain_decimal_text(t1) {
        replace_char(t1, '.', seq![','])
    } else {
        t1
    }
}

/// A cell as it is written to the file.
pub open spec fn cell_text(v: Value, opts: CsvOptions) -> Seq<char> {
    match value_text(v) {
        None => escaped_field(null_text(opts), opts, false),
        Some(t) => escaped_field(converted_text(t, opts), opts, has_line_break(t)),
    }
}

/// One line: the fields joined by the delimiter, then the line break.
pub open spec fn csv_line(fields: Seq<Seq<char>>, opts: CsvOptions) -> Seq<char> {
    join(fields, seq![delimiter_char(opts.delimiter)]) + line_break_text(opts.line_break)
}

/// The header fields: each column name escaped.
pub open spec fn header_fields(columns: Seq<ColumnInfo>, opts: CsvOptions) -> Seq<Seq<char>> {
    columns.map_values(|c: ColumnInfo| escaped_field(c.name@, opts, false))
}

/// The fields of one row.
pub open spec fn row_fields(row: Seq<Value>, opts: CsvOptions) -> Seq<Seq<char>> {
    row.map_values(|v: Value| cell_text(v, opts))
}

/// The lines of all rows, in order.
pub open spec fn csv_rows(rows: Seq<Vec<Value>>, opts: CsvOptions) -> Seq<char>
    decreases rows.len(),
{
    if rows.len() == 0 {
        seq![]
    } else {
        csv_rows(rows.drop_last(), opts) + csv_line(row_fields(rows.last()@, opts), opts)
    }
}

/// The whole document: the header line when asked for, then one line per row.
pub open spec fn csv_text(columns: Seq<ColumnInfo>, rows: Seq<Vec<Value>>, opts: CsvOptions) -> Seq<
    char,
> {
    (if opts.header_row {
        csv_line(header_fields(columns, opts), opts)
    } else {
        seq![]
    }) + csv_rows(rows, opts)
}

// ---------------------------------------------------------------------------
// Executable code
// ---------------------------------------------------------------------------

impl CsvDelimiter {
    pub const ALL: [CsvDelimiter; 4] = [
        CsvDelimiter::Comma,
        CsvDelimiter::Semicolon,
        CsvDelimiter::Tab,
        CsvDelimiter::Pipe,
    ];

    pub fn as_str(self) -> (s: &'static str)
        ensures
            s@ == seq![delimiter_char(self)],
    {
        match self {
            CsvDelimiter::Comma => {
                proof {
                    reveal_strlit(",");
                }
                ","
            },
            CsvDelimiter::Semicolon => {
                proof {
                    reveal_strlit(";");
                }
                ";"
            },
            CsvDelimiter::Tab => {
                proof {
                    reveal_strlit("\t");
                }
                "\t"
            },
            CsvDelimiter::Pipe => {
                proof {
                    reveal_strlit("|");
                }
                "|"
            },
        }
    }
}

impl CsvQuote {
    pub const ALL: [CsvQuote; 3] = [CsvQuote::Always, CsvQuote::IfNeeded, CsvQuote::Never];
}

impl CsvLineBreak {
    pub const ALL: [CsvLineBreak; 3] = [CsvLineBreak::Lf, CsvLineBreak::CrLf, CsvLineBreak::Cr];

    pub fn as_str(self) -> (s: &'static str)
        ensures
            s@ == line_break_text(self),
    {
        match self {
            CsvLineBreak::Lf => {
                proof {
                    reveal_strlit("\n");
                }
                "\n"
            },
            CsvLineBreak::CrLf => {
                proof {
                    reveal_strlit("\r\n");
                }
                "\r\n"
            },
            CsvLineBreak::Cr => {
                proof {
                    reveal_strlit("\r");
                }
                "\r"
            },
        }
    }
}

impl CsvDecimal {
    pub const ALL: [CsvDecimal; 2] = [CsvDecimal::Period, CsvDecimal::Comma];
}

impl Default for CsvOptions {
    fn default() -> (o: Self)
        ensures
            o == (CsvOptions {
                null_to_empty: true,
                line_break_to_space: false,
                header_row: true,
                sanitize_formulas: true,
                delimiter: CsvDelimiter::Comma,
                quote: CsvQuote::IfNeeded,
                line_break: CsvLineBreak::Lf,
                decimal: CsvDecimal::Period,
            }),
    {
        CsvOptions {
            null_to_empty: true,
            line_break_to_space: false,
            header_row: true,
            sanitize_formulas: true,
            delimiter: CsvDelimiter::Comma,
            quote: CsvQuote::IfNeeded,
            line_break: CsvLineBreak::Lf,
            decimal: CsvDecimal::Period,
        }
    }
}

fn is_digit(c: char) -> (r: bool)
    ensures
        r == is_ascii_digit(c),
{
    '0' <= c && c <= '9'
}

/// Whether `u` is one or more digits, a dot, and one or more digits.
pub open spec fn is_unsigned_plain_decimal(u: Seq<char>) -> bool {
    exists|k: int|
        0 < k < u.len() - 1 && #[trigger] u[k] == '.' && all_ascii_digits(u.take(k))
            && all_ascii_digits(u.skip(k + 1))
}

proof fn lemma_no_dot_not_plain(u: Seq<char>)
    requires
        forall|j: int| 0 <= j < u.len() ==> u[j] != '.',
    ensures
        !is_unsigned_plain_decimal(u),
{
}

proof fn lemma_first_dot_decides(u: Seq<char>, dot: int)
    requires
        0 <= dot < u.len(),
        u[dot] == '.',
        forall|j: int| 0 <= j < dot ==> u[j] != '.',
    ensures
        is_unsigned_plain_decimal(u) == (0 < dot < u.len() - 1 && all_ascii_digits(u.take(dot))
            && all_ascii_digits(u.skip(dot + 1))),
{
    if is_unsigned_plain_decimal(u) {
        let w = choose|k: int|
            0 < k < u.len() - 1 && #[trigger] u[k] == '.' && all_ascii_digits(u.take(k))
                && all_ascii_digits(u.skip(k + 1));
        if w > dot {
            assert(u.take(w)[dot] == '.');
            assert(!is_ascii_digit(u.take(w)[dot]));
        }
        assert(w == dot);
    }
}

fn first_dot(cs: &Vec<char>, from: usize) -> (k: usize)
    requires
        from <= cs@.len(),
    ensures
        from <= k <= cs@.len(),
        forall|j: int| from <= j < k ==> cs@[j] != '.',
        k < cs@.len() ==> cs@[k as int] == '.',
{
    let mut k = from;
    while k < cs.len() && cs[k] != '.'
        invariant
            from <= k <= cs@.len(),
            forall|j: int| from <= j < k ==> cs@[j] != '.',
        decreases cs@.len() - k,
    {
        k = k + 1;
    }
    k
}

fn digits_between(cs: &Vec<char>, lo: usize, hi: usize) -> (r: bool)
    requires
        lo <= hi <= cs@.len(),
    ensures
        r == all_ascii_digits(cs@.subrange(lo as int, hi as int)),
{
    let mut j = lo;
    while j < hi
        invariant
            lo <= j <= hi <= cs@.len(),
            forall|q: int| lo <= q < j ==> is_ascii_digit(#[trigger] cs@[q]),
        decreases hi - j,
    {
        if !is_digit(cs[j]) {
            assert(cs@.subrange(lo as int, hi as int)[j - lo] == cs@[j as int]);
            return false;
        }
        j = j + 1;
    }
    assert forall|i: int| 0 <= i < hi - lo implies is_ascii_digit(
        #[trigger] cs@.subrange(lo as int, hi as int)[i],
    ) by {
        assert(cs@.subrange(lo as int, hi as int)[i] == cs@[lo + i]);
    }
    true
}

/// Whether `s` is a plain decimal number: an optional sign, digits, a dot, digits.
pub fn is_plain_decimal(s: &str) -> (res: bool)
    ensures
        res == is_plain_decimal_text(s@),
{
    let cs = chars_of(s);
    let n = cs.len();
    let start: usize = if n > 0 && (cs[0] == '+' || cs[0] == '-') {
        1
    } else {
        0
    };
    let ghost u = unsigned_part(s@);
    assert(u =~= cs@.subrange(start as int, n as int));
    let k = first_dot(&cs, start);
    if k == n {
        proof {
            assert forall|j: int| 0 <= j < u.len() implies u[j] != '.' by {
                assert(u[j] == cs@[start + j]);
            }
            lemma_no_dot_not_plain(u);
        }
        return false;
    }
    proof {
        assert forall|j: int| 0 <= j < k - start implies u[j] != '.' by {
            assert(u[j] == cs@[start + j]);
        }
        assert(u[k - start] == cs@[k as int]);
        lemma_first_dot_decides(u, k - start);
        assert(u.take(k - start) =~= cs@.subrange(start as int, k as int));
        assert(u.skip(k - start + 1) =~= cs@.subrange(k + 1, n as int));
    }
    if k == start || k + 1 == n {
        return false;
    }
    digits_between(&cs, start, k) && digits_between(&cs, k + 1, n)
}

/// `field` between double quotes, inner double quotes doubled.
fn quote_field(field: &str) -> (res: String)
    ensures
        res@ == quoted(field@),
{
    let mut out = String::new();
    push_char(&mut out, '"');
    let doubled = "\"\"";
    proof {
        reveal_strlit("\"\"");
    }
    assert(doubled@ =~= seq!['"', '"']);
    let inner = replace_char_exec(field, '"', doubled);
    push_str(&mut out, inner.as_str());
    push_char(&mut out, '"');
    assert(out@ =~= quoted(field@));
    out
}

/// Escapes one field. `had_line_breaks` carries whether the raw value contained a line
/// break before `line_break_to_space` scrubbed it, so `IfNeeded` still quotes a converted
/// multi-line value even though the resulting text no longer contains `\n`/`\r` itself.
fn escape_field(field: &str, opts: &CsvOptions, had_line_breaks: bool) -> (res: String)
    ensures
        res@ == escaped_field(field@, *opts, had_line_breaks),
{
    let cs = chars_of(field);
    let mut f = String::new();
    if opts.sanitize_formulas && cs.len() > 0 && (cs[0] == '=' || cs[0] == '+' || cs[0] == '-'
        || cs[0] == '@') {
        push_char(&mut f, '\'');
    }
    push_str(&mut f, field);
    assert(f@ =~= sanitized(field@, opts.sanitize_formulas));
    match opts.quote {
        CsvQuote::Always => quote_field(f.as_str()),
        CsvQuote::Never => f,
        CsvQuote::IfNeeded => {
            let delim = opts.delimiter.as_str();
            let dcs = chars_of(delim);
            let d = dcs[0];
            if has_char(f.as_str(), d) || has_char(f.as_str(), '"') || has_line_break_exec(
                f.as_str(),
            ) || had_line_breaks {
                quote_field(f.as_str())
            } else {
                f
            }
        },
    }
}


/// One cell of a data row, converted and escaped.
fn format_cell(value: &Value, opts: &CsvOptions) -> (res: String)
    ensures
        res@ == cell_text(*value, *opts),
{
    match value_to_text(value) {
        None => {
            let empty = if opts.null_to_empty {
                String::new()
            } else {
                proof {
                    reveal_strlit("NULL");
                }
                String::from_str("NULL")
            };
            assert(empty@ =~= null_text(*opts));
            escape_field(empty.as_str(), opts, false)
        },
        Some(text) => {
            let had_line_breaks = has_line_break_exec(text.as_str());
            let space = " ";
            proof {
                reveal_strlit(" ");
            }
            assert(space@ =~= seq![' ']);
            let t1 = if opts.line_break_to_space {
                replace_line_breaks_exec(text.as_str(), space)
            } else {
                text
            };
            let comma = match opts.decimal {
                CsvDecimal::Comma => true,
                CsvDecimal::Period => false,
            };
            let comma_str = ",";
            proof {
                reveal_strlit(",");
            }
            assert(comma_str@ =~= seq![',']);
            let t2 = if comma && is_plain_decimal(t1.as_str()) {
                replace_char_exec(t1.as_str(), '.', comma_str)
            } else {
                t1
            };
            assert(comma == (opts.decimal == CsvDecimal::Comma));
            assert(t2@ == converted_text(text@, *opts));
            escape_field(t2.as_str(), opts, had_line_breaks)
        },
    }
}

/// Renders a result set as CSV with the given options.
pub fn render_csv(columns: &[ColumnInfo], rows: &[Vec<Value>], opts: &CsvOptions) -> (res: String)
    ensures
        res@ == csv_text(columns@, rows@, *opts),
{
    let delim = opts.delimiter.as_str();
    let line_break = opts.line_break.as_str();
    let mut out = String::new();
    if opts.header_row {
        let mut header: Vec<String> = Vec::new();
        for i in 0..columns.len()
            invariant
                header@.len() == i,
                forall|j: int|
                    0 <= j < i ==> (#[trigger] header@[j])@ == escaped_field(
                        columns@[j].name@,
                        *opts,
                        false,
                    ),
        {
            header.push(escape_field(columns[i].name.as_str(), opts, false));
        }
        assert(views(header@) =~= header_fields(columns@, *opts));
        let line = join_strings(&header, delim);
        push_str(&mut out, line.as_str());
        push_str(&mut out, line_break);
    }
    let ghost head = out@;
    assert(rows@.take(0) =~= Seq::<Vec<Value>>::empty());
    for r in 0..rows.len()
        invariant
            out@ == head + csv_rows(rows@.take(r as int), *opts),
            delim@ == seq![delimiter_char(opts.delimiter)],
            line_break@ == line_break_text(opts.line_break),
    {
        let row = &rows[r];
        let mut cells: Vec<String> = Vec::new();
        for i in 0..row.len()
            invariant
                cells@.len() == i,
                forall|j: int|
                    0 <= j < i ==> (#[trigger] cells@[j])@ == cell_text(row@[j], *opts),
        {
            cells.push(format_cell(&row[i], opts));
        }
        assert(views(cells@) =~= row_fields(row@, *opts));
        let line = join_strings(&cells, delim);
        push_str(&mut out, line.as_str());
        push_str(&mut out, line_break);
        assert(rows@.take(r + 1).drop_last() =~= rows@.take(r as int));
        assert(out@ =~= head + csv_rows(rows@.take(r + 1), *opts));
    }
    assert(rows@.take(rows@.len() as int) =~= rows@);
    out
}

} // verus!
