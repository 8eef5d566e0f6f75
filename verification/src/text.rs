//! Character-sequence helpers shared by every output format: the mathematical
//! meaning of joining, replacing and number rendering, and the executable
//! routines proved to compute them.
use vstd::prelude::*;

verus! {

// ---------------------------------------------------------------------------
// Specifications
// ---------------------------------------------------------------------------

/// `list` joined with `sep` between consecutive items.
pub open spec fn join(list: Seq<Seq<char>>, sep: Seq<char>) -> Seq<char>
    decreases list.len(),
{
    if list.len() == 0 {
        seq![]
    } else if list.len() == 1 {
        list[0]
    } else {
        join(list.drop_last(), sep) + sep + list.last()
    }
}

/// The views of a sequence of strings.
pub open spec fn views(list: Seq<String>) -> Seq<Seq<char>> {
    list.map_values(|s: String| s@)
}

/// `s` with every occurrence of the character `c` replaced by `r`.
pub open spec fn replace_char(s: Seq<char>, c: char, r: Seq<char>) -> Seq<char>
    decreases s.len(),
{
    if s.len() == 0 {
        seq![]
    } else {
        (if s[0] == c {
            r
        } else {
            seq![s[0]]
        }) + replace_char(s.skip(1), c, r)
    }
}

/// `s` with every `"\r\n"` pair replaced by `r`, scanning from the left.
pub open spec fn replace_crlf(s: Seq<char>, r: Seq<char>) -> Seq<char>
    decreases s.len(),
{
    if s.len() == 0 {
        seq![]
    } else if s.len() >= 2 && s[0] == '\r' && s[1] == '\n' {
        r + replace_crlf(s.skip(2), r)
    } else {
        seq![s[0]] + replace_crlf(s.skip(1), r)
    }
}

/// `s` with every single `'\r'` and every single `'\n'` replaced by `r`.
pub open spec fn replace_cr_or_lf(s: Seq<char>, r: Seq<char>) -> Seq<char>
    decreases s.len(),
{
    if s.len() == 0 {
        seq![]
    } else {
        (if s[0] == '\r' || s[0] == '\n' {
            r
        } else {
            seq![s[0]]
        }) + replace_cr_or_lf(s.skip(1), r)
    }
}

/// Every line break of `s` (a `"\r\n"` pair, or a lone `'\r'` or `'\n'`) replaced by `r`:
/// first the pairs, then what is left.
pub open spec fn replace_line_breaks(s: Seq<char>, r: Seq<char>) -> Seq<char> {
    replace_cr_or_lf(replace_crlf(s, r), r)
}

/// Whether `s` holds a carriage return or a line feed.
pub open spec fn has_line_break(s: Seq<char>) -> bool {
    s.contains('\n') || s.contains('\r')
}

/// The ASCII character of a digit value below sixteen (lower-case letters above nine).
pub open spec fn digit_char(d: int) -> char {
    if d < 10 {
        (48 + d) as char
    } else {
        (87 + d) as char
    }
}

/// Decimal digits of a natural number, most significant first, no leading zeros.
pub open spec fn nat_text(n: nat) -> Seq<char>
    decreases n,
{
    if n < 10 {
        seq![digit_char(n as int)]
    } else {
        nat_text(n / 10) + seq![digit_char((n % 10) as int)]
    }
}

/// Decimal text of an integer: a `-` before the digits of negative numbers.
pub open spec fn int_text(i: int) -> Seq<char> {
    if i < 0 {
        seq!['-'] + nat_text((-i) as nat)
    } else {
        nat_text(i as nat)
    }
}

/// `n` copies of the digit zero.
pub open spec fn zeros(n: nat) -> Seq<char> {
    Seq::new(n, |i: int| '0')
}

/// The decimal digits of `n`, with zeros in front up to at least `width` characters.
pub open spec fn padded(n: nat, width: nat) -> Seq<char> {
    let t = nat_text(n);
    if t.len() < width {
        zeros((width - t.len()) as nat) + t
    } else {
        t
    }
}

/// Two lower-case hexadecimal digits per byte, most significant nibble first.
pub open spec fn hex_text(b: Seq<u8>) -> Seq<char>
    decreases b.len(),
{
    if b.len() == 0 {
        seq![]
    } else {
        seq![digit_char((b[0] / 16) as int), digit_char((b[0] % 16) as int)] + hex_text(b.skip(1))
    }
}

// ---------------------------------------------------------------------------
// Lemmas
// ---------------------------------------------------------------------------

pub proof fn lemma_skip_skip<A>(s: Seq<A>, i: int, k: int)
    requires
        0 <= i,
        0 <= k,
        i + k <= s.len(),
    ensures
        s.skip(i).skip(k) == s.skip(i + k),
{
    assert(s.skip(i).skip(k) =~= s.skip(i + k));
}

pub proof fn lemma_skip_all<A>(s: Seq<A>)
    ensures
        s.skip(s.len() as int) == Seq::<A>::empty(),
{
    assert(s.skip(s.len() as int) =~= Seq::<A>::empty());
}

// ---------------------------------------------------------------------------
// Executable routines
// ---------------------------------------------------------------------------

/// Appends one character to a `String` (std `String::push`, which the standard
/// library documents as appending the character to the end).
#[verifier::external_body]
pub(crate) fn push_char(s: &mut String, c: char)
    ensures
        final(s)@ == old(s)@.push(c),
{
    s.push(c);
}

/// Appends a string slice.
pub fn push_str(s: &mut String, t: &str)
    ensures
        final(s)@ == old(s)@ + t@,
{
    s.append(t);
}

/// The characters of a string slice, in order.
pub fn chars_of(s: &str) -> (res: Vec<char>)
    ensures
        res@ == s@,
{
    let mut res: Vec<char> = Vec::new();
    for c in it: s.chars()
        invariant
            res@ == it.seq().take(it.index() as int),
            it.seq() == s@,
    {
        res.push(c);
    }
    res
}

/// Whether `s` holds the character `c`.
pub fn has_char(s: &str, c: char) -> (res: bool)
    ensures
        res == s@.contains(c),
{
    let cs = chars_of(s);
    let n = cs.len();
    for i in 0..n
        invariant
            n == cs@.len(),
            cs@ == s@,
            forall|j: int| 0 <= j < i ==> cs@[j] != c,
    {
        if cs[i] == c {
            assert(s@[i as int] == c);
            return true;
        }
    }
    false
}

/// Whether `s` holds a carriage return or a line feed.
pub fn has_line_break_exec(s: &str) -> (res: bool)
    ensures
        res == has_line_break(s@),
{
    has_char(s, '\n') || has_char(s, '\r')
}

/// `s` with every occurrence of `c` replaced by `r`.
pub fn replace_char_exec(s: &str, c: char, r: &str) -> (res: String)
    ensures
        res@ == replace_char(s@, c, r@),
{
    let cs = chars_of(s);
    let n = cs.len();
    let mut out = String::new();
    assert(s@.skip(0) =~= s@);
    for i in 0..n
        invariant
            n == cs@.len(),
            cs@ == s@,
            replace_char(s@, c, r@) == out@ + replace_char(s@.skip(i as int), c, r@),
    {
        proof {
            lemma_skip_skip(s@, i as int, 1);
        }
        let ghost before = out@;
        if cs[i] == c {
            push_str(&mut out, r);
        } else {
            push_char(&mut out, cs[i]);
        }
        assert(out@ + replace_char(s@.skip(i + 1), c, r@) =~= before + replace_char(
            s@.skip(i as int),
            c,
            r@,
        ));
    }
    proof {
        lemma_skip_all(s@);
    }
    assert(out@ + replace_char(s@.skip(n as int), c, r@) =~= out@);
    out
}

/// `s` with every `"\r\n"` pair replaced by `r`, scanning from the left.
pub fn replace_crlf_exec(s: &str, r: &str) -> (res: String)
    ensures
        res@ == replace_crlf(s@, r@),
{
    let cs = chars_of(s);
    let n = cs.len();
    let mut out = String::new();
    let mut i: usize = 0;
    assert(s@.skip(0) =~= s@);
    while i < n
        invariant
            i <= n,
            n == cs@.len(),
            cs@ == s@,
            replace_crlf(s@, r@) == out@ + replace_crlf(s@.skip(i as int), r@),
        decreases n - i,
    {
        let ghost before = out@;
        let ghost rest = s@.skip(i as int);
        if i + 1 < n && cs[i] == '\r' && cs[i + 1] == '\n' {
            proof {
                lemma_skip_skip(s@, i as int, 2);
            }
            push_str(&mut out, r);
            i = i + 2;
            assert(rest[0] == '\r' && rest[1] == '\n');
        } else {
            proof {
                lemma_skip_skip(s@, i as int, 1);
            }
            push_char(&mut out, cs[i]);
            i = i + 1;
            assert(rest[0] == cs@[i - 1]);
            assert(!(rest.len() >= 2 && rest[0] == '\r' && rest[1] == '\n'));
        }
        assert(out@ + replace_crlf(s@.skip(i as int), r@) =~= before + replace_crlf(rest, r@));
    }
    proof {
        lemma_skip_all(s@);
    }
    assert(out@ + replace_crlf(s@.skip(n as int), r@) =~= out@);
    out
}

/// `s` with every single `'\r'` and `'\n'` replaced by `r`.
pub fn replace_cr_or_lf_exec(s: &str, r: &str) -> (res: String)
    ensures
        res@ == replace_cr_or_lf(s@, r@),
{
    let cs = chars_of(s);
    let n = cs.len();
    let mut out = String::new();
    assert(s@.skip(0) =~= s@);
    for i in 0..n
        invariant
            n == cs@.len(),
            cs@ == s@,
            replace_cr_or_lf(s@, r@) == out@ + replace_cr_or_lf(s@.skip(i as int), r@),
    {
        proof {
            lemma_skip_skip(s@, i as int, 1);
        }
        let ghost before = out@;
        if cs[i] == '\r' || cs[i] == '\n' {
            push_str(&mut out, r);
        } else {
            push_char(&mut out, cs[i]);
        }
        assert(out@ + replace_cr_or_lf(s@.skip(i + 1), r@) =~= before + replace_cr_or_lf(
            s@.skip(i as int),
            r@,
        ));
    }
    proof {
        lemma_skip_all(s@);
    }
    assert(out@ + replace_cr_or_lf(s@.skip(n as int), r@) =~= out@);
    out
}

/// Every line break of `s` replaced by `r`.
pub fn replace_line_breaks_exec(s: &str, r: &str) -> (res: String)
    ensures
        res@ == replace_line_breaks(s@, r@),
{
    let pairs_done = replace_crlf_exec(s, r);
    replace_cr_or_lf_exec(pairs_done.as_str(), r)
}

/// Joins `list` with `sep` between consecutive items.
pub fn join_strings(list: &Vec<String>, sep: &str) -> (res: String)
    ensures
        res@ == join(views(list@), sep@),
{
    let n = list.len();
    let mut out = String::new();
    let ghost vs = views(list@);
    for i in 0..n
        invariant
            n == list@.len(),
            vs == views(list@),
            out@ == join(vs.take(i as int), sep@),
    {
        proof {
            assert(vs.take(i + 1).drop_last() =~= vs.take(i as int));
            assert(vs.take(i + 1).last() == list@[i as int]@);
        }
        if i > 0 {
            push_str(&mut out, sep);
        }
        push_str(&mut out, list[i].as_str());
        proof {
            if i == 0 {
                assert(vs.take(1) =~= seq![list@[0]@]);
            }
        }
    }
    assert(vs.take(n as int) =~= vs);
    out
}

/// The character of a digit value below sixteen.
pub fn digit(d: u8) -> (c: char)
    requires
        d < 16,
    ensures
        c == digit_char(d as int),
{
    if d < 10 {
        (48u8 + d) as char
    } else {
        (87u8 + d) as char
    }
}

fn push_nat_text(out: &mut String, n: u64)
    ensures
        final(out)@ == old(out)@ + nat_text(n as nat),
    decreases n,
{
    if n >= 10 {
        push_nat_text(out, n / 10);
    }
    push_char(out, digit((n % 10) as u8));
}

/// Decimal text of a 64-bit signed integer, as `i64`'s `Display` writes it.
pub fn int_to_text(i: i64) -> (res: String)
    ensures
        res@ == int_text(i as int),
{
    let mut out = String::new();
    if i < 0 {
        push_char(&mut out, '-');
        let m: u64 = (-(i as i128)) as u64;
        push_nat_text(&mut out, m);
    } else {
        push_nat_text(&mut out, i as u64);
    }
    out
}

/// Two lower-case hexadecimal digits per byte.
pub fn hex_encode(bytes: &[u8]) -> (res: String)
    ensures
        res@ == hex_text(bytes@),
{
    let n = bytes.len();
    let mut out = String::new();
    assert(bytes@.skip(0) =~= bytes@);
    for i in 0..n
        invariant
            n == bytes@.len(),
            hex_text(bytes@) == out@ + hex_text(bytes@.skip(i as int)),
    {
        proof {
            lemma_skip_skip(bytes@, i as int, 1);
        }
        let ghost before = out@;
        let b = bytes[i];
        push_char(&mut out, digit(b / 16));
        push_char(&mut out, digit(b % 16));
        assert(bytes@.skip(i as int)[0] == b);
        assert(out@ + hex_text(bytes@.skip(i + 1)) =~= before + hex_text(bytes@.skip(i as int)));
    }
    proof {
        lemma_skip_all(bytes@);
    }
    assert(out@ + hex_text(bytes@.skip(n as int)) =~= out@);
    out
}

} // verus!
