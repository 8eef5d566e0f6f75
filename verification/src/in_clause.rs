//! SQL `IN (...)` list rendering from one column of a result set.
use vstd::prelude::*;

use crate::text::{join, join_strings, push_char, push_str, replace_char, replace_char_exec, views};
use crate::value::{value_text, value_to_text, Value};

verus! {

/// `s` between single quotes, each single quote inside doubled.
pub open spec fn sql_quoted(s: Seq<char>) -> Seq<char> {
    seq!['\''] + replace_char(s, '\'', seq!['\'', '\'']) + seq!['\'']
}

/// The SQL literal of a value; none for nulls and binary values.
pub open spec fn in_clause_literal_text(v: Value) -> Option<Seq<char>> {
    match v {
        Value::Null => None,
        Value::Bytes(_) => None,
        Value::Bool(b) => Some(
            if b {
                seq!['T', 'R', 'U', 'E']
            } else {
                seq!['F', 'A', 'L', 'S', 'E']
            },
        ),
        Value::Int(_) => value_text(v),
        Value::Float(_) => value_text(v),
        Value::Decimal(_) => value_text(v),
        _ => match value_text(v) {
            Some(s) => Some(sql_quoted(s)),
            None => None,
        },
    }
}

/// The literals of column `col` over the rows, in order, skipping rows that are too
/// short and values that have no literal.
pub open spec fn in_clause_literals(rows: Seq<Vec<Value>>, col: int) -> Seq<Seq<char>>
    decreases rows.len(),
{
    if rows.len() == 0 {
        seq![]
    } else {
        let prev = in_clause_literals(rows.drop_last(), col);
        let row = rows.last()@;
        if 0 <= col < row.len() {
            match in_clause_literal_text(row[col]) {
                Some(l) => prev.push(l),
                None => prev,
            }
        } else {
            prev
        }
    }
}

/// `(a, b, c)`.
pub open spec fn in_clause_text(rows: Seq<Vec<Value>>, col: int) -> Seq<char> {
    seq!['('] + join(in_clause_literals(rows, col), seq![',', ' ']) + seq![')']
}

fn in_clause_literal(v: &Value) -> (res: Option<String>)
    ensures
        res matches Some(s) ==> in_clause_literal_text(*v) == Some(s@),
        res is None ==> in_clause_literal_text(*v) is None,
{
    match v {
        Value::Null => None,
        Value::Bytes(_) => None,
        Value::Bool(b) => {
            if *b {
                proof {
                    reveal_strlit("TRUE");
                }
                Some(String::from_str("TRUE"))
            } else {
                proof {
                    reveal_strlit("FALSE");
                }
                Some(String::from_str("FALSE"))
            }
        },
        Value::Int(_) | Value::Float(_) | Value::Decimal(_) => value_to_text(v),
        _ => match value_to_text(v) {
            Some(s) => {
                let doubled = "''";
                proof {
                    reveal_strlit("''");
                }
                assert(doubled@ =~= seq!['\'', '\'']);
                let inner = replace_char_exec(s.as_str(), '\'', doubled);
                let mut out = String::new();
                push_char(&mut out, '\'');
                push_str(&mut out, inner.as_str());
                push_char(&mut out, '\'');
                assert(out@ =~= sql_quoted(s@));
                Some(out)
            },
            None => None,
        },
    }
}

/// Renders column `col_index` of the rows as a parenthesised, comma-separated SQL list.
pub fn render_in_clause(rows: &[Vec<Value>], col_index: usize) -> (res: String)
    ensures
        res@ == in_clause_text(rows@, col_index as int),
{
    let mut literals: Vec<String> = Vec::new();
    assert(rows@.take(0) =~= Seq::<Vec<Value>>::empty());
    for r in 0..rows.len()
        invariant
            views(literals@) == in_clause_literals(rows@.take(r as int), col_index as int),
    {
        assert(rows@.take(r + 1).drop_last() =~= rows@.take(r as int));
        let row = &rows[r];
        if col_index < row.len() {
            match in_clause_literal(&row[col_index]) {
                Some(l) => {
                    literals.push(l);
                    assert(views(literals@) =~= in_clause_literals(
                        rows@.take(r + 1),
                        col_index as int,
                    ));
                },
                None => {},
            }
        }
    }
    assert(rows@.take(rows@.len() as int) =~= rows@);
    let sep = ", ";
    proof {
        reveal_strlit(", ");
    }
    assert(sep@ =~= seq![',', ' ']);
    let body = join_strings(&literals, sep);
    let mut out = String::new();
    push_char(&mut out, '(');
    push_str(&mut out, body.as_str());
    push_char(&mut out, ')');
    assert(out@ =~= in_clause_text(rows@, col_index as int));
    out
}

} // verus!
