//! JSON rows: which JSON value each cell becomes, and the object of one row.
//!
//! The library decides the JSON value of each cell and the keys of each row's object;
//! building `serde_json` values and serialising them is left to the application.
use vstd::prelude::*;

use crate::value::{decimal_to_text, decimal_text, value_text, value_to_text, ColumnInfo, Value};

verus! {

/// The JSON value of one cell.
#[derive(Clone, Debug)]
pub enum JsonCell {
    Null,
    Bool(bool),
    Int(i64),
    /// A floating-point number by its `Display` text: as JSON it is that number, or
    /// `null` when the number is not finite.
    Float(String),
    /// A number given by its text, which `serde_json` accepts as a JSON number.
    Number(String),
    Str(String),
    /// A JSON document given by its compact text.
    Document(String),
}

/// What a `JsonCell` stands for.
pub enum JsonModel {
    Null,
    Bool(bool),
    Int(int),
    Float(Seq<char>),
    Number(Seq<char>),
    Str(Seq<char>),
    Document(Seq<char>),
}

impl View for JsonCell {
    type V = JsonModel;

    open spec fn view(&self) -> JsonModel {
        match self {
            JsonCell::Null => JsonModel::Null,
            JsonCell::Bool(b) => JsonModel::Bool(*b),
            JsonCell::Int(i) => JsonModel::Int(*i as int),
            JsonCell::Float(t) => JsonModel::Float(t@),
            JsonCell::Number(t) => JsonModel::Number(t@),
            JsonCell::Str(t) => JsonModel::Str(t@),
            JsonCell::Document(t) => JsonModel::Document(t@),
        }
    }
}

/// Whether `serde_json` parses `text` as a `serde_json::Number`.
pub uninterp spec fn json_number_accepts(text: Seq<char>) -> bool;

/// `text.parse::<serde_json::Number>().is_ok()`.
#[verifier::external_body]
fn json_number_parses(text: &str) -> (ok: bool)
    ensures
        ok == json_number_accepts(text@),
{
    text.parse::<serde_json::Number>().is_ok()
}

/// The JSON value of a decimal, given its text: a number when `serde_json` accepts the
/// text as one, else the text as a string.
pub open spec fn decimal_json(text: Seq<char>, is_number: bool) -> JsonModel {
    if is_number {
        JsonModel::Number(text)
    } else {
        JsonModel::Str(text)
    }
}

/// The JSON value of a cell: nulls, booleans, integers and floats as themselves, decimals
/// as numbers where they parse as one, JSON documents as they are, everything else as
/// its text.
pub open spec fn json_of(v: Value) -> JsonModel {
    match v {
        Value::Null => JsonModel::Null,
        Value::Bool(b) => JsonModel::Bool(b),
        Value::Int(i) => JsonModel::Int(i as int),
        Value::Float(t) => JsonModel::Float(t@),
        Value::Decimal(d) => decimal_json(
            decimal_text(d@),
            json_number_accepts(decimal_text(d@)),
        ),
        Value::Json(t) => JsonModel::Document(t@),
        _ => match value_text(v) {
            Some(s) => JsonModel::Str(s),
            None => JsonModel::Null,
        },
    }
}

/// The JSON value of a decimal given its text and whether it parses as a JSON number.
pub fn decimal_to_json(text: String, is_number: bool) -> (c: JsonCell)
    ensures
        c@ == decimal_json(text@, is_number),
{
    if is_number {
        JsonCell::Number(text)
    } else {
        JsonCell::Str(text)
    }
}

/// The JSON value of one cell.
pub fn value_to_json(v: &Value) -> (c: JsonCell)
    ensures
        c@ == json_of(*v),
{
    match v {
        Value::Null => JsonCell::Null,
        Value::Bool(b) => JsonCell::Bool(*b),
        Value::Int(i) => JsonCell::Int(*i),
        Value::Float(t) => JsonCell::Float(t.clone()),
        Value::Decimal(d) => {
            let s = decimal_to_text(d);
            let is_number = json_number_parses(s.as_str());
            decimal_to_json(s, is_number)
        },
        Value::Json(t) => JsonCell::Document(t.clone()),
        _ => match value_to_text(v) {
            Some(s) => JsonCell::Str(s),
            None => JsonCell::Null,
        },
    }
}

/// The entry of column `i` of a row: the column's name, and the cell's JSON value,
/// `null` where the row has no cell for the column.
pub open spec fn row_entry(columns: Seq<ColumnInfo>, row: Seq<Value>, i: int) -> (Seq<char>, JsonModel) {
    (columns[i].name@, if i < row.len() {
        json_of(row[i])
    } else {
        JsonModel::Null
    })
}

/// The entries of a row's JSON object, one per column, in column order.
pub fn row_to_json(columns: &[ColumnInfo], row: &[Value]) -> (entries: Vec<(String, JsonCell)>)
    ensures
        entries@.len() == columns@.len(),
        forall|i: int|
            0 <= i < columns@.len() ==> ((#[trigger] entries@[i]).0@, entries@[i].1@) == row_entry(
                columns@,
                row@,
                i,
            ),
{
    let mut entries: Vec<(String, JsonCell)> = Vec::new();
    for i in 0..columns.len()
        invariant
            entries@.len() == i,
            forall|j: int|
                0 <= j < i ==> ((#[trigger] entries@[j]).0@, entries@[j].1@) == row_entry(
                    columns@,
                    row@,
                    j,
                ),
    {
        let value = if i < row.len() {
            value_to_json(&row[i])
        } else {
            JsonCell::Null
        };
        entries.push((columns[i].name.clone(), value));
    }
    entries
}

} // verus!
