//! Cell values of a result set and their full text for export.
//!
//! Values whose text only an outside crate computes are held by plain numbers
//! (calendar fields, a decimal's mantissa and scale, a UUID's bytes); the text
//! comes from `chrono`, `rust_decimal` and `uuid` through the trusted wrappers at
//! the end of this file. A floating-point cell is held by its `Display` text,
//! and a JSON cell by its compact JSON text, since this library holds no floats
//! and serialises no JSON document itself.
use vstd::prelude::*;

use crate::text::{
    hex_encode, hex_text, int_text, int_to_text, nat_text, padded, zeros,
};

verus! {

/// Smallest year that a calendar date can hold.
pub const MIN_YEAR: i32 = -262143;

/// Largest year that a calendar date can hold.
pub const MAX_YEAR: i32 = 262142;

/// Largest magnitude of a decimal's mantissa: 2^96 - 1.
pub const MAX_MANTISSA: i128 = 79228162514264337593543950335;

/// Largest number of fractional digits of a decimal.
pub const MAX_SCALE: u32 = 28;

/// Gregorian leap-year rule (proleptic, with years before 1 counted astronomically).
pub open spec fn is_leap_year(y: int) -> bool {
    y % 4 == 0 && (y % 100 != 0 || y % 400 == 0)
}

pub open spec fn days_in_month(y: int, m: int) -> int {
    if m == 2 {
        if is_leap_year(y) {
            29
        } else {
            28
        }
    } else if m == 4 || m == 6 || m == 9 || m == 11 {
        30
    } else {
        31
    }
}

/// A day that exists in the calendar, within the years a date can hold.
pub open spec fn valid_ymd(y: int, m: int, d: int) -> bool {
    &&& MIN_YEAR <= y <= MAX_YEAR
    &&& 1 <= m <= 12
    &&& 1 <= d <= days_in_month(y, m)
}

/// A time of day; a nanosecond count of a second or more marks a leap second,
/// which only the 59th second can carry.
pub open spec fn valid_hms(h: int, mi: int, s: int, nano: int) -> bool {
    &&& 0 <= h < 24
    &&& 0 <= mi < 60
    &&& 0 <= s < 60
    &&& 0 <= nano < 2_000_000_000
    &&& (nano >= 1_000_000_000 ==> s == 59)
}

pub open spec fn valid_decimal(mantissa: int, scale: int) -> bool {
    &&& -MAX_MANTISSA <= mantissa <= MAX_MANTISSA
    &&& 0 <= scale <= MAX_SCALE
}

/// A calendar date (proleptic Gregorian).
#[derive(Clone, Copy, Debug)]
pub struct CivilDate {
    year: i32,
    month: u32,
    day: u32,
}

/// A time of day with nanoseconds.
#[derive(Clone, Copy, Debug)]
pub struct ClockTime {
    hour: u32,
    minute: u32,
    second: u32,
    nano: u32,
}

/// A fixed-point decimal: `mantissa / 10^scale`.
#[derive(Clone, Copy, Debug)]
pub struct DecimalNumber {
    mantissa: i128,
    scale: u32,
}

impl View for CivilDate {
    type V = (int, int, int);

    closed spec fn view(&self) -> (int, int, int) {
        (self.year as int, self.month as int, self.day as int)
    }
}

impl View for ClockTime {
    type V = (int, int, int, int);

    closed spec fn view(&self) -> (int, int, int, int) {
        (self.hour as int, self.minute as int, self.second as int, self.nano as int)
    }
}

impl View for DecimalNumber {
    type V = (int, int);

    closed spec fn view(&self) -> (int, int) {
        (self.mantissa as int, self.scale as int)
    }
}

impl CivilDate {
    #[verifier::type_invariant]
    closed spec fn inv(self) -> bool {
        valid_ymd(self.year as int, self.month as int, self.day as int)
    }

    /// The date with these fields, if that day exists.
    pub fn new(year: i32, month: u32, day: u32) -> (res: Option<CivilDate>)
        ensures
            res is Some <==> valid_ymd(year as int, month as int, day as int),
            res matches Some(d) ==> d@ == (year as int, month as int, day as int),
    {
        if year < MIN_YEAR || year > MAX_YEAR || month < 1 || month > 12 || day < 1 {
            return None;
        }
        // Shifted by a multiple of 400 so that the remainders are taken of a natural number.
        let shifted: u32 = (year as i64 + 400_000) as u32;
        let leap = shifted % 4 == 0 && (shifted % 100 != 0 || shifted % 400 == 0);
        assert(leap == is_leap_year(year as int)) by {
            assert(shifted as int == year as int + 400 * 1000);
        }
        let last: u32 = if month == 2 {
            if leap {
                29
            } else {
                28
            }
        } else if month == 4 || month == 6 || month == 9 || month == 11 {
            30
        } else {
            31
        };
        if day > last {
            return None;
        }
        Some(CivilDate { year, month, day })
    }

    pub fn year(&self) -> (r: i32)
        ensures
            r == self@.0,
    {
        self.year
    }

    pub fn month(&self) -> (r: u32)
        ensures
            r == self@.1,
    {
        self.month
    }

    pub fn day(&self) -> (r: u32)
        ensures
            r == self@.2,
    {
        self.day
    }
}

impl ClockTime {
    #[verifier::type_invariant]
    closed spec fn inv(self) -> bool {
        valid_hms(self.hour as int, self.minute as int, self.second as int, self.nano as int)
    }

    /// The time of day with these fields, if it is one.
    pub fn new(hour: u32, minute: u32, second: u32, nano: u32) -> (res: Option<ClockTime>)
        ensures
            res is Some <==> valid_hms(hour as int, minute as int, second as int, nano as int),
            res matches Some(t) ==> t@ == (hour as int, minute as int, second as int, nano as int),
    {
        if hour >= 24 || minute >= 60 || second >= 60 || nano >= 2_000_000_000 || (nano
            >= 1_000_000_000 && second != 59) {
            None
        } else {
            Some(ClockTime { hour, minute, second, nano })
        }
    }

    pub fn hour(&self) -> (r: u32)
        ensures
            r == self@.0,
    {
        self.hour
    }

    pub fn minute(&self) -> (r: u32)
        ensures
            r == self@.1,
    {
        self.minute
    }

    pub fn second(&self) -> (r: u32)
        ensures
            r == self@.2,
    {
        self.second
    }

    pub fn nanosecond(&self) -> (r: u32)
        ensures
            r == self@.3,
    {
        self.nano
    }
}

impl DecimalNumber {
    #[verifier::type_invariant]
    closed spec fn inv(self) -> bool {
        valid_decimal(self.mantissa as int, self.scale as int)
    }

    /// The decimal `mantissa / 10^scale`, if the mantissa fits in 96 bits and the scale is at most 28.
    pub fn new(mantissa: i128, scale: u32) -> (res: Option<DecimalNumber>)
        ensures
            res is Some <==> valid_decimal(mantissa as int, scale as int),
            res matches Some(d) ==> d@ == (mantissa as int, scale as int),
    {
        if scale > MAX_SCALE || mantissa > MAX_MANTISSA || mantissa < -MAX_MANTISSA {
            None
        } else {
            Some(DecimalNumber { mantissa, scale })
        }
    }

    pub fn mantissa(&self) -> (r: i128)
        ensures
            r == self@.0,
    {
        self.mantissa
    }

    pub fn scale(&self) -> (r: u32)
        ensures
            r == self@.1,
    {
        self.scale
    }
}

/// One cell of a result set.
#[derive(Clone, Debug)]
pub enum Value {
    Null,
    Bool(bool),
    Int(i64),
    /// A floating-point number, held by the text that `f64`'s `Display` gives it.
    Float(String),
    Text(String),
    Bytes(Vec<u8>),
    Date(CivilDate),
    Time(ClockTime),
    DateTime(CivilDate, ClockTime),
    /// An instant, held as its date and time of day in UTC.
    TimestampTz(CivilDate, ClockTime),
    Decimal(DecimalNumber),
    Uuid([u8; 16]),
    /// A JSON document, held by its compact JSON text.
    Json(String),
}

// ---------------------------------------------------------------------------
// Text of each kind of value
// ---------------------------------------------------------------------------

/// A year as `%Y` writes it: four digits at least, and a sign outside 0 to 9999.
pub open spec fn year_text(y: int) -> Seq<char> {
    if 0 <= y <= 9999 {
        padded(y as nat, 4)
    } else if y < 0 {
        seq!['-'] + padded((-y) as nat, 4)
    } else {
        seq!['+'] + padded(y as nat, 4)
    }
}

/// `YYYY-MM-DD`.
pub open spec fn date_text(d: (int, int, int)) -> Seq<char> {
    year_text(d.0) + seq!['-'] + padded(d.1 as nat, 2) + seq!['-'] + padded(d.2 as nat, 2)
}

/// `HH:MM:SS`, a leap second shown as second 60; the fraction of the second is not shown.
pub open spec fn time_text(t: (int, int, int, int)) -> Seq<char> {
    padded(t.0 as nat, 2) + seq![':'] + padded(t.1 as nat, 2) + seq![':'] + padded(
        (t.2 + t.3 / 1_000_000_000) as nat,
        2,
    )
}

/// The nonzero digits of a fraction of a second in groups of three, after a dot;
/// nothing for a whole second.
pub open spec fn fraction_text(nano: int) -> Seq<char> {
    if nano == 0 {
        seq![]
    } else if nano % 1_000_000 == 0 {
        seq!['.'] + padded((nano / 1_000_000) as nat, 3)
    } else if nano % 1000 == 0 {
        seq!['.'] + padded((nano / 1000) as nat, 6)
    } else {
        seq!['.'] + padded(nano as nat, 9)
    }
}

/// RFC 3339 text of an instant given in UTC: `YYYY-MM-DDTHH:MM:SS[.fff]+00:00`.
pub open spec fn rfc3339_utc_text(d: (int, int, int), t: (int, int, int, int)) -> Seq<char> {
    let leap = t.3 >= 1_000_000_000;
    let sec = if leap {
        t.2 + 1
    } else {
        t.2
    };
    let nano = if leap {
        t.3 - 1_000_000_000
    } else {
        t.3
    };
    date_text(d) + seq!['T'] + padded(t.0 as nat, 2) + seq![':'] + padded(t.1 as nat, 2) + seq![
        ':',
    ] + padded(sec as nat, 2) + fraction_text(nano) + seq!['+', '0', '0', ':', '0', '0']
}

/// The digits of a decimal: its mantissa's digits (none for zero), with zeros in
/// front so that there are at least `scale` of them.
pub open spec fn decimal_digits(mantissa: int, scale: int) -> Seq<char> {
    let digits = if mantissa == 0 {
        Seq::<char>::empty()
    } else if mantissa < 0 {
        nat_text((-mantissa) as nat)
    } else {
        nat_text(mantissa as nat)
    };
    if digits.len() < scale {
        zeros((scale - digits.len()) as nat) + digits
    } else {
        digits
    }
}

/// Text of `mantissa / 10^scale` with exactly `scale` fractional digits: a `-` for
/// negative values, `0` for an empty whole part.
pub open spec fn decimal_text(d: (int, int)) -> Seq<char> {
    let all = decimal_digits(d.0, d.1);
    let whole = all.take(all.len() - d.1);
    let frac = all.skip(all.len() - d.1);
    let body = if d.1 == 0 {
        if all.len() == 0 {
            seq!['0']
        } else {
            all
        }
    } else {
        (if whole.len() == 0 {
            seq!['0']
        } else {
            whole
        }) + seq!['.'] + frac
    };
    (if d.0 < 0 {
        seq!['-']
    } else {
        Seq::<char>::empty()
    }) + body
}

/// The hyphenated lower-case form of a UUID: 8-4-4-4-12 hexadecimal digits.
pub open spec fn uuid_text(b: Seq<u8>) -> Seq<char> {
    hex_text(b.subrange(0, 4)) + seq!['-'] + hex_text(b.subrange(4, 6)) + seq!['-'] + hex_text(
        b.subrange(6, 8),
    ) + seq!['-'] + hex_text(b.subrange(8, 10)) + seq!['-'] + hex_text(b.subrange(10, 16))
}

/// The full text of a value for export; `None` for `Null` only.
pub open spec fn value_text(v: Value) -> Option<Seq<char>> {
    match v {
        Value::Null => None,
        Value::Bool(b) => Some(
            if b {
                seq!['t', 'r', 'u', 'e']
            } else {
                seq!['f', 'a', 'l', 's', 'e']
            },
        ),
        Value::Int(i) => Some(int_text(i as int)),
        Value::Float(t) => Some(t@),
        Value::Text(s) => Some(s@),
        Value::Bytes(b) => Some(seq!['0', 'x'] + hex_text(b@)),
        Value::Date(d) => Some(date_text(d@)),
        Value::Time(t) => Some(time_text(t@)),
        Value::DateTime(d, t) => Some(date_text(d@) + seq![' '] + time_text(t@)),
        Value::TimestampTz(d, t) => Some(rfc3339_utc_text(d@, t@)),
        Value::Decimal(d) => Some(decimal_text(d@)),
        Value::Uuid(b) => Some(uuid_text(b@)),
        Value::Json(t) => Some(t@),
    }
}

/// Full text of a value for export. Never truncates. `None` for Null.
pub fn value_to_text(v: &Value) -> (res: Option<String>)
    ensures
        res matches Some(s) ==> value_text(*v) == Some(s@),
        res is None ==> value_text(*v) is None,
{
    match v {
        Value::Null => None,
        Value::Bool(b) => {
            let s = if *b {
                proof {
                    reveal_strlit("true");
                }
                String::from_str("true")
            } else {
                proof {
                    reveal_strlit("false");
                }
                String::from_str("false")
            };
            Some(s)
        },
        Value::Int(i) => Some(int_to_text(*i)),
        Value::Float(t) => Some(t.clone()),
        Value::Text(s) => Some(s.clone()),
        Value::Bytes(b) => {
            let mut s = String::from_str("0x");
            proof {
                reveal_strlit("0x");
            }
            let h = hex_encode(b.as_slice());
            s.append(h.as_str());
            Some(s)
        },
        Value::Date(d) => Some(date_to_text(d)),
        Value::Time(t) => Some(time_to_text(t)),
        Value::DateTime(d, t) => Some(datetime_to_text(d, t)),
        Value::TimestampTz(d, t) => Some(timestamp_to_text(d, t)),
        Value::Decimal(d) => Some(decimal_to_text(d)),
        Value::Uuid(b) => Some(uuid_hyphenated(b)),
        Value::Json(t) => Some(t.clone()),
    }
}

fn date_to_text(d: &CivilDate) -> (res: String)
    ensures
        res@ == date_text(d@),
{
    proof {
        use_type_invariant(d);
    }
    chrono_date_text(d.year, d.month, d.day)
}

fn time_to_text(t: &ClockTime) -> (res: String)
    ensures
        res@ == time_text(t@),
{
    proof {
        use_type_invariant(t);
    }
    chrono_time_text(t.hour, t.minute, t.second, t.nano)
}

fn datetime_to_text(d: &CivilDate, t: &ClockTime) -> (res: String)
    ensures
        res@ == date_text(d@) + seq![' '] + time_text(t@),
{
    proof {
        use_type_invariant(d);
        use_type_invariant(t);
    }
    chrono_datetime_text(d.year, d.month, d.day, t.hour, t.minute, t.second, t.nano)
}

fn timestamp_to_text(d: &CivilDate, t: &ClockTime) -> (res: String)
    ensures
        res@ == rfc3339_utc_text(d@, t@),
{
    proof {
        use_type_invariant(d);
        use_type_invariant(t);
    }
    chrono_rfc3339_utc(d.year, d.month, d.day, t.hour, t.minute, t.second, t.nano)
}

pub(crate) fn decimal_to_text(d: &DecimalNumber) -> (res: String)
    ensures
        res@ == decimal_text(d@),
{
    proof {
        use_type_invariant(d);
    }
    rust_decimal_text(d.mantissa, d.scale)
}

// ---------------------------------------------------------------------------
// Trusted wrappers around chrono, rust_decimal and uuid
// ---------------------------------------------------------------------------

/// `chrono::NaiveDate::from_ymd_opt(..)` then `format("%Y-%m-%d")`: the date exists,
/// so the construction succeeds, and `%Y`, `%m`, `%d` write the year (four digits at
/// least, signed outside 0..=9999), month and day zero-padded as `date_text` says.
#[verifier::external_body]
fn chrono_date_text(year: i32, month: u32, day: u32) -> (res: String)
    requires
        valid_ymd(year as int, month as int, day as int),
    ensures
        res@ == date_text((year as int, month as int, day as int)),
{
    chrono::NaiveDate::from_ymd_opt(year, month, day).unwrap().format("%Y-%m-%d").to_string()
}

/// `chrono::NaiveTime::from_hms_nano_opt(..)` then `format("%H:%M:%S")`: hour, minute and
/// second (plus one for a leap second) zero-padded to two digits, as `time_text` says.
#[verifier::external_body]
fn chrono_time_text(hour: u32, minute: u32, second: u32, nano: u32) -> (res: String)
    requires
        valid_hms(hour as int, minute as int, second as int, nano as int),
    ensures
        res@ == time_text((hour as int, minute as int, second as int, nano as int)),
{
    chrono::NaiveTime::from_hms_nano_opt(hour, minute, second, nano).unwrap().format(
        "%H:%M:%S",
    ).to_string()
}

/// `chrono::NaiveDateTime::new(date, time)` then `format("%Y-%m-%d %H:%M:%S")`: the date
/// text and the time text with a space between them.
#[verifier::external_body]
fn chrono_datetime_text(
    year: i32,
    month: u32,
    day: u32,
    hour: u32,
    minute: u32,
    second: u32,
    nano: u32,
) -> (res: String)
    requires
        valid_ymd(year as int, month as int, day as int),
        valid_hms(hour as int, minute as int, second as int, nano as int),
    ensures
        res@ == date_text((year as int, month as int, day as int)) + seq![' '] + time_text(
            (hour as int, minute as int, second as int, nano as int),
        ),
{
    let date = chrono::NaiveDate::from_ymd_opt(year, month, day).unwrap();
    let time = chrono::NaiveTime::from_hms_nano_opt(hour, minute, second, nano).unwrap();
    chrono::NaiveDateTime::new(date, time).format("%Y-%m-%d %H:%M:%S").to_string()
}

/// `chrono::DateTime::<Utc>::to_rfc3339()` of the UTC instant with these fields:
/// the date, `T`, the time with a leap second as second 60, the nonzero fraction of
/// the second in groups of three digits, and the offset `+00:00` (chrono's
/// `write_rfc3339` with `SecondsFormat::AutoSi` and no `Z`).
#[verifier::external_body]
fn chrono_rfc3339_utc(
    year: i32,
    month: u32,
    day: u32,
    hour: u32,
    minute: u32,
    second: u32,
    nano: u32,
) -> (res: String)
    requires
        valid_ymd(year as int, month as int, day as int),
        valid_hms(hour as int, minute as int, second as int, nano as int),
    ensures
        res@ == rfc3339_utc_text(
            (year as int, month as int, day as int),
            (hour as int, minute as int, second as int, nano as int),
        ),
{
    let date = chrono::NaiveDate::from_ymd_opt(year, month, day).unwrap();
    let time = chrono::NaiveTime::from_hms_nano_opt(hour, minute, second, nano).unwrap();
    chrono::NaiveDateTime::new(date, time).and_utc().to_rfc3339()
}

/// `rust_decimal::Decimal::from_i128_with_scale(mantissa, scale).to_string()`: in range,
/// so the construction does not panic; `Display` writes the mantissa's digits with a dot
/// before the last `scale` of them, as `decimal_text` says.
#[verifier::external_body]
fn rust_decimal_text(mantissa: i128, scale: u32) -> (res: String)
    requires
        valid_decimal(mantissa as int, scale as int),
    ensures
        res@ == decimal_text((mantissa as int, scale as int)),
{
    rust_decimal::Decimal::from_i128_with_scale(mantissa, scale).to_string()
}

/// `uuid::Uuid::from_bytes(bytes).to_string()`: the hyphenated lower-case form.
#[verifier::external_body]
fn uuid_hyphenated(bytes: &[u8; 16]) -> (res: String)
    ensures
        res@ == uuid_text(bytes@),
{
    uuid::Uuid::from_bytes(*bytes).to_string()
}

} // verus!

verus! {

/// Description of one column of a result set.
#[derive(Clone, Debug)]
pub struct ColumnInfo {
    pub name: String,
    pub data_type: String,
    pub nullable: bool,
    pub primary_key: bool,
    pub is_auto_increment: bool,
    pub default_value: Option<String>,
    pub is_generated: bool,
}

/// The text of a value, `NULL` for a null.
pub open spec fn text_or_null(v: Value) -> Seq<char> {
    match value_text(v) {
        Some(t) => t,
        None => seq!['N', 'U', 'L', 'L'],
    }
}

/// The text of a value, `NULL` for a null.
pub fn value_text_or_null(v: &Value) -> (res: String)
    ensures
        res@ == text_or_null(*v),
{
    match value_to_text(v) {
        Some(t) => t,
        None => {
            proof {
                reveal_strlit("NULL");
            }
            String::from_str("NULL")
        },
    }
}

/// The names of the columns.
pub open spec fn column_names(columns: Seq<ColumnInfo>) -> Seq<Seq<char>> {
    columns.map_values(|c: ColumnInfo| c.name@)
}

} // verus!
