//! Partial updates: an `UPDATE` statement made from the fields of a JSON
//! object, with a value to bind for each placeholder.

use vstd::prelude::*;
use chrono::{Datelike, NaiveDate, NaiveDateTime};
use crate::token::{join, spec_join, texts};

verus! {

/// The day that a text of the form year-month-day names, counted in the
/// proleptic Gregorian calendar with 1 January of the year 1 as day 1; `None`
/// for a text that names no day in that form.
pub uninterp spec fn date_in(text: Seq<char>) -> Option<i32>;

/// The instant that a text of the form year-month-dayThour:minute:second
/// names: the seconds from the start of 1970 to it, and the nanoseconds
/// past that second, of which only a leap second has any; `None` for a text
/// that names no instant in that form.
pub uninterp spec fn datetime_in(text: Seq<char>) -> Option<(i64, u32)>;

/// `NaiveDate::parse_from_str` with the format `%Y-%m-%d` parses a date; a
/// text that does not fit the format, or names no day of the calendar, is an
/// error. `num_days_from_ce` counts the date's days.
#[verifier::external_body]
fn parse_date(text: &str) -> (day: Option<i32>)
    ensures
        day == date_in(text@),
{
    match NaiveDate::parse_from_str(text, "%Y-%m-%d") {
        Ok(date) => Some(date.num_days_from_ce()),
        Err(_) => None,
    }
}

/// `NaiveDateTime::parse_from_str` with the format `%Y-%m-%dT%H:%M:%S`
/// parses a date and a time of day; a text that does not fit is an error.
/// `timestamp` and `timestamp_subsec_nanos` give the instant's seconds and
/// nanoseconds.
#[verifier::external_body]
fn parse_datetime(text: &str) -> (instant: Option<(i64, u32)>)
    ensures
        instant == datetime_in(text@),
{
    match NaiveDateTime::parse_from_str(text, "%Y-%m-%dT%H:%M:%S") {
        Ok(at) => Some((at.and_utc().timestamp(), at.and_utc().timestamp_subsec_nanos())),
        Err(_) => None,
    }
}

/// The value of one field of a JSON object, as far as an update reads it.
#[derive(Debug)]
pub enum JsonField {
    Null,
    Bool(bool),
    /// A number that is a 64-bit signed integer.
    Integer(i64),
    /// Any other number, by the bits of its 64-bit floating-point form.
    Real(u64),
    Text(String),
    /// An array or an object.
    Nested,
}

/// A field of a JSON object.
#[derive(Debug)]
pub struct Field {
    pub name: String,
    pub value: JsonField,
}

/// The body of an update request.
#[derive(Debug)]
pub enum Payload {
    /// A JSON object, with its fields in the order in which the statement
    /// is to name them.
    Object(Vec<Field>),
    /// Any other JSON value.
    Other,
}

/// A value to bind to a placeholder of a statement.
#[derive(Debug, PartialEq, Eq)]
pub enum SqlValue {
    String(String),
    I64(i64),
    /// A floating-point number, by its bits.
    F64(u64),
    Bool(bool),
    /// A date, by its day counted from 1 January of the year 1 as day 1.
    Date(i32),
    /// A date and time, by its seconds from the start of 1970 and the
    /// nanoseconds past that second.
    DateTime(i64, u32),
    Null,
}

/// A statement and the values to bind to its placeholders, in their order.
#[derive(Debug, PartialEq, Eq)]
pub struct SqlUpdate {
    pub sql: String,
    pub values: Vec<SqlValue>,
}

/// Why no statement could be made of a request.
#[derive(Debug, Clone, Copy, PartialEq, Eq, Structural)]
pub enum UpdateError {
    /// The payload is no JSON object.
    NotAnObject,
    /// The object has no field.
    NoFields,
    /// A field holds an array or an object.
    UnsupportedValue,
}

/// A bound value, as a value.
pub enum SqlValueView {
    String(Seq<char>),
    I64(i64),
    F64(u64),
    Bool(bool),
    Date(i32),
    DateTime(i64, u32),
    Null,
}

impl View for SqlValue {
    type V = SqlValueView;

    open spec fn view(&self) -> SqlValueView {
        match self {
            SqlValue::String(s) => SqlValueView::String(s@),
            SqlValue::I64(n) => SqlValueView::I64(*n),
            SqlValue::F64(bits) => SqlValueView::F64(*bits),
            SqlValue::Bool(b) => SqlValueView::Bool(*b),
            SqlValue::Date(day) => SqlValueView::Date(*day),
            SqlValue::DateTime(secs, nanos) => SqlValueView::DateTime(*secs, *nanos),
            SqlValue::Null => SqlValueView::Null,
        }
    }
}

/// The values of a list of bound values.
pub open spec fn bound_values(values: Seq<SqlValue>) -> Seq<SqlValueView> {
    Seq::new(values.len(), |i: int| values[i]@)
}

/// The value bound for a text, given what the text names as a date and as
/// a date and time: a date before a date and time, and both before the text
/// itself.
pub open spec fn spec_text_value(
    text: Seq<char>,
    date: Option<i32>,
    datetime: Option<(i64, u32)>,
) -> SqlValueView {
    match date {
        Some(day) => SqlValueView::Date(day),
        None => match datetime {
            Some((secs, nanos)) => SqlValueView::DateTime(secs, nanos),
            None => SqlValueView::String(text),
        },
    }
}

/// The value bound for a field; none for an array or an object.
pub open spec fn spec_value(field: JsonField) -> Option<SqlValueView> {
    match field {
        JsonField::Null => Some(SqlValueView::Null),
        JsonField::Bool(b) => Some(SqlValueView::Bool(b)),
        JsonField::Integer(n) => Some(SqlValueView::I64(n)),
        JsonField::Real(bits) => Some(SqlValueView::F64(bits)),
        JsonField::Text(s) => Some(spec_text_value(s@, date_in(s@), datetime_in(s@))),
        JsonField::Nested => None,
    }
}

/// The value to bind for a text, given what the text names as a date and as
/// a date and time.
pub fn text_value(text: &String, date: Option<i32>, datetime: Option<(i64, u32)>) -> (value:
    SqlValue)
    ensures
        value@ == spec_text_value(text@, date, datetime),
{
    match date {
        Some(day) => SqlValue::Date(day),
        None => match datetime {
            Some((secs, nanos)) => SqlValue::DateTime(secs, nanos),
            None => SqlValue::String(text.clone()),
        },
    }
}

/// The value to bind for a field; `None` for an array or an object.
pub fn field_value(field: &JsonField) -> (value: Option<SqlValue>)
    ensures
        match value {
            Some(v) => spec_value(*field) == Some(v@),
            None => spec_value(*field).is_none(),
        },
{
    match field {
        JsonField::Null => Some(SqlValue::Null),
        JsonField::Bool(b) => Some(SqlValue::Bool(*b)),
        JsonField::Integer(n) => Some(SqlValue::I64(*n)),
        JsonField::Real(bits) => Some(SqlValue::F64(*bits)),
        JsonField::Text(s) => {
            let date = parse_date(s.as_str());
            let datetime = match date {
                Some(_) => None,
                None => parse_datetime(s.as_str()),
            };
            Some(text_value(s, date, datetime))
        },
        JsonField::Nested => None,
    }
}

/// The assignments of a statement: each field's name with a placeholder.
pub open spec fn assignments(fields: Seq<Field>) -> Seq<Seq<char>> {
    Seq::new(fields.len(), |i: int| fields[i].name@ + " = ?"@)
}

/// The text of the statement that sets `fields` in the row of `table` whose
/// `id_column` equals the last placeholder.
pub open spec fn spec_sql(table: Seq<char>, fields: Seq<Field>, id_column: Seq<char>) -> Seq<char> {
    "UPDATE "@ + table + " SET "@ + spec_join(assignments(fields), ", "@) + " WHERE "@ + id_column
        + " = ?"@
}

/// Whether some field holds an array or an object.
pub open spec fn has_nested(fields: Seq<Field>) -> bool {
    exists|i: int| 0 <= i < fields.len() && spec_value(#[trigger] fields[i].value).is_none()
}

/// The values bound for the fields, in their order.
pub open spec fn spec_values(fields: Seq<Field>) -> Seq<SqlValueView> {
    Seq::new(fields.len(), |i: int| spec_value(fields[i].value).unwrap())
}

/// The statement's text and its values, or the reason why there is none.
pub open spec fn spec_build(
    table: Seq<char>,
    payload: Payload,
    id_column: Seq<char>,
    id_value: i64,
) -> Result<(Seq<char>, Seq<SqlValueView>), UpdateError> {
    match payload {
        Payload::Other => Err(UpdateError::NotAnObject),
        Payload::Object(fields) => if fields@.len() == 0 {
            Err(UpdateError::NoFields)
        } else if has_nested(fields@) {
            Err(UpdateError::UnsupportedValue)
        } else {
            Ok(
                (
                    spec_sql(table, fields@, id_column),
                    spec_values(fields@).push(SqlValueView::I64(id_value)),
                ),
            )
        },
    }
}

/// The text of the statement.
fn statement(table: &str, fields: &Vec<Field>, id_column: &str) -> (sql: String)
    ensures
        sql@ == spec_sql(table@, fields@, id_column@),
{
    let mut parts: Vec<String> = Vec::new();
    let n = fields.len();
    let mut i: usize = 0;
    while i < n
        invariant
            n == fields.len(),
            i <= n,
            parts.len() == i,
            texts(parts@) == assignments(fields@.subrange(0, i as int)),
        decreases n - i,
    {
        let ghost done = fields@.subrange(0, i as int);
        let ghost next = fields@.subrange(0, i + 1);
        let ghost before = parts@;
        let mut part = fields[i].name.clone();
        part.append(" = ?");
        parts.push(part);
        assert(texts(parts@) =~= assignments(next)) by {
            assert forall|j: int| 0 <= j < i + 1 implies texts(parts@)[j] == assignments(next)[j] by {
                if j < i {
                    assert(texts(before)[j] == assignments(done)[j]);
                    assert(done[j] == next[j]);
                }
            }
        }
        i = i + 1;
    }
    assert(fields@.subrange(0, n as int) =~= fields@);
    let set_clause = join(&parts, ", ");
    let mut sql = String::from_str("UPDATE ");
    sql.append(table);
    sql.append(" SET ");
    sql.append(set_clause.as_str());
    sql.append(" WHERE ");
    sql.append(id_column);
    sql.append(" = ?");
    sql
}

/// Makes the statement that sets the fields of `payload` in the row of
/// `table` whose `id_column` is `id_value`. Every field is set through a
/// placeholder; the last placeholder is the row's.
pub fn build_update_sql(table: &str, payload: &Payload, id_column: &str, id_value: i64) -> (built:
    Result<SqlUpdate, UpdateError>)
    ensures
        match built {
            Ok(update) => spec_build(table@, *payload, id_column@, id_value) == Ok::<
                (Seq<char>, Seq<SqlValueView>),
                UpdateError,
            >((update.sql@, bound_values(update.values@))),
            Err(e) => spec_build(table@, *payload, id_column@, id_value) == Err::<
                (Seq<char>, Seq<SqlValueView>),
                UpdateError,
            >(e),
        },
{
    let fields = match payload {
        Payload::Object(fields) => fields,
        Payload::Other => {
            return Err(UpdateError::NotAnObject);
        },
    };
    if fields.len() == 0 {
        return Err(UpdateError::NoFields);
    }
    let sql = statement(table, fields, id_column);
    let mut values: Vec<SqlValue> = Vec::new();
    let n = fields.len();
    let mut i: usize = 0;
    while i < n
        invariant
            n == fields.len(),
            i <= n,
            n > 0,
            *payload == Payload::Object(*fields),
            values.len() == i,
            !has_nested(fields@.subrange(0, i as int)),
            bound_values(values@) == spec_values(fields@.subrange(0, i as int)),
        decreases n - i,
    {
        let ghost before = values@;
        match field_value(&fields[i].value) {
            Some(value) => {
                values.push(value);
            },
            None => {
                assert(spec_value(fields@[i as int].value).is_none());
                assert(has_nested(fields@));
                return Err(UpdateError::UnsupportedValue);
            },
        }
        proof {
            let done = fields@.subrange(0, i as int);
            let next = fields@.subrange(0, i + 1);
            assert(bound_values(values@) =~= spec_values(next)) by {
                assert forall|j: int| 0 <= j < i + 1 implies bound_values(values@)[j]
                    == spec_values(next)[j] by {
                    if j < i {
                        assert(bound_values(before)[j] == spec_values(done)[j]);
                        assert(next[j] == done[j]);
                    }
                }
            }
            assert(!has_nested(next)) by {
                if has_nested(next) {
                    let j = choose|j: int|
                        0 <= j < next.len() && spec_value(#[trigger] next[j].value).is_none();
                    if j < i {
                        assert(done[j] == next[j]);
                    }
                }
            }
        }
        i = i + 1;
    }
    assert(fields@.subrange(0, n as int) =~= fields@);
    values.push(SqlValue::I64(id_value));
    assert(bound_values(values@) =~= spec_values(fields@).push(SqlValueView::I64(id_value)));
    Ok(SqlUpdate { sql, values })
}

} // verus!
