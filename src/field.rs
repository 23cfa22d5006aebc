//! Optional fields of a typed record: a field that is absent or `null` has no
//! value; one of the wrong JSON type, or a date text that does not parse, is
//! an error of the whole element.
use vstd::prelude::*;
use crate::date::{
    DateError, LocalDate, LocalDateTime, date_is, date_named, date_shape, date_time_shape,
    num2, parse_date, parse_date_time, time_named,
};

verus! {

/// What one field of a record holds, as far as decoding it needs to know.
#[derive(Clone, Copy, Debug)]
pub enum FieldValue<'a> {
    /// The record has no such field (or is not an object).
    Absent,
    /// The field is JSON `null`.
    Null,
    /// The field is a JSON string.
    Text(&'a str),
    /// The field is a number, a boolean, an array or an object.
    Other,
}

/// Why an optional field could not be decoded.
#[derive(PartialEq, Eq, Structural, Clone, Copy, Debug)]
pub enum FieldError {
    /// The field is neither `null` nor a string.
    WrongType,
    /// The field is a string that is not a date of the expected format.
    Date(DateError),
}

/// What `record` holds under `key`, as `field_of` tells it apart: `(0, _)` when
/// there is no such field, `(1, _)` for `null`, `(2, t)` for the string `t`,
/// `(3, _)` for any other value.
pub uninterp spec fn field_at(record: serde_json::Value, key: Seq<char>) -> (int, Seq<char>);

/// Relies on `serde_json::Value::get` to find the field `key` of an object
/// (none when `record` is not an object or lacks it), and on `Value`'s
/// variants to tell `null` and strings from the rest.
#[verifier::external_body]
fn field_of<'a>(record: &'a serde_json::Value, key: &str) -> (r: FieldValue<'a>)
    ensures
        r is Absent <==> field_at(*record, key@).0 == 0,
        r is Null <==> field_at(*record, key@).0 == 1,
        r is Text <==> field_at(*record, key@).0 == 2,
        r is Other <==> field_at(*record, key@).0 == 3,
        r matches FieldValue::Text(t) ==> t@ == field_at(*record, key@).1,
{
    match record.get(key) {
        None => FieldValue::Absent,
        Some(serde_json::Value::Null) => FieldValue::Null,
        Some(serde_json::Value::String(t)) => FieldValue::Text(t.as_str()),
        Some(_) => FieldValue::Other,
    }
}

/// Decodes an optional text field: absent or `null` is no value, a string is
/// that string (borrowed, not copied), anything else is `WrongType`.
pub fn optional_text<'a>(f: FieldValue<'a>) -> (r: Result<Option<&'a str>, FieldError>)
    ensures
        (f is Absent || f is Null) ==> r matches Ok(None),
        f matches FieldValue::Text(t) ==> r matches Ok(Some(u)) && u@ == t@,
        f is Other ==> r == Err::<Option<&str>, FieldError>(FieldError::WrongType),
{
    match f {
        FieldValue::Absent | FieldValue::Null => Ok(None),
        FieldValue::Text(t) => Ok(Some(t)),
        FieldValue::Other => Err(FieldError::WrongType),
    }
}

/// Decodes an optional `MM/DD/YYYY` field: absent or `null` is no value and
/// nothing is parsed; a string is parsed with [`parse_date`].
pub fn optional_date(f: FieldValue) -> (r: Result<Option<LocalDate>, FieldError>)
    ensures
        (f is Absent || f is Null) ==> r matches Ok(None),
        f matches FieldValue::Text(t) ==> {
            &&& (r matches Ok(Some(d)) && date_is(d, t@)) || (r matches Err(FieldError::Date(_)))
            &&& r is Ok == (t@.len() == 10 && date_shape(t@) && date_named(t@))
        },
        f is Other ==> r == Err::<Option<LocalDate>, FieldError>(FieldError::WrongType),
{
    match f {
        FieldValue::Absent | FieldValue::Null => Ok(None),
        FieldValue::Text(t) => match parse_date(t) {
            Ok(d) => Ok(Some(d)),
            Err(e) => Err(FieldError::Date(e)),
        },
        FieldValue::Other => Err(FieldError::WrongType),
    }
}

/// Decodes an optional `MM/DD/YYYY HH:MM` field: absent or `null` is no value
/// and nothing is parsed; a string is parsed with [`parse_date_time`].
pub fn optional_date_time(f: FieldValue) -> (r: Result<Option<LocalDateTime>, FieldError>)
    ensures
        (f is Absent || f is Null) ==> r matches Ok(None),
        f matches FieldValue::Text(t) ==> {
            &&& (r matches Ok(Some(v)) && date_is(v.date, t@) && v.hour == num2(t@, 11)
                && v.minute == num2(t@, 14)) || (r matches Err(FieldError::Date(_)))
            &&& r is Ok == (date_time_shape(t@) && date_named(t@) && time_named(t@))
        },
        f is Other ==> r == Err::<Option<LocalDateTime>, FieldError>(FieldError::WrongType),
{
    match f {
        FieldValue::Absent | FieldValue::Null => Ok(None),
        FieldValue::Text(t) => match parse_date_time(t) {
            Ok(v) => Ok(Some(v)),
            Err(e) => Err(FieldError::Date(e)),
        },
        FieldValue::Other => Err(FieldError::WrongType),
    }
}

/// Decodes the optional text field `key` of `record`: see [`optional_text`].
pub fn text_field<'a>(record: &'a serde_json::Value, key: &str) -> (r: Result<
    Option<&'a str>,
    FieldError,
>)
    ensures
        field_at(*record, key@).0 == 0 || field_at(*record, key@).0 == 1 ==> r matches Ok(None),
        field_at(*record, key@).0 == 2 ==> (r matches Ok(Some(u)) && u@ == field_at(
            *record,
            key@,
        ).1),
        field_at(*record, key@).0 == 3 ==> r == Err::<Option<&str>, FieldError>(
            FieldError::WrongType,
        ),
{
    optional_text(field_of(record, key))
}

/// Decodes the optional `MM/DD/YYYY` field `key` of `record`: see
/// [`optional_date`].
pub fn date_field(record: &serde_json::Value, key: &str) -> (r: Result<
    Option<LocalDate>,
    FieldError,
>)
    ensures
        field_at(*record, key@).0 == 0 || field_at(*record, key@).0 == 1 ==> r matches Ok(None),
        field_at(*record, key@).0 == 2 ==> {
            let t = field_at(*record, key@).1;
            &&& (r matches Ok(Some(d)) && date_is(d, t)) || (r matches Err(FieldError::Date(_)))
            &&& r is Ok == (t.len() == 10 && date_shape(t) && date_named(t))
        },
        field_at(*record, key@).0 == 3 ==> r == Err::<Option<LocalDate>, FieldError>(
            FieldError::WrongType,
        ),
        r matches Ok(Some(d)) ==> valid_day(d),
{
    optional_date(field_of(record, key))
}

/// Decodes the optional `MM/DD/YYYY HH:MM` field `key` of `record`: see
/// [`optional_date_time`].
pub fn date_time_field(record: &serde_json::Value, key: &str) -> (r: Result<
    Option<LocalDateTime>,
    FieldError,
>)
    ensures
        field_at(*record, key@).0 == 0 || field_at(*record, key@).0 == 1 ==> r matches Ok(None),
        field_at(*record, key@).0 == 2 ==> {
            let t = field_at(*record, key@).1;
            &&& (r matches Ok(Some(v)) && date_is(v.date, t) && v.hour == num2(t, 11) && v.minute
                == num2(t, 14)) || (r matches Err(FieldError::Date(_)))
            &&& r is Ok == (date_time_shape(t) && date_named(t) && time_named(t))
        },
        field_at(*record, key@).0 == 3 ==> r == Err::<Option<LocalDateTime>, FieldError>(
            FieldError::WrongType,
        ),
        r matches Ok(Some(v)) ==> valid_day(v.date) && v.hour <= 23 && v.minute <= 59,
{
    optional_date_time(field_of(record, key))
}

/// `d` is a real day: its month is from 1 to 12 and its day in that month.
pub open spec fn valid_day(d: LocalDate) -> bool {
    crate::date::valid_date(d.year as int, d.month as int, d.day as int)
}

} // verus!
