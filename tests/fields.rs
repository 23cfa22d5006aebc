use json2jsonl::date::{DateError, LocalDate, LocalDateTime};
use json2jsonl::field::{
    date_field, date_time_field, optional_date, optional_date_time, optional_text, text_field,
    FieldError, FieldValue,
};
use json2jsonl::stream::ArrayStream;

fn record(text: &str) -> serde_json::Value {
    serde_json::from_str(text).unwrap()
}

#[test]
fn null_or_absent_is_no_value() {
    for f in [FieldValue::Absent, FieldValue::Null] {
        assert_eq!(optional_text(f), Ok(None));
        assert_eq!(optional_date(f), Ok(None));
        assert_eq!(optional_date_time(f), Ok(None));
    }
    let r = record("{\"region\": null, \"sex\": \"F\"}");
    assert_eq!(text_field(&r, "region"), Ok(None));
    assert_eq!(text_field(&r, "age_range"), Ok(None));
    assert_eq!(date_field(&r, "region"), Ok(None));
    assert_eq!(date_field(&r, "missing"), Ok(None));
    assert_eq!(date_time_field(&r, "region"), Ok(None));
    assert_eq!(date_time_field(&r, "missing"), Ok(None));
}

#[test]
fn present_fields_are_decoded() {
    let r = record("{\"sex\": \"F\", \"day\": \"02/29/2020\", \"at\": \"03/01/2020 08:30\"}");
    assert_eq!(text_field(&r, "sex"), Ok(Some("F")));
    assert_eq!(date_field(&r, "day"), Ok(Some(LocalDate { year: 2020, month: 2, day: 29 })));
    assert_eq!(
        date_time_field(&r, "at"),
        Ok(Some(LocalDateTime { date: LocalDate { year: 2020, month: 3, day: 1 }, hour: 8, minute: 30 }))
    );
}

#[test]
fn wrong_field_types_and_bad_dates_fail() {
    let r = record("{\"n\": 3, \"day\": \"not-a-date\", \"feb\": \"02/30/2020\"}");
    assert_eq!(text_field(&r, "n"), Err(FieldError::WrongType));
    assert_eq!(date_field(&r, "n"), Err(FieldError::WrongType));
    assert_eq!(date_field(&r, "day"), Err(FieldError::Date(DateError::Format)));
    assert_eq!(date_field(&r, "feb"), Err(FieldError::Date(DateError::Range)));
    assert_eq!(optional_text(FieldValue::Other), Err(FieldError::WrongType));
    assert_eq!(optional_date(FieldValue::Text("02/30/2020")), Err(FieldError::Date(DateError::Range)));
    assert_eq!(
        optional_date_time(FieldValue::Text("02/29/2020")),
        Err(FieldError::Date(DateError::Format))
    );
}

#[test]
fn records_before_a_bad_date_are_written() {
    let input = b"[{\"d\": \"01/02/2020\"}, {\"d\": null}, {\"d\": \"not-a-date\"}, {\"d\": \"01/03/2020\"}]";
    let mut stream = ArrayStream::new(input);
    let mut written = Vec::new();
    let mut failure = None;
    loop {
        match stream.next_element() {
            Ok(Some(v)) => match date_field(&v, "d") {
                Ok(d) => written.push(d),
                Err(e) => {
                    failure = Some(e);
                    break;
                }
            },
            Ok(None) => break,
            Err(_) => panic!("the array itself is well formed"),
        }
    }
    assert_eq!(written, vec![Some(LocalDate { year: 2020, month: 1, day: 2 }), None]);
    assert_eq!(failure, Some(FieldError::Date(DateError::Format)));
}
