use json2jsonl::date::{parse_date, parse_date_time, DateError, LocalDate, LocalDateTime};

#[test]
fn leap_day_parses() {
    assert_eq!(parse_date("02/29/2020"), Ok(LocalDate { year: 2020, month: 2, day: 29 }));
    assert_eq!(parse_date("02/29/2000"), Ok(LocalDate { year: 2000, month: 2, day: 29 }));
}

#[test]
fn day_outside_its_month_fails() {
    assert_eq!(parse_date("02/30/2020"), Err(DateError::Range));
    assert_eq!(parse_date("02/29/2019"), Err(DateError::Range));
    assert_eq!(parse_date("02/29/1900"), Err(DateError::Range));
    assert_eq!(parse_date("04/31/2021"), Err(DateError::Range));
    assert_eq!(parse_date("13/01/2021"), Err(DateError::Range));
    assert_eq!(parse_date("00/10/2021"), Err(DateError::Range));
    assert_eq!(parse_date("01/00/2021"), Err(DateError::Range));
}

#[test]
fn text_of_another_shape_fails() {
    assert_eq!(parse_date("not-a-date"), Err(DateError::Format));
    assert_eq!(parse_date("2/29/2020"), Err(DateError::Format));
    assert_eq!(parse_date("2020-02-29"), Err(DateError::Format));
    assert_eq!(parse_date("02/29/2020 "), Err(DateError::Format));
    assert_eq!(parse_date(""), Err(DateError::Format));
    assert_eq!(parse_date("02/29/2020 10:00"), Err(DateError::Format));
}

#[test]
fn date_with_time_parses() {
    assert_eq!(
        parse_date_time("02/29/2020 13:05"),
        Ok(LocalDateTime { date: LocalDate { year: 2020, month: 2, day: 29 }, hour: 13, minute: 5 })
    );
    assert_eq!(
        parse_date_time("12/31/1999 23:59"),
        Ok(LocalDateTime { date: LocalDate { year: 1999, month: 12, day: 31 }, hour: 23, minute: 59 })
    );
}

#[test]
fn date_with_time_errors() {
    assert_eq!(parse_date_time("02/30/2020 13:05"), Err(DateError::Range));
    assert_eq!(parse_date_time("02/28/2020 24:00"), Err(DateError::Range));
    assert_eq!(parse_date_time("02/28/2020 12:60"), Err(DateError::Range));
    assert_eq!(parse_date_time("02/28/2020"), Err(DateError::Format));
    assert_eq!(parse_date_time("02/28/2020T12:00"), Err(DateError::Format));
    assert_eq!(parse_date_time("0a/28/2020 12:00"), Err(DateError::Format));
}
